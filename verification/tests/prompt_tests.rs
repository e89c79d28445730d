use promptline::git::{GitState, GitStatus, RepoFacts};
use promptline::layout::Line;
use promptline::prompt::{compose_prompt, gather_segments, render_prompt};
use promptline::segments::{Context, FixedSegment};

fn esc(fg: u8, bg: u8) -> String {
    format!("\u{1b}[{}m\u{1b}[{}m", fg, bg)
}

const RESET: &str = "\u{1b}[0m";
const SEP: char = '\u{e0b0}';

#[test]
fn compose_single_fixed_segment() {
    let segments = vec![FixedSegment::new(4, 2, 1)];
    let layout = vec![promptline::layout::SegmentLayout { current_size: 4 }];
    let out = compose_prompt(&segments, &layout, Line::SingleLine);
    let expected = format!("{}    {}{}{} ", esc(39, 49), esc(39, 49), SEP, RESET);
    assert_eq!(out, expected);
}

#[test]
fn compose_overflow_shows_only_the_glyph() {
    let segments = vec![FixedSegment::new(30, 5, 1)];
    let layout = vec![promptline::layout::SegmentLayout { current_size: 1 }];
    let out = compose_prompt(&segments, &layout, Line::OverflowLine);
    let expected = format!("{}{}{}", esc(39, 44), SEP, RESET);
    assert_eq!(out, expected);
}

#[test]
fn full_pipeline_single_line() {
    let context = Context {
        path: Some("/home/me/xy".to_string()),
        home: Some("/home/me".to_string()),
        pipestatus: Some("0 1".to_string()),
        jobs: 2,
    };
    let repo = Some(RepoFacts {
        status: GitStatus::Clean,
        mode: GitState::Clean,
        branch_name: "main".to_string(),
    });
    let segments = gather_segments(&context, repo);
    assert_eq!(segments.len(), 4);
    let (line, layout, out) = render_prompt(&segments, None);
    assert_eq!(line, Line::SingleLine);
    let widths: Vec<usize> = layout.iter().map(|l| l.current_size).collect();
    assert_eq!(widths, vec![5, 5, 8, 8]);
    let expected = format!(
        "{}{}{}{}{}{}{}{}{}{}{}{}{}{}{}{}{} ",
        esc(30, 40),
        " \u{1b}[32m✓ \u{1b}[31m✘ ",
        esc(30, 40),
        SEP,
        esc(33, 40),
        " 2 ⚙ ",
        esc(30, 44),
        SEP,
        esc(30, 44),
        " ~ \u{e0b1} xy ",
        esc(34, 42),
        SEP,
        esc(30, 42),
        " \u{e0a0} main ",
        esc(32, 49),
        SEP,
        RESET,
    );
    assert_eq!(out, expected);
}

#[test]
fn full_pipeline_split_line_tail() {
    let segments = vec![FixedSegment::new(10, 5, 1)];
    let (line, layout, out) = render_prompt(&segments, Some(23));
    // Terminal width 20 after the margin; headroom of 8 is under the
    // threshold of 40, and the prompt fits without shrinking.
    assert_eq!(line, Line::SplitLine);
    assert_eq!(layout[0].current_size, 10);
    let expected = format!(
        "{}          {}{}{}\n{} \u{21b3} {}{}{} ",
        esc(39, 49),
        esc(39, 49),
        SEP,
        RESET,
        esc(30, 44),
        esc(34, 49),
        SEP,
        RESET,
    );
    assert_eq!(out, expected);
}

#[test]
fn full_pipeline_overflow() {
    let segments = vec![FixedSegment::new(30, 5, 1), FixedSegment::new(30, 5, 1)];
    let (line, _, out) = render_prompt(&segments, Some(5));
    assert_eq!(line, Line::OverflowLine);
    let expected = format!("{}{}{}", esc(39, 44), SEP, RESET);
    assert_eq!(out, expected);
}

#[test]
fn gather_omits_absent_collaborators() {
    let context = Context { path: None, home: None, pipestatus: Some("0".to_string()), jobs: 0 };
    let segments = gather_segments(&context, None);
    assert_eq!(segments.len(), 0);
    let (line, layout, out) = render_prompt(&segments, None);
    assert_eq!(line, Line::SingleLine);
    assert_eq!(layout.len(), 0);
    assert_eq!(out, format!("{} ", RESET));
}
