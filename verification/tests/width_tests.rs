use promptline::git::{calculate_status_size_len, FileChanges, GitSegment, GitState, GitStatus};
use promptline::jobs::JobsSegment;
use promptline::path::{PathSegment, PathType};
use promptline::segments::{Context, PromptSegment};
use promptline::status::StatusSegment;
use unicode_segmentation::UnicodeSegmentation;

fn git_segment() -> GitSegment {
    let status = GitStatus::Changes(FileChanges { staged: true, unstaged: true, conflicted: true });
    let mode = GitState::Rebase;
    let status_str_len = calculate_status_size_len(&status, &mode);
    GitSegment {
        status,
        mode,
        status_str_len,
        branch_name: "a\u{310}e\u{301}o\u{308}\u{332}-branch".to_string(),
        branch_name_len: "a\u{310}e\u{301}o\u{308}\u{332}-branch".graphemes(true).count(),
    }
}

/// The text without its color escapes: what actually takes room on the
/// terminal.
fn visible(text: &str) -> String {
    let mut out = String::new();
    let mut in_escape = false;
    for c in text.chars() {
        if in_escape {
            if c == 'm' {
                in_escape = false;
            }
        } else if c == '\u{1b}' {
            in_escape = true;
        } else {
            out.push(c);
        }
    }
    out
}

fn rendered_width_matches_actual<S: PromptSegment>(segment: &S) {
    for cap in 0usize..40 {
        let actual = segment.get_actual_width_when_under(cap);
        let text = segment.render_at_size(cap).text;
        assert_eq!(visible(&text).graphemes(true).count(), actual);
    }
}

fn actual_width_is_monotone<S: PromptSegment>(segment: &S) {
    for cap in 0usize..40 {
        assert!(
            segment.get_actual_width_when_under(cap)
                <= segment.get_actual_width_when_under(cap + 1)
        );
    }
}

#[test]
fn git_rendered_width_matches_actual() {
    rendered_width_matches_actual(&git_segment());
}

#[test]
fn git_actual_width_is_monotone() {
    actual_width_is_monotone(&git_segment());
}

#[test]
fn path_rendered_width_matches_actual() {
    let segment =
        PathSegment::new_from_path(PathType::RelativeToHome, "work/o\u{308}\u{332}dd/project")
            .unwrap();
    rendered_width_matches_actual(&segment);
    actual_width_is_monotone(&segment);
}

#[test]
fn jobs_rendered_width_matches_actual() {
    let context = Context { path: None, home: None, pipestatus: None, jobs: 42 };
    let segment = JobsSegment::new(&context).unwrap();
    rendered_width_matches_actual(&segment);
    actual_width_is_monotone(&segment);
}

#[test]
fn status_rendered_width_matches_actual() {
    let context =
        Context { path: None, home: None, pipestatus: Some("1 0 2 0".to_string()), jobs: 0 };
    let segment = StatusSegment::new(&context).unwrap();
    rendered_width_matches_actual(&segment);
    actual_width_is_monotone(&segment);
}

#[test]
fn path_width_counts_clusters() {
    // Three clusters in the component, though it is six characters.
    let segment =
        PathSegment::new_from_path(PathType::RelativeToRoot, "a\u{310}e\u{301}o\u{308}\u{332}")
            .unwrap();
    assert_eq!(segment.preferred_width, 3 + 3 + 3);
}
