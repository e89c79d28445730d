use promptline::layout::{layout_segments, select_shrink_target, Line, SegmentLayout};
use promptline::segments::{FixedSegment, ShrinkPriority};

const MIN_TEST_SEGMENT_SIZE: usize = 5;

fn test_segment(width: usize) -> FixedSegment {
    FixedSegment::new(width, MIN_TEST_SEGMENT_SIZE, 1)
}

#[test]
fn layout_segments_one_line() {
    let segments = vec![test_segment(10)];

    let (line_type, layout) = layout_segments(&segments, 20, 5);
    assert_eq!(line_type, Line::SingleLine);
    assert_eq!(layout[0].current_size, 10);
}

#[test]
fn layout_segments_split_line() {
    let segments = vec![test_segment(10)];

    let (line_type, layout) = layout_segments(&segments, 20, 10);
    assert_eq!(line_type, Line::SplitLine);
    assert_eq!(layout[0].current_size, 10);
}

#[test]
fn layout_segments_shrink_comfortable() {
    let segments = vec![test_segment(25)];

    let (line_type, layout) = layout_segments(&segments, 20, 10);
    assert_eq!(line_type, Line::SplitLine);
    assert_eq!(layout[0].current_size, 18);
}

#[test]
fn layout_segments_shrink_small() {
    let segments = vec![test_segment(25)];

    let (line_type, layout) = layout_segments(&segments, 6, 10);
    assert_eq!(line_type, Line::SplitLine);
    assert_eq!(layout[0].current_size, 1);
}

#[test]
fn layout_multiple_segments_shrink_one() {
    let segments = vec![test_segment(25), test_segment(30)];

    let (line_type, layout) = layout_segments(&segments, 50, 40);
    assert_eq!(line_type, Line::SplitLine);
    assert_eq!(layout[0].current_size, 25);
    assert_eq!(layout[1].current_size, 22);
}

#[test]
fn layout_multiple_segments_shrink_both() {
    let segments = vec![test_segment(25), test_segment(30)];

    let (line_type, layout) = layout_segments(&segments, 25, 40);
    assert_eq!(line_type, Line::SplitLine);
    assert_eq!(layout[0].current_size, 25 - MIN_TEST_SEGMENT_SIZE - 3);
    assert_eq!(layout[1].current_size, MIN_TEST_SEGMENT_SIZE);
}

#[test]
fn layout_multiple_segments_shrink_one_small() {
    let segments = vec![test_segment(25), test_segment(30)];

    let (line_type, layout) = layout_segments(&segments, 10, 40);
    assert_eq!(line_type, Line::SplitLine);
    assert_eq!(layout[0].current_size, 1);
    assert_eq!(layout[1].current_size, MIN_TEST_SEGMENT_SIZE);
}

#[test]
fn layout_multiple_segments_overflow() {
    let segments = vec![test_segment(25), test_segment(30)];

    let (line_type, layout) = layout_segments(&segments, 3, 40);
    assert_eq!(line_type, Line::OverflowLine);
    assert_eq!(layout[0].current_size, 1);
    assert_eq!(layout[1].current_size, 1);
}

#[test]
fn greedy_selection_prefers_larger_slack() {
    let segments = vec![test_segment(12), test_segment(30)];
    let layout = vec![SegmentLayout { current_size: 12 }, SegmentLayout { current_size: 30 }];
    let picked = select_shrink_target(&segments, &layout, ShrinkPriority::ShrinkComfortable);
    assert_eq!(picked, 1);
}

#[test]
fn greedy_selection_tie_resolves_to_earliest() {
    let segments = vec![test_segment(20), test_segment(20), test_segment(20)];
    let layout = vec![
        SegmentLayout { current_size: 20 },
        SegmentLayout { current_size: 20 },
        SegmentLayout { current_size: 20 },
    ];
    let picked = select_shrink_target(&segments, &layout, ShrinkPriority::ShrinkComfortable);
    assert_eq!(picked, 0);
}

#[test]
fn single_line_headroom_is_strict() {
    // A terminal exactly `min_whitespace` wider than the prompt is not a
    // single line.
    let segments = vec![test_segment(10)];
    // prompt width = 10 + 2 = 12; terminal 17 leaves headroom of exactly 5.
    let (line_type, _) = layout_segments(&segments, 17, 5);
    assert_eq!(line_type, Line::SplitLine);
    let (line_type, _) = layout_segments(&segments, 18, 5);
    assert_eq!(line_type, Line::SingleLine);
}

#[test]
fn fitting_layouts_respect_terminal_width() {
    for term_width in 0usize..60 {
        let segments = vec![test_segment(25), test_segment(30)];
        let (line_type, layout) = layout_segments(&segments, term_width, 10);
        let total: usize = layout.iter().map(|l| l.current_size + 1).sum::<usize>() + 1;
        match line_type {
            Line::SingleLine | Line::SplitLine => assert!(total <= term_width),
            Line::OverflowLine => assert!(total > term_width),
        }
    }
}
