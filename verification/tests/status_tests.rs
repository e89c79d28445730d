use promptline::segments::{Context, PromptSegment, ShrinkPriority};
use promptline::status::{ExitStatus, StatusSegment};

fn context_with_status(pipestatus: &str) -> Context {
    Context { path: None, home: None, pipestatus: Some(pipestatus.to_string()), jobs: 0 }
}

#[test]
fn create_segment() {
    let context = context_with_status("0 127 0");
    let segment = StatusSegment::new(&context).unwrap();
    assert_eq!(segment.status.len(), 3);
    assert_eq!(segment.status[0], ExitStatus::Succeeded);
    assert_eq!(segment.status[1], ExitStatus::Failed);
    assert_eq!(segment.status[2], ExitStatus::Succeeded);
}

#[test]
fn all_zero_is_absent() {
    let context = context_with_status("0 0 0");
    assert!(StatusSegment::new(&context).is_none());
}

#[test]
fn empty_status_is_absent() {
    let context = context_with_status("   ");
    assert!(StatusSegment::new(&context).is_none());
}

#[test]
fn missing_status_is_absent() {
    let context = Context { path: None, home: None, pipestatus: None, jobs: 0 };
    assert!(StatusSegment::new(&context).is_none());
}

#[test]
fn double_zero_is_a_failure() {
    // Only the single digit zero is a success; "00" is read as a failure.
    let context = context_with_status("00");
    let segment = StatusSegment::new(&context).unwrap();
    assert_eq!(segment.status.len(), 1);
    assert_eq!(segment.status[0], ExitStatus::Failed);
}

#[test]
fn render_status_line() {
    let context = context_with_status("0 127 0");
    let segment = StatusSegment::new(&context).unwrap();
    assert_eq!(segment.get_base_width(ShrinkPriority::Unconstrained), 7);
    assert_eq!(
        segment.render_at_size(7).text,
        " \u{1b}[32m✓ \u{1b}[31m✘ \u{1b}[32m✓ "
    );
    assert_eq!(segment.render_at_size(6).text, " \u{1b}[32m✓ ");
    assert_eq!(segment.render_at_size(2).text, "");
}
