use promptline::jobs::JobsSegment;
use promptline::segments::{Context, PromptSegment, ShrinkPriority};

fn context_with_jobs(jobs: usize) -> Context {
    Context { path: None, home: None, pipestatus: None, jobs }
}

#[test]
fn render_single_job() {
    let context = context_with_jobs(1);
    let segment = JobsSegment::new(&context).unwrap();
    assert_eq!(segment.get_base_width(ShrinkPriority::Unconstrained), 3);
    assert_eq!(segment.render_at_size(3).text, " ⚙ ");
}

#[test]
fn render_multiple_jobs() {
    let context = context_with_jobs(3);
    let segment = JobsSegment::new(&context).unwrap();
    assert_eq!(segment.get_base_width(ShrinkPriority::Unconstrained), 5);
    assert_eq!(segment.render_at_size(5).text, " 3 ⚙ ");
}

#[test]
fn render_constrained() {
    let context = context_with_jobs(3);
    let segment = JobsSegment::new(&context).unwrap();
    assert_eq!(segment.get_base_width(ShrinkPriority::ShrinkComfortable), 3);
    assert_eq!(segment.render_at_size(3).text, " ⚙ ");
}

#[test]
fn no_jobs_is_absent() {
    let context = context_with_jobs(0);
    assert!(JobsSegment::new(&context).is_none());
}

#[test]
fn render_many_jobs_decimal() {
    let context = context_with_jobs(123);
    let segment = JobsSegment::new(&context).unwrap();
    assert_eq!(segment.get_unconstrained_size(), 7);
    assert_eq!(segment.render_at_size(7).text, " 123 ⚙ ");
    assert_eq!(segment.render_at_size(6).text, " ⚙ ");
    assert_eq!(segment.render_at_size(2).text, "");
}
