use promptline::git::{calculate_status_size_len, FileChanges, GitSegment, GitState, GitStatus};
use promptline::segments::{PromptSegment, ShrinkPriority};

#[test]
fn format_with_status() {
    let status = GitStatus::Changes(FileChanges { staged: true, unstaged: true, conflicted: false });
    let mode = GitState::Clean;
    let status_str_len = calculate_status_size_len(&status, &mode);
    let segment = GitSegment {
        status,
        mode,
        status_str_len,
        branch_name: "example123".to_string(),
        branch_name_len: 10,
    };
    assert_eq!(segment.get_base_width(ShrinkPriority::Unconstrained), 17);
    assert_eq!(segment.get_base_width(ShrinkPriority::ShrinkComfortable), 14);
    assert_eq!(segment.get_base_width(ShrinkPriority::ShrinkBeyondMin), 0);

    assert_eq!(segment.render_at_size(40).text, " \u{e0a0} example123 ●✚ ");
    assert_eq!(segment.render_at_size(14).text, " \u{e0a0} exam... ●✚ ");
    assert_eq!(segment.render_at_size(13).text, " \u{e0a0} ●✚ ");
    assert_eq!(segment.render_at_size(5).text, " \u{e0a0} ");
    assert_eq!(segment.render_at_size(2).text, "");
}

#[test]
fn format_no_status() {
    let status = GitStatus::Changes(FileChanges {
        staged: false,
        unstaged: false,
        conflicted: false,
    });
    let mode = GitState::Clean;
    let status_str_len = calculate_status_size_len(&status, &mode);
    let segment = GitSegment {
        status,
        mode,
        status_str_len,
        branch_name: "example123".to_string(),
        branch_name_len: 10,
    };
    assert_eq!(segment.get_base_width(ShrinkPriority::Unconstrained), 14);
    assert_eq!(segment.get_base_width(ShrinkPriority::ShrinkComfortable), 11);
    assert_eq!(segment.get_base_width(ShrinkPriority::ShrinkBeyondMin), 0);

    assert_eq!(segment.render_at_size(40).text, " \u{e0a0} example123 ");
    assert_eq!(segment.render_at_size(13).text, " \u{e0a0} exampl... ");
    assert_eq!(segment.render_at_size(10).text, " \u{e0a0} ");
    assert_eq!(segment.render_at_size(2).text, "");
}

#[test]
fn format_with_status_and_mode() {
    let status = GitStatus::Changes(FileChanges { staged: true, unstaged: true, conflicted: false });
    let mode = GitState::Rebase;
    let status_str_len = calculate_status_size_len(&status, &mode);
    let segment = GitSegment {
        status,
        mode,
        status_str_len,
        branch_name: "example123".to_string(),
        branch_name_len: 10,
    };
    assert_eq!(segment.get_base_width(ShrinkPriority::Unconstrained), 21);
    assert_eq!(segment.get_base_width(ShrinkPriority::ShrinkComfortable), 18);
    assert_eq!(segment.get_base_width(ShrinkPriority::ShrinkBeyondMin), 0);

    assert_eq!(segment.render_at_size(40).text, " \u{e0a0} example123 ●✚ >R> ");
    assert_eq!(segment.render_at_size(19).text, " \u{e0a0} examp... ●✚ >R> ");
    assert_eq!(segment.render_at_size(13).text, " \u{e0a0} ●✚ >R> ");
    assert_eq!(segment.render_at_size(5).text, " \u{e0a0} ");
    assert_eq!(segment.render_at_size(2).text, "");
}

#[test]
fn format_no_status_with_mode() {
    let status = GitStatus::Changes(FileChanges {
        staged: false,
        unstaged: false,
        conflicted: false,
    });
    let mode = GitState::Merge;
    let status_str_len = calculate_status_size_len(&status, &mode);
    let segment = GitSegment {
        status,
        mode,
        status_str_len,
        branch_name: "example123".to_string(),
        branch_name_len: 10,
    };
    assert_eq!(segment.get_base_width(ShrinkPriority::Unconstrained), 18);
    assert_eq!(segment.get_base_width(ShrinkPriority::ShrinkComfortable), 15);
    assert_eq!(segment.get_base_width(ShrinkPriority::ShrinkBeyondMin), 0);

    assert_eq!(segment.render_at_size(40).text, " \u{e0a0} example123 >M< ");
    assert_eq!(segment.render_at_size(17).text, " \u{e0a0} exampl... >M< ");
    assert_eq!(segment.render_at_size(10).text, " \u{e0a0} >M< ");
    assert_eq!(segment.render_at_size(4).text, " \u{e0a0} ");
    assert_eq!(segment.render_at_size(2).text, "");
}

#[test]
fn from_parts_counts_branch_clusters() {
    // The combining accent joins its base letter into one cluster, so the
    // branch is seven clusters long though it is eight characters.
    let segment = GitSegment::from_parts(
        GitStatus::Clean,
        GitState::Clean,
        "e\u{301}xample".to_string(),
    )
    .unwrap();
    assert_eq!(segment.branch_name_len, 7);
    assert_eq!(segment.get_base_width(ShrinkPriority::Unconstrained), 11);
    assert_eq!(segment.render_at_size(40).text, " \u{e0a0} e\u{301}xample ");
}

#[test]
fn conflict_symbol_renders() {
    let status = GitStatus::Changes(FileChanges { staged: false, unstaged: false, conflicted: true });
    let mode = GitState::Cherrypick;
    let status_str_len = calculate_status_size_len(&status, &mode);
    assert_eq!(status_str_len, 5);
    let segment = GitSegment {
        status,
        mode,
        status_str_len,
        branch_name: "main".to_string(),
        branch_name_len: 4,
    };
    assert_eq!(segment.render_at_size(40).text, " \u{e0a0} main ⚠ >C> ");
}

#[test]
fn untracked_files_keep_clean_widths() {
    let status = GitStatus::UntrackedFiles;
    let mode = GitState::Bisect;
    let status_str_len = calculate_status_size_len(&status, &mode);
    assert_eq!(status_str_len, 3);
    let segment = GitSegment {
        status,
        mode,
        status_str_len,
        branch_name: "main".to_string(),
        branch_name_len: 4,
    };
    assert_eq!(segment.get_base_width(ShrinkPriority::Unconstrained), 12);
    assert_eq!(segment.render_at_size(40).text, " \u{e0a0} main <B> ");
}
