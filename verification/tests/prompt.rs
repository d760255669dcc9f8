use git_prompt_info::render::{bail_line, render_outcome, render_outcome_zsh};
use git_prompt_info::state::{marker_name, PromptInfo};

const NO_MARKERS: [bool; 5] = [false; 5];

#[test]
fn headers_only_is_clean() {
    let mut info = PromptInfo::from_status("# branch.oid abc123deadbeef\n# branch.head main\n");
    assert_eq!(info.sha, "abc123de");
    assert_eq!(info.head, "main");
    assert!(!info.is_dirty);
    assert!(!info.is_weird);
    info.fill_weird(NO_MARKERS);
    assert_eq!(info.machine_line(), "1 on main 0 0");
}

#[test]
fn detached_dirty_shows_commit() {
    let mut info = PromptInfo::from_status(
        "# branch.oid abc123deadbeef\n# branch.head (detached)\n1 .M N... file.txt\n",
    );
    assert!(info.is_dirty);
    info.fill_weird(NO_MARKERS);
    assert_eq!(info.machine_line(), "1 at abc123de 1 0");
}

#[test]
fn rebase_merge_marker_is_weird() {
    let mut info = PromptInfo::from_status("# branch.oid abc123deadbeef\n# branch.head main\n");
    info.fill_weird([false, true, false, false, false]);
    assert!(info.is_weird);
    assert_eq!(info.machine_line(), "1 on main 0 1");
}

#[test]
fn status_unavailable_bails() {
    assert_eq!(render_outcome(None, Some(NO_MARKERS)), "0");
    assert_eq!(render_outcome(None, None), "0");
}

#[test]
fn metadata_unavailable_bails() {
    assert_eq!(
        render_outcome(Some("# branch.oid abc123deadbeef\n# branch.head main\n"), None),
        "0"
    );
}

#[test]
fn both_queries_available_renders_machine_line() {
    assert_eq!(
        render_outcome(
            Some("# branch.oid abc123deadbeef\n# branch.head main\n"),
            Some(NO_MARKERS)
        ),
        "1 on main 0 0"
    );
}

#[test]
fn empty_status_keeps_placeholders() {
    let info = PromptInfo::from_status("");
    assert_eq!(info.sha, "??");
    assert_eq!(info.head, "??");
    assert!(!info.is_dirty);
    assert_eq!(info.machine_line(), "1 on ?? 0 0");
}

#[test]
fn change_line_without_headers_is_dirty() {
    let info = PromptInfo::from_status("?? newfile\n");
    assert!(info.is_dirty);
    assert_eq!(info.sha, "??");
    assert_eq!(info.head, "??");
}

#[test]
fn short_commit_id_is_kept_whole() {
    let info = PromptInfo::from_status("# branch.oid abc\n");
    assert_eq!(info.sha, "abc");
}

#[test]
fn crlf_line_endings_are_handled() {
    let info =
        PromptInfo::from_status("# branch.oid abc123deadbeef\r\n# branch.head main\r\n");
    assert_eq!(info.sha, "abc123de");
    assert_eq!(info.head, "main");
    assert!(!info.is_dirty);
}

#[test]
fn scan_stops_at_first_change_line() {
    let info =
        PromptInfo::from_status("# branch.oid abc123deadbeef\nx\n# branch.head main\n");
    assert!(info.is_dirty);
    assert_eq!(info.sha, "abc123de");
    // The head header after the change line is never reached.
    assert_eq!(info.head, "??");
}

#[test]
fn unrecognized_headers_are_skipped() {
    let info =
        PromptInfo::from_status("# branch.upstream origin/main\n# branch.head dev\n");
    assert_eq!(info.head, "dev");
    assert!(!info.is_dirty);
}

#[test]
fn many_change_lines_still_one_dirty_flag() {
    let mut info = PromptInfo::from_status(
        "# branch.oid abc123deadbeef\n# branch.head main\n1 .M N... a\n1 .M N... b\n?? c\n",
    );
    info.fill_weird(NO_MARKERS);
    assert_eq!(info.machine_line(), "1 on main 1 0");
}

#[test]
fn zsh_line_is_exact() {
    let mut info = PromptInfo::from_status(
        "# branch.oid abc123deadbeef\n# branch.head main\n1 .M N... file.txt\n",
    );
    info.fill_weird(NO_MARKERS);
    assert_eq!(
        info.zsh_line(),
        " \x1b[38;5;242mon \x1b[38;5;023mmain\x1b[38;5;124m*\x1b[m"
    );
}

#[test]
fn zsh_line_clean_has_no_star() {
    let info = PromptInfo::from_status("# branch.oid abc123deadbeef\n# branch.head main\n");
    assert_eq!(
        info.zsh_line(),
        " \x1b[38;5;242mon \x1b[38;5;023mmain\x1b[38;5;124m\x1b[m"
    );
}

#[test]
fn zsh_outcome_bails_empty() {
    assert_eq!(render_outcome_zsh(None), "");
    assert_eq!(bail_line(true), "");
    assert_eq!(bail_line(false), "0");
}

#[test]
fn zsh_outcome_renders_line() {
    assert_eq!(
        render_outcome_zsh(Some("# branch.oid abc123deadbeef\n# branch.head main\n")),
        " \x1b[38;5;242mon \x1b[38;5;023mmain\x1b[38;5;124m\x1b[m"
    );
}

#[test]
fn marker_names_in_fixed_order() {
    let names: Vec<&str> = (0..5).map(marker_name).collect();
    assert_eq!(
        names,
        vec!["rebase-apply", "rebase-merge", "MERGE_HEAD", "CHERRY_PICK_HEAD", "REVERT_HEAD"]
    );
}

#[test]
fn each_single_marker_sets_weird() {
    for k in 0..5 {
        let mut info =
            PromptInfo::from_status("# branch.oid abc123deadbeef\n# branch.head main\n");
        let mut markers = [false; 5];
        markers[k] = true;
        info.fill_weird(markers);
        assert!(info.is_weird);
        assert!(!info.is_dirty);
        assert_eq!(info.head, "main");
        assert_eq!(info.sha, "abc123de");
    }
}

#[test]
fn no_marker_leaves_weird_unset() {
    let mut info = PromptInfo::from_status("# branch.oid abc123deadbeef\n# branch.head main\n");
    info.fill_weird(NO_MARKERS);
    assert!(!info.is_weird);
}
