use perch::dialog::{SwitchDialog, WorktreeEntry};
use perch::git::{ChangeGroup, DiffHunk, DiffLine, DiffLineKind, FileDiff, FileEntry, FileStatus, ObjectId};
use perch::state::{AppState, ChecksInfo, FlashKind, MergeableStatus, PrDisplayInfo, PrStatus, ViewMode};

fn make_entry(path: &str, ins: usize, del: usize) -> FileEntry {
    FileEntry {
        path: path.to_string(),
        status: FileStatus::Modified,
        insertions: ins,
        deletions: del,
        group: ChangeGroup::Changes,
    }
}

fn grouped_entry(path: &str, group: ChangeGroup) -> FileEntry {
    FileEntry {
        path: path.to_string(),
        status: FileStatus::Modified,
        insertions: 1,
        deletions: 0,
        group,
    }
}

fn make_state() -> AppState {
    AppState::new(vec![], 600, "main".to_string())
}

fn empty_pr(number: u64, title: &str) -> PrDisplayInfo {
    PrDisplayInfo {
        number,
        title: title.to_string(),
        state: PrStatus::Open,
        reviews: vec![],
        checks: ChecksInfo {
            total: 0,
            passed: 0,
            failed: 0,
            pending: 0,
            skipped: 0,
            checks: vec![],
        },
        comment_count: 0,
        mergeable: MergeableStatus::Clean,
        labels: vec![],
        assignees: vec![],
        url: String::new(),
    }
}

fn diff_with_lines(n: usize) -> FileDiff {
    let lines = (0..n)
        .map(|i| DiffLine {
            kind: DiffLineKind::Context,
            content: format!("line {i}"),
        })
        .collect();
    FileDiff {
        hunks: vec![DiffHunk {
            header: "@@ -1,1 +1,1 @@".to_string(),
            lines,
        }],
    }
}

#[test]
fn test_normal_mode_builds_header_rows() {
    let files = vec![
        grouped_entry("a.rs", ChangeGroup::Changes),
        grouped_entry("b.rs", ChangeGroup::Committed),
    ];
    let mut state = AppState::new(files, 600, "main".to_string());
    state.set_view_mode(ViewMode::Normal);
    let rows = state.visible_rows();
    assert_eq!(rows.len(), 4); // 2 headers + 2 files
    assert!(rows[0].is_header());
}

#[test]
fn test_toggle_selected_group_collapses_and_keeps_header_selected() {
    let files = vec![grouped_entry("a.rs", ChangeGroup::Changes)];
    let mut state = AppState::new(files, 600, "main".to_string());
    state.set_view_mode(ViewMode::Normal);
    // Row 0 is the "Changes" header.
    assert!(state.toggle_selected_group());
    let rows = state.visible_rows();
    assert_eq!(rows.len(), 1); // file hidden, header remains
    assert_eq!(rows[0].header_collapsed(), Some(true));
    assert_eq!(state.selected_index(), 0); // still on the header
    // Toggling again expands it.
    assert!(state.toggle_selected_group());
    assert_eq!(state.visible_rows().len(), 2);
}

#[test]
fn test_navigation() {
    let files = vec![
        make_entry("a.rs", 1, 0),
        make_entry("b.rs", 2, 1),
        make_entry("c.rs", 0, 3),
    ];
    let mut state = AppState::new(files, 600, "main".to_string());

    assert_eq!(state.selected_index(), 0);
    state.select_next();
    assert_eq!(state.selected_index(), 1);
    state.select_next();
    assert_eq!(state.selected_index(), 2);
    state.select_next(); // should clamp
    assert_eq!(state.selected_index(), 2);
    state.select_previous();
    assert_eq!(state.selected_index(), 1);
}

#[test]
fn test_update_preserves_selection() {
    let files = vec![
        make_entry("a.rs", 1, 0),
        make_entry("b.rs", 2, 1),
        make_entry("c.rs", 0, 3),
    ];
    let mut state = AppState::new(files, 600, "main".to_string());
    state.select_next(); // select b.rs

    let new_files = vec![
        make_entry("a.rs", 1, 0),
        make_entry("b.rs", 5, 2), // changed stats
        make_entry("d.rs", 1, 1), // c.rs gone, d.rs new
    ];
    state.update_files(new_files);

    // Should still have b.rs selected
    assert_eq!(state.selected_path().unwrap(), "b.rs");
}

#[test]
fn test_cycle_view_mode_condensed_to_tree_to_normal() {
    let mut state = make_state();
    assert_eq!(state.view_mode(), ViewMode::Condensed);
    state.cycle_view_mode();
    assert_eq!(state.view_mode(), ViewMode::Tree);
    state.cycle_view_mode();
    assert_eq!(state.view_mode(), ViewMode::Normal);
}

#[test]
fn test_cycle_view_mode_three_way() {
    let mut state = make_state();
    state.set_view_mode(ViewMode::Normal);
    assert_eq!(state.view_mode(), ViewMode::Normal);
    state.cycle_view_mode();
    assert_eq!(state.view_mode(), ViewMode::Condensed);
    state.cycle_view_mode();
    assert_eq!(state.view_mode(), ViewMode::Tree);
    state.cycle_view_mode();
    assert_eq!(state.view_mode(), ViewMode::Normal);
}

#[test]
fn test_tree_mode_auto_expands_ancestors_for_selected_file() {
    let files = vec![
        make_entry("src/ui/header.rs", 2, 0),
        make_entry("src/ui/mod.rs", 1, 0),
    ];
    let mut state = AppState::new(files, 600, "main".to_string());
    state.cycle_view_mode();

    assert!(state.expanded_dirs().contains("src"));
    assert!(state.expanded_dirs().contains("src/ui"));
    assert_eq!(
        state.selected_file_path().as_deref(),
        Some("src/ui/header.rs")
    );
}

#[test]
fn test_toggle_selected_directory_collapses_visible_children() {
    let files = vec![
        make_entry("src/ui/header.rs", 2, 0),
        make_entry("src/ui/mod.rs", 1, 0),
    ];
    let mut state = AppState::new(files, 600, "main".to_string());
    state.cycle_view_mode();

    let expanded_labels = state
        .visible_rows()
        .into_iter()
        .map(|row| row.label().to_string())
        .collect::<Vec<_>>();
    assert_eq!(expanded_labels, vec!["src/ui/", "header.rs", "mod.rs"]);

    state.select_previous();
    assert!(state.toggle_selected_directory());
    assert!(!state.expanded_dirs().contains("src/ui"));

    let collapsed_labels = state
        .visible_rows()
        .into_iter()
        .map(|row| row.label().to_string())
        .collect::<Vec<_>>();
    assert_eq!(collapsed_labels, vec!["src/ui/"]);
    assert!(state.selected_file_path().is_none());
}

#[test]
fn test_tree_mode_update_preserves_selected_file_by_path() {
    let files = vec![
        make_entry("src/ui/header.rs", 2, 0),
        make_entry("src/ui/mod.rs", 1, 0),
    ];
    let mut state = AppState::new(files, 600, "main".to_string());
    state.cycle_view_mode();

    let updated_files = vec![
        make_entry("src/ui/footer.rs", 3, 0),
        make_entry("src/ui/header.rs", 5, 1),
        make_entry("src/ui/mod.rs", 1, 0),
    ];
    state.update_files(updated_files);

    assert_eq!(
        state.selected_file_path().as_deref(),
        Some("src/ui/header.rs")
    );
    assert!(state.expanded_dirs().contains("src"));
    assert!(state.expanded_dirs().contains("src/ui"));
    assert_eq!(state.selected_index(), 2);
}

#[test]
fn test_accessors() {
    let files = vec![make_entry("a.rs", 1, 0), make_entry("b.rs", 2, 1)];
    let state = AppState::new(files, 600, "main".to_string());

    assert_eq!(state.files().len(), 2);
    assert_eq!(state.files()[0].path, "a.rs");
    assert_eq!(state.selected_index(), 0);
    assert_eq!(state.selected_path(), Some("a.rs".to_string()));
    assert_eq!(state.refresh_count(), 0);
}

#[test]
fn test_navigation_empty_list() {
    let mut state = make_state();
    assert_eq!(state.selected_index(), 0);
    assert!(state.selected_path().is_none());
    state.select_next(); // should not panic
    state.select_previous();
    assert_eq!(state.selected_index(), 0);
}

#[test]
fn test_update_clamps_selection_when_list_shrinks() {
    let files = vec![
        make_entry("a.rs", 1, 0),
        make_entry("b.rs", 2, 1),
        make_entry("c.rs", 0, 3),
    ];
    let mut state = AppState::new(files, 600, "main".to_string());
    state.select_next();
    state.select_next(); // select c.rs (index 2)

    // Shrink to 1 file — selection should clamp
    state.update_files(vec![make_entry("x.rs", 1, 1)]);
    assert_eq!(state.selected_index(), 0);
}

#[test]
fn test_update_increments_refresh_count() {
    let mut state = make_state();
    assert_eq!(state.refresh_count(), 0);

    state.update_files(vec![make_entry("a.rs", 1, 0)]);
    assert_eq!(state.refresh_count(), 1);

    state.update_files(vec![]);
    assert_eq!(state.refresh_count(), 2);
}

#[test]
fn test_flash_on_changed_stats() {
    let mut state = make_state();
    state.update_files(vec![make_entry("a.rs", 1, 0)]);
    assert!(!state.is_flashing("a.rs"));

    state.update_files(vec![make_entry("a.rs", 5, 2)]);
    assert!(state.is_flashing("a.rs"));
}

#[test]
fn test_no_flash_on_unchanged_stats() {
    let mut state = make_state();
    state.update_files(vec![make_entry("a.rs", 1, 0)]);
    state.update_files(vec![make_entry("a.rs", 1, 0)]);
    assert!(!state.is_flashing("a.rs"));
}

#[test]
fn test_focus_state() {
    let state = make_state();
    assert!(state.is_focused()); // focused by default

    let mut state = state;
    state.set_focused(false);
    assert!(!state.is_focused());

    state.set_focused(true);
    assert!(state.is_focused());
}

#[test]
fn test_repo_metadata_accessors() {
    let files = vec![make_entry("a.rs", 1, 0)];
    let state = AppState::new(files, 600, "main".to_string());

    assert_eq!(state.repo_name(), "");
    assert_eq!(state.worktree_name(), "");
    assert_eq!(state.head_sha(), "");
    assert_eq!(state.head_message(), "");
    assert_eq!(state.stash_count(), 0);
    assert_eq!(state.ahead_behind(), None);
    assert_eq!(state.repo_state(), None);
}

#[test]
fn test_set_repo_metadata() {
    let files = vec![make_entry("a.rs", 1, 0)];
    let mut state = AppState::new(files, 600, "main".to_string());

    state.set_repo_name("perch".to_string());
    state.set_worktree_name("perch".to_string());
    state.set_head_info("abc1234".to_string(), "fix: some bug".to_string());
    state.set_stash_count(3);
    state.set_ahead_behind(Some((2, 1)));
    state.set_repo_state(Some("REBASING".to_string()));

    assert_eq!(state.repo_name(), "perch");
    assert_eq!(state.worktree_name(), "perch");
    assert_eq!(state.head_sha(), "abc1234");
    assert_eq!(state.head_message(), "fix: some bug");
    assert_eq!(state.stash_count(), 3);
    assert_eq!(state.ahead_behind(), Some((2, 1)));
    assert_eq!(state.repo_state(), Some("REBASING"));
}

#[test]
fn test_flash_message_default_none() {
    let state = make_state();
    assert!(state.flash_message().is_none());
}

#[test]
fn test_set_and_get_flash_message() {
    let mut state = make_state();
    state.set_flash_message("Switched to worktree: foo".to_string());
    assert_eq!(state.flash_message().unwrap(), "Switched to worktree: foo");
}

#[test]
fn test_clear_flash_message() {
    let mut state = make_state();
    state.set_flash_message("test".to_string());
    state.clear_flash_message();
    assert!(state.flash_message().is_none());
}

#[test]
fn test_help_visible_default_false() {
    let s = make_state();
    assert!(!s.is_help_visible());
}

#[test]
fn test_show_hide_help() {
    let mut s = make_state();
    s.show_help();
    assert!(s.is_help_visible());
    s.hide_help();
    assert!(!s.is_help_visible());
}

#[test]
fn test_pr_state_default() {
    let state = make_state();
    assert!(state.pr_state().info.is_none());
    assert!(state.pr_state().error.is_none());
    assert!(!state.pr_state().loading);
}

#[test]
fn test_set_pr_info() {
    let mut state = make_state();
    state.set_pr_loading();
    assert!(state.pr_state().loading);
    let mut info = empty_pr(42, "feat: test");
    info.comment_count = 5;
    state.set_pr_info(info);
    assert!(!state.pr_state().loading);
    assert_eq!(state.pr_state().info.as_ref().unwrap().number, 42);
}

#[test]
fn test_reset_clears_pr() {
    let files = vec![make_entry("a.rs", 1, 0)];
    let mut state = AppState::new(files, 600, "main".to_string());
    state.set_pr_info(empty_pr(1, "t"));
    state.reset_for_switch(vec![], "main".to_string(), "r".to_string(), "w".to_string());
    assert!(state.pr_state().info.is_none());
}

#[test]
fn test_border_flash_initially_off() {
    let state = make_state();
    assert!(!state.is_border_flashing());
}

#[test]
fn test_border_flash_set_on_switch() {
    let files = vec![make_entry("a.rs", 1, 0)];
    let mut state = AppState::new(files, 600, "main".to_string());

    state.reset_for_switch(
        vec![make_entry("b.rs", 2, 1)],
        "feature".to_string(),
        "repo".to_string(),
        "wt".to_string(),
    );
    assert!(
        state.is_border_flashing(),
        "flash should be set after reset_for_switch"
    );
}

#[test]
fn test_merge_base_default_none() {
    let state = make_state();
    assert!(state.merge_base().is_none());
    assert_eq!(state.base_branch(), "");
}

#[test]
fn test_set_merge_base() {
    let mut state = AppState::new(vec![], 600, "feature".to_string());
    let fake_id = ObjectId::null(20);
    state.set_merge_base(Some(fake_id.clone()), "main".to_string());
    assert_eq!(state.merge_base(), Some(fake_id));
    assert_eq!(state.base_branch(), "main");
}

#[test]
fn test_reset_for_switch_clears_merge_base() {
    let mut state = AppState::new(vec![], 600, "feature".to_string());
    let fake_id = ObjectId::null(20);
    state.set_merge_base(Some(fake_id), "main".to_string());

    state.reset_for_switch(
        vec![],
        "other".to_string(),
        "r".to_string(),
        "w".to_string(),
    );
    assert!(state.merge_base().is_none());
    assert_eq!(state.base_branch(), "");
}

#[test]
fn test_reset_for_switch() {
    let files = vec![make_entry("a.rs", 1, 0), make_entry("b.rs", 2, 1)];
    let mut state = AppState::new(files, 600, "main".to_string());
    state.select_next(); // select b.rs
    state.set_repo_name("old-repo".to_string());
    state.set_worktree_name("old-wt".to_string());

    let new_files = vec![make_entry("c.rs", 3, 0)];
    state.reset_for_switch(
        new_files,
        "feature".to_string(),
        "new-repo".to_string(),
        "new-wt".to_string(),
    );

    assert_eq!(state.selected_index(), 0);
    assert_eq!(state.files().len(), 1);
    assert_eq!(state.files()[0].path, "c.rs");
    assert_eq!(state.branch(), "feature");
    assert_eq!(state.repo_name(), "new-repo");
    assert_eq!(state.worktree_name(), "new-wt");
    assert_eq!(state.refresh_count(), 0);
}

#[test]
fn is_computing_defaults_false_and_is_set_clear() {
    let mut s = make_state();
    assert!(!s.is_computing());
    s.set_computing(true);
    assert!(s.is_computing());
    s.set_computing(false);
    assert!(!s.is_computing());
}

#[test]
fn update_files_initial_seed_does_not_flash() {
    let mut state = make_state();
    state.update_files(vec![
        make_entry("a.rs", 1, 0),
        make_entry("b.rs", 2, 1),
        make_entry("c.rs", 0, 3),
    ]);
    assert!(!state.is_flashing("a.rs"));
    assert!(!state.is_flashing("b.rs"));
    assert!(!state.is_flashing("c.rs"));
}

#[test]
fn update_files_after_seed_flashes_changed_numstat() {
    let mut state = make_state();
    state.update_files(vec![make_entry("a.rs", 1, 0)]); // seed
    state.update_files(vec![make_entry("a.rs", 5, 2)]); // stats change
    assert!(state.is_flashing("a.rs"));
}

#[test]
fn update_files_after_seed_flashes_new_file() {
    let mut state = make_state();
    state.update_files(vec![make_entry("a.rs", 1, 0)]); // seed
    state.update_files(vec![
        make_entry("a.rs", 1, 0), // unchanged
        make_entry("b.rs", 2, 1), // new
    ]);
    assert!(!state.is_flashing("a.rs"));
    assert!(state.is_flashing("b.rs"));
}

#[test]
fn flash_kind_reflects_net_line_delta() {
    let mut state = make_state();
    state.update_files(vec![
        make_entry("a.rs", 5, 0),
        make_entry("b.rs", 5, 0),
        make_entry("c.rs", 5, 0),
    ]);
    state.update_files(vec![
        make_entry("a.rs", 8, 0), // net 5 -> 8: added
        make_entry("b.rs", 5, 3), // net 5 -> 2: removed
        make_entry("c.rs", 7, 2), // net 5 -> 5: tie -> added
        make_entry("d.rs", 0, 4), // new file, net 0 - 4 vs 0: removed
    ]);
    assert_eq!(state.flash_kind("a.rs"), Some(FlashKind::Added));
    assert_eq!(state.flash_kind("b.rs"), Some(FlashKind::Removed));
    assert_eq!(state.flash_kind("c.rs"), Some(FlashKind::Added));
    assert_eq!(state.flash_kind("d.rs"), Some(FlashKind::Removed));
}

#[test]
fn flash_kind_none_when_not_flashing() {
    let mut state = make_state();
    state.update_files(vec![make_entry("a.rs", 1, 0)]); // seed, no flash
    assert_eq!(state.flash_kind("a.rs"), None);
    assert_eq!(state.flash_kind("missing.rs"), None);
}

#[test]
fn test_scroll_offset_default_and_roundtrip() {
    let mut state = AppState::new(
        vec![make_entry("a.rs", 1, 0)],
        600,
        "main".to_string(),
    );
    assert_eq!(state.scroll_offset(), 0);

    state.set_scroll_offset(17);
    assert_eq!(state.scroll_offset(), 17);
}

#[test]
fn test_reset_for_switch_clears_scroll_offset() {
    let mut state = AppState::new(
        vec![make_entry("a.rs", 1, 0)],
        600,
        "main".to_string(),
    );
    state.set_scroll_offset(42);
    assert_eq!(state.scroll_offset(), 42);

    state.reset_for_switch(
        vec![make_entry("b.rs", 1, 0)],
        "other".to_string(),
        "repo".to_string(),
        "wt".to_string(),
    );
    assert_eq!(state.scroll_offset(), 0);
}

#[test]
fn reset_for_switch_clears_seed_flag() {
    let mut state = make_state();
    state.update_files(vec![make_entry("a.rs", 1, 0)]);
    state.reset_for_switch(
        Vec::new(),
        "feat/foo".to_string(),
        "repo".to_string(),
        "wt".to_string(),
    );
    state.update_files(vec![make_entry("x.rs", 5, 2), make_entry("y.rs", 0, 1)]);
    assert!(!state.is_flashing("x.rs"));
    assert!(!state.is_flashing("y.rs"));
}

#[test]
fn post_switch_change_on_clean_branch_flashes() {
    let mut state = make_state();
    state.update_files(vec![]);
    state.reset_for_switch(
        Vec::new(),
        "feat/foo".to_string(),
        "repo".to_string(),
        "wt".to_string(),
    );
    state.update_files(vec![]);
    state.update_files(vec![make_entry("new.rs", 3, 1)]);
    assert!(state.is_flashing("new.rs"));
}

#[test]
fn test_diff_total_lines_no_diff_is_zero() {
    let state = make_state();
    assert_eq!(state.diff_total_lines(), 0);
}

#[test]
fn test_overlay_show_hide() {
    let mut state = make_state();
    assert!(!state.is_diff_overlay_visible());
    state.show_diff_overlay();
    assert!(state.is_diff_overlay_visible());
    state.hide_diff_overlay();
    assert!(!state.is_diff_overlay_visible());
}

#[test]
fn test_hide_overlay_resets_scroll() {
    let mut state = make_state();
    state.show_diff_overlay();
    state.scroll_diff_down();
    state.scroll_diff_down();
    assert_eq!(state.diff_scroll(), 2);
    state.hide_diff_overlay();
    assert_eq!(state.diff_scroll(), 0);
}

#[test]
fn test_scroll_diff_saturates_at_zero() {
    let mut state = make_state();
    state.scroll_diff_up();
    state.scroll_diff_up();
    assert_eq!(state.diff_scroll(), 0, "should not underflow");
}

#[test]
fn test_scroll_diff_up_and_down() {
    let mut state = make_state();
    state.scroll_diff_down();
    state.scroll_diff_down();
    state.scroll_diff_down();
    assert_eq!(state.diff_scroll(), 3);
    state.scroll_diff_up();
    assert_eq!(state.diff_scroll(), 2);
}

#[test]
fn test_pending_diff_token_increments_monotonically() {
    let mut state = make_state();
    let t0 = state.pending_diff_token();
    let t1 = state.advance_pending_diff_token();
    let t2 = state.advance_pending_diff_token();
    assert!(t1 > t0);
    assert!(t2 > t1);
    assert_eq!(state.pending_diff_token(), t2);
}

#[test]
fn test_show_help_hides_diff_overlay() {
    let mut state = make_state();
    state.show_diff_overlay();
    state.scroll_diff_down();
    assert!(state.is_diff_overlay_visible());
    state.show_help();
    assert!(
        !state.is_diff_overlay_visible(),
        "help should close diff overlay"
    );
    assert_eq!(state.diff_scroll(), 0, "help should reset diff scroll");
}

#[test]
fn test_set_expanded_diff_sets_diff() {
    let mut state = AppState::new(
        vec![make_entry("src/ui/mod.rs", 7, 3)],
        600,
        "main".to_string(),
    );
    let diff = FileDiff::default();
    state.set_expanded_diff("src/ui/mod.rs".to_string(), diff);
    assert!(state.expanded_diff().is_some());
    assert_eq!(state.expanded_diff_path(), Some("src/ui/mod.rs"));
    assert_eq!(state.expanded_diff_stats(), Some((7, 3)));
    assert_eq!(state.diff_scroll(), 0);
}

#[test]
fn test_switch_dialog_visibility_roundtrip() {
    let mut s = AppState::new(Vec::new(), 100, "main".to_string());
    assert!(!s.is_switch_dialog_visible());

    let entries = vec![WorktreeEntry {
        path: "/a".to_string(),
        head: "0000000000000000000000000000000000000000".to_string(),
        branch: Some("main".to_string()),
        bare: false,
        detached: false,
        locked: None,
        prunable: None,
    }];
    let dialog = SwitchDialog::new(entries, "/a", "/");
    s.show_switch_dialog(dialog);
    assert!(s.is_switch_dialog_visible());
    assert!(s.switch_dialog().is_some());
    assert!(s.switch_dialog_mut().is_some());

    s.hide_switch_dialog();
    assert!(!s.is_switch_dialog_visible());
    assert!(s.switch_dialog().is_none());
}

#[test]
fn test_reset_for_switch_clears_diff_overlay() {
    let mut state = make_state();
    state.show_diff_overlay();
    state.set_expanded_diff("src/ui/mod.rs".to_string(), FileDiff::default());
    state.scroll_diff_down();
    assert!(state.is_diff_overlay_visible());
    assert!(state.expanded_diff().is_some());
    assert_eq!(state.diff_scroll(), 1);

    let before_token = state.pending_diff_token();
    state.reset_for_switch(Vec::new(), String::new(), String::new(), String::new());

    assert!(!state.is_diff_overlay_visible());
    assert!(state.expanded_diff().is_none());
    assert_eq!(state.diff_scroll(), 0);
    assert_ne!(
        state.pending_diff_token(),
        before_token,
        "token should advance"
    );
}

#[test]
fn test_select_first_and_last() {
    let files = vec![
        make_entry("a.rs", 1, 0),
        make_entry("b.rs", 2, 1),
        make_entry("c.rs", 0, 3),
    ];
    let mut state = AppState::new(files, 600, "main".to_string());
    state.select_last();
    assert_eq!(state.selected_index(), 2);
    state.select_first();
    assert_eq!(state.selected_index(), 0);
}

#[test]
fn test_select_page_clamps_both_ends() {
    let files = vec![
        make_entry("a.rs", 1, 0),
        make_entry("b.rs", 2, 1),
        make_entry("c.rs", 0, 3),
    ];
    let mut state = AppState::new(files, 600, "main".to_string());
    state.select_page(10);
    assert_eq!(state.selected_index(), 2);
    state.select_page(-10);
    assert_eq!(state.selected_index(), 0);
    state.select_page(1);
    assert_eq!(state.selected_index(), 1);
}

#[test]
fn test_select_page_empty_list_is_noop() {
    let mut state = make_state();
    state.select_page(5);
    assert_eq!(state.selected_index(), 0);
    state.select_last();
    assert_eq!(state.selected_index(), 0);
}

#[test]
fn test_list_viewport_height_roundtrip() {
    let mut state = make_state();
    assert_eq!(state.list_viewport_height(), 0);
    state.set_list_viewport_height(20);
    assert_eq!(state.list_viewport_height(), 20);
}

#[test]
fn test_diff_total_lines_counts_header_plus_lines() {
    let mut state = make_state();
    state.set_expanded_diff("a.rs".to_string(), diff_with_lines(9));
    assert_eq!(state.diff_total_lines(), 10);
}

#[test]
fn test_scroll_diff_to_bottom_clamps_to_max() {
    let mut state = make_state();
    state.set_expanded_diff("a.rs".to_string(), diff_with_lines(19)); // 20 total
    state.set_diff_viewport_height(5);
    state.scroll_diff_to_bottom();
    assert_eq!(state.diff_scroll(), 15);
    state.scroll_diff_to_top();
    assert_eq!(state.diff_scroll(), 0);
}

#[test]
fn test_scroll_diff_page_clamps() {
    let mut state = make_state();
    state.set_expanded_diff("a.rs".to_string(), diff_with_lines(19)); // 20 total
    state.set_diff_viewport_height(5); // max scroll = 15
    state.scroll_diff_page(100);
    assert_eq!(state.diff_scroll(), 15);
    state.scroll_diff_page(-3);
    assert_eq!(state.diff_scroll(), 12);
    state.scroll_diff_page(-100);
    assert_eq!(state.diff_scroll(), 0);
}

#[test]
fn test_scroll_diff_to_bottom_when_content_fits_stays_zero() {
    let mut state = make_state();
    state.set_expanded_diff("a.rs".to_string(), diff_with_lines(2)); // 3 total
    state.set_diff_viewport_height(50);
    state.scroll_diff_to_bottom();
    assert_eq!(state.diff_scroll(), 0);
}
