use perch::commands::FallbackAction;
use perch::config::AppConfig;
use perch::controller::{
    interpret_main_key, poll_timeout, switch_ack_step, tick_due, AckStep, Controller, Effect,
    GitHubEvent, MainAction, SendOutcome, EVENT_POLL_MAX_NANOS, TICK_RATE_NANOS,
};
use perch::dialog::{SwitchDialog, WorktreeEntry};
use perch::git::{ChangeGroup, DiffHunk, DiffLine, DiffLineKind, FileDiff, FileEntry, FileStatus};
use perch::keys::{Key, KeyCode, CONTROL};
use perch::state::{AppState, ChecksInfo, MergeableStatus, PrDisplayInfo, PrStatus, ViewMode};
use perch::worker::{Response, StatusBundle};

const NONE: u8 = 0;

fn key(code: KeyCode) -> Key {
    Key::new(code, NONE)
}

fn ctrl(c: char) -> Key {
    Key::new(KeyCode::Char(c), CONTROL)
}

fn make_entry(path: &str) -> FileEntry {
    FileEntry {
        path: path.to_string(),
        status: FileStatus::Modified,
        insertions: 1,
        deletions: 1,
        group: ChangeGroup::Changes,
    }
}

fn make_app(files: Vec<FileEntry>) -> Controller {
    let flash_duration = AppConfig::default().display.flash_duration_ms;
    Controller::new(AppState::new(files, flash_duration, "main".to_string()))
}

fn expect_diff_request(effect: Effect) -> (String, u64) {
    match effect {
        Effect::RequestDiff { path, token } => (path, token),
        other => panic!("expected diff request, got {other:?}"),
    }
}

fn is_quit(effect: &Effect) -> bool {
    matches!(effect, Effect::Quit)
}

fn context_diff(n: usize) -> FileDiff {
    let lines = (0..n)
        .map(|i| DiffLine {
            kind: DiffLineKind::Context,
            content: format!("line {i}"),
        })
        .collect();
    FileDiff {
        hunks: vec![DiffHunk {
            header: "@@ -1,1 +1,1 @@".to_string(),
            lines,
        }],
    }
}

fn make_dialog() -> SwitchDialog {
    let entries = vec![
        WorktreeEntry {
            path: "/a".to_string(),
            head: "0000000000000000000000000000000000000000".to_string(),
            branch: Some("main".to_string()),
            bare: false,
            detached: false,
            locked: None,
            prunable: None,
        },
        WorktreeEntry {
            path: "/b".to_string(),
            head: "0000000000000000000000000000000000000000".to_string(),
            branch: Some("feat".to_string()),
            bare: false,
            detached: false,
            locked: None,
            prunable: None,
        },
    ];
    SwitchDialog::new(entries, "/a", "/")
}

fn sample_pr(number: u64) -> PrDisplayInfo {
    PrDisplayInfo {
        number,
        title: "Add feature".to_string(),
        state: PrStatus::Open,
        reviews: vec![],
        checks: ChecksInfo {
            total: 0,
            passed: 0,
            failed: 0,
            pending: 0,
            skipped: 0,
            checks: vec![],
        },
        comment_count: 0,
        mergeable: MergeableStatus::Unknown,
        labels: vec![],
        assignees: vec![],
        url: "https://example.com/pr/1".to_string(),
    }
}

#[test]
fn test_gg_chord_jumps_to_top() {
    let mut app = make_app(vec![make_entry("a.rs"), make_entry("b.rs"), make_entry("c.rs")]);
    app.handle_key_event(key(KeyCode::Char('G')));
    assert_eq!(app.state.selected_index(), 2, "G jumps to last row");
    app.handle_key_event(key(KeyCode::Char('g')));
    app.handle_key_event(key(KeyCode::Char('g')));
    assert_eq!(app.state.selected_index(), 0, "gg returns to top");
}

#[test]
fn test_single_g_then_other_key_cancels_chord() {
    let mut app = make_app(vec![make_entry("a.rs"), make_entry("b.rs"), make_entry("c.rs")]);
    app.handle_key_event(key(KeyCode::Char('g')));
    assert_eq!(app.state.selected_index(), 0, "single g should not move selection");
    app.handle_key_event(key(KeyCode::Char('j')));
    assert_eq!(app.state.selected_index(), 1, "j after lone g moves down");
}

#[test]
fn test_diff_overlay_gg_and_g_jump() {
    let mut app = make_app(vec![make_entry("a.rs")]);
    app.state.set_expanded_diff("a.rs".to_string(), context_diff(19));
    app.state.show_diff_overlay();
    app.state.set_diff_viewport_height(5);

    app.handle_key_event(key(KeyCode::Char('G')));
    assert_eq!(app.state.diff_scroll(), 15, "G scrolls diff to bottom");

    app.handle_key_event(key(KeyCode::Char('g')));
    app.handle_key_event(key(KeyCode::Char('g')));
    assert_eq!(app.state.diff_scroll(), 0, "gg scrolls diff to top");
}

#[test]
fn test_m_key_cycles_view_mode() {
    let mut app = make_app(vec![make_entry("src/ui/mod.rs")]);
    let effect = app.handle_key_event(key(KeyCode::Char('m')));
    assert!(!is_quit(&effect));
    assert_eq!(app.state.view_mode(), ViewMode::Tree);
}

#[test]
fn activate_on_group_header_toggles_collapse() {
    let files = vec![FileEntry {
        path: "a.rs".to_string(),
        status: FileStatus::Modified,
        insertions: 1,
        deletions: 0,
        group: ChangeGroup::Changes,
    }];
    let mut app = make_app(files);
    app.state.set_view_mode(ViewMode::Normal);
    app.handle_activate();
    assert_eq!(app.state.visible_rows().len(), 1);
    assert_eq!(app.state.visible_rows()[0].header_collapsed(), Some(true));
}

#[test]
fn test_interpret_main_key_maps_expected_actions() {
    assert_eq!(interpret_main_key(NONE, KeyCode::Char('q')), MainAction::Quit);
    assert_eq!(interpret_main_key(CONTROL, KeyCode::Char('c')), MainAction::Quit);
    assert_eq!(interpret_main_key(NONE, KeyCode::Down), MainAction::MoveDown);
    assert_eq!(interpret_main_key(NONE, KeyCode::Char('k')), MainAction::MoveUp);
    assert_eq!(interpret_main_key(NONE, KeyCode::Enter), MainAction::Primary);
    assert_eq!(interpret_main_key(NONE, KeyCode::Char('d')), MainAction::Primary);
    assert_eq!(interpret_main_key(NONE, KeyCode::Char('m')), MainAction::CycleMode);
    assert_eq!(interpret_main_key(NONE, KeyCode::Char('?')), MainAction::Help);
    assert_eq!(interpret_main_key(NONE, KeyCode::Esc), MainAction::Nothing);
    assert_eq!(interpret_main_key(NONE, KeyCode::Char('s')), MainAction::OpenSwitcher);
}

#[test]
fn test_enter_on_tree_directory_toggles_directory() {
    let mut app = make_app(vec![make_entry("src/ui/mod.rs"), make_entry("src/ui/header.rs")]);
    app.state.cycle_view_mode();
    app.state.select_previous();
    app.state.select_previous();

    assert_eq!(app.state.visible_rows().len(), 3);
    assert!(app.state.selected_path().is_none());

    let effect = app.handle_key_event(key(KeyCode::Enter));

    assert!(!is_quit(&effect));
    assert_eq!(app.state.visible_rows().len(), 1);
    assert!(!app.state.expanded_dirs().contains("src/ui"));
}

#[test]
fn test_d_on_tree_directory_toggles_directory() {
    let mut app = make_app(vec![make_entry("src/ui/mod.rs"), make_entry("src/ui/header.rs")]);
    app.state.cycle_view_mode();
    app.state.select_previous();
    app.state.select_previous();

    assert_eq!(app.state.visible_rows().len(), 3);
    assert!(app.state.selected_path().is_none());

    let effect = app.handle_key_event(key(KeyCode::Char('d')));

    assert!(!is_quit(&effect));
    assert_eq!(app.state.visible_rows().len(), 1);
    assert!(!app.state.expanded_dirs().contains("src/ui"));
}

#[test]
fn test_primary_key_on_tree_file_requests_diff() {
    let mut app = make_app(vec![make_entry("src/ui/header.rs"), make_entry("src/ui/mod.rs")]);
    app.state.cycle_view_mode();

    let effect = app.handle_key_event(key(KeyCode::Char('d')));

    assert!(!is_quit(&effect));
    let (path, token) = expect_diff_request(effect);
    assert_eq!(path, "src/ui/header.rs");
    assert_eq!(token, app.state.pending_diff_token());
}

#[test]
fn test_expand_ignores_tree_directory_selection() {
    let mut app = make_app(vec![make_entry("src/ui/header.rs"), make_entry("src/ui/mod.rs")]);
    app.state.cycle_view_mode();
    app.state.select_previous();
    let token_before = app.state.pending_diff_token();

    let effect = app.handle_expand();

    assert_eq!(app.state.pending_diff_token(), token_before);
    assert!(matches!(effect, Effect::Done));
}

#[test]
fn test_diff_response_stays_bound_to_requested_file_after_selection_moves() {
    let mut app = make_app(vec![
        FileEntry {
            path: "src/ui/header.rs".to_string(),
            status: FileStatus::Modified,
            insertions: 7,
            deletions: 3,
            group: ChangeGroup::Changes,
        },
        FileEntry {
            path: "src/ui/mod.rs".to_string(),
            status: FileStatus::Modified,
            insertions: 2,
            deletions: 1,
            group: ChangeGroup::Changes,
        },
    ]);

    let (requested_path, token) = expect_diff_request(app.handle_expand());
    assert_eq!(requested_path, "src/ui/header.rs");

    app.state.select_next();
    assert_eq!(app.state.selected_path().as_deref(), Some("src/ui/mod.rs"));

    app.handle_worker_response(Response::Diff {
        path: requested_path.clone(),
        token,
        diff: FileDiff::default(),
    });

    assert!(app.state.is_diff_overlay_visible());
    assert_eq!(app.state.expanded_diff_path(), Some(requested_path.as_str()));
    assert_eq!(app.state.expanded_diff_stats(), Some((7, 3)));
}

#[test]
fn stale_diff_response_is_dropped() {
    let mut app = make_app(vec![make_entry("a.rs"), make_entry("b.rs")]);
    let (path, token) = expect_diff_request(app.handle_expand());
    app.state.select_next();
    let (_, newer) = expect_diff_request(app.handle_expand());
    assert_eq!(newer, token + 1);

    app.handle_worker_response(Response::Diff { path, token, diff: FileDiff::default() });

    assert!(!app.state.is_diff_overlay_visible());
    assert_eq!(app.state.expanded_diff_path(), None);
}

#[test]
fn worker_error_clears_computing() {
    let mut app = make_app(vec![]);
    app.state.set_computing(true);
    let renamed = app.handle_worker_response(Response::Error("boom".to_string()));
    assert!(!renamed);
    assert!(!app.state.is_computing());
}

#[test]
fn test_help_overlay_still_intercepts_main_keys() {
    let mut app = make_app(vec![make_entry("src/ui/mod.rs")]);
    app.state.show_help();

    let effect = app.handle_key_event(key(KeyCode::Char('m')));

    assert!(!is_quit(&effect));
    assert!(app.state.is_help_visible());
    assert_eq!(app.state.view_mode(), ViewMode::Condensed);
}

#[test]
fn ctrl_c_quits_from_help() {
    let mut app = make_app(vec![make_entry("a.rs")]);
    app.state.show_help();
    assert!(is_quit(&app.handle_key_event(ctrl('c'))));
    assert!(app.state.is_help_visible());
}

#[test]
fn question_mark_closes_help() {
    let mut app = make_app(vec![make_entry("a.rs")]);
    app.state.show_help();
    app.handle_key_event(key(KeyCode::Char('?')));
    assert!(!app.state.is_help_visible());
}

#[test]
fn test_s_while_help_visible_does_not_open_switch_dialog() {
    let mut app = make_app(vec![make_entry("src/ui/mod.rs")]);
    app.state.show_help();

    let effect = app.handle_key_event(key(KeyCode::Char('s')));

    assert!(!is_quit(&effect));
    assert!(matches!(effect, Effect::Done));
    assert!(app.state.is_help_visible());
    assert!(!app.state.is_switch_dialog_visible());
}

#[test]
fn s_in_file_list_asks_for_the_switcher() {
    let mut app = make_app(vec![make_entry("a.rs")]);
    assert!(matches!(app.handle_key_event(key(KeyCode::Char('s'))), Effect::OpenSwitcher));
    assert!(matches!(app.handle_key_event(key(KeyCode::Char('r'))), Effect::Refresh));
    assert!(matches!(app.handle_key_event(key(KeyCode::Char('e'))), Effect::Edit));
    assert!(matches!(app.handle_key_event(key(KeyCode::Char('p'))), Effect::OpenPr));
    assert!(is_quit(&app.handle_key_event(key(KeyCode::Char('q')))));
}

#[test]
fn test_esc_in_switch_dialog_hides_it() {
    let mut app = make_app(vec![make_entry("src/ui/mod.rs")]);
    app.state.show_switch_dialog(make_dialog());
    assert!(app.state.is_switch_dialog_visible());

    let effect = app.handle_key_event(key(KeyCode::Esc));

    assert!(!is_quit(&effect));
    assert!(!app.state.is_switch_dialog_visible());
}

#[test]
fn test_unknown_key_in_switch_dialog_keeps_it_open() {
    let mut app = make_app(vec![make_entry("src/ui/mod.rs")]);
    app.state.show_switch_dialog(make_dialog());

    let effect = app.handle_key_event(key(KeyCode::F(5)));

    assert!(!is_quit(&effect));
    assert!(app.state.is_switch_dialog_visible());
}

#[test]
fn enter_in_switch_dialog_switches_to_highlighted_worktree() {
    let mut app = make_app(vec![make_entry("a.rs")]);
    app.state.show_switch_dialog(make_dialog());
    app.handle_key_event(key(KeyCode::Char('j')));
    let effect = app.handle_key_event(key(KeyCode::Enter));
    match effect {
        Effect::SwitchTo(path) => assert_eq!(path, "/b"),
        other => panic!("expected a switch, got {other:?}"),
    }
    assert!(!app.state.is_switch_dialog_visible());
}

#[test]
fn handle_branch_change_sets_flash_and_updates_last_seen() {
    let mut app = make_app(Vec::new());
    app.last_seen_branch = Some("feat-1".to_string());
    app.state.set_pr_error("stale error from feat-1".into());
    assert!(app.state.pr_state().error.is_some(), "test setup: pr error should be set");

    app.handle_branch_change("feat-2");

    assert_eq!(app.last_seen_branch.as_deref(), Some("feat-2"));
    assert!(app.state.pr_state().error.is_none(), "expected pr error cleared after branch rename");
    assert!(app.state.pr_state().info.is_none(), "expected pr info cleared after branch rename");
    assert!(!app.state.pr_state().loading, "expected pr loading cleared after branch rename");
    let flash = app.state.flash_message();
    assert!(
        flash.is_some_and(|m| m.contains("feat-1") && m.contains("feat-2")),
        "expected rename flash, got {flash:?}"
    );
    assert_eq!(flash, Some("branch renamed: feat-1 \u{2192} feat-2"));
}

#[test]
fn apply_status_triggers_branch_change_on_rename() {
    let mut app = make_app(Vec::new());

    let bundle1 = StatusBundle {
        branch: "feat-1".to_string(),
        ..Default::default()
    };
    assert!(!app.apply_status(bundle1));
    assert_eq!(app.last_seen_branch.as_deref(), Some("feat-1"));
    assert!(app.state.flash_message().is_none(), "first bundle should not flash a rename");

    let bundle2 = StatusBundle {
        branch: "feat-2".to_string(),
        ..Default::default()
    };
    assert!(app.apply_status(bundle2));
    assert_eq!(app.last_seen_branch.as_deref(), Some("feat-2"));
    let flash = app.state.flash_message();
    assert!(
        flash.is_some_and(|m| m.contains("feat-1") && m.contains("feat-2")),
        "expected rename flash on second apply, got {flash:?}"
    );

    app.state.clear_flash_message();
    let bundle3 = StatusBundle {
        branch: "feat-2".to_string(),
        ..Default::default()
    };
    assert!(!app.apply_status(bundle3));
    assert!(app.state.flash_message().is_none(), "same-branch bundle should not refire rename flash");
}

#[test]
fn apply_status_copies_branch_metadata() {
    let mut app = make_app(Vec::new());
    app.state.set_computing(true);
    let bundle = StatusBundle {
        files: vec![make_entry("a.rs")],
        base_branch: "main".to_string(),
        branch: "feat".to_string(),
        head: Some(("abc123".to_string(), "subject".to_string())),
        stash_count: 2,
        ahead_behind: Some((3, 1)),
        repo_state: Some("rebase".to_string()),
        repo_name: "perch".to_string(),
        worktree_name: "wt".to_string(),
        ..Default::default()
    };
    app.handle_worker_response(Response::Status(Box::new(bundle)));
    assert_eq!(app.state.files().len(), 1);
    assert_eq!(app.state.branch(), "feat");
    assert_eq!(app.state.base_branch(), "main");
    assert_eq!(app.state.head_sha(), "abc123");
    assert_eq!(app.state.head_message(), "subject");
    assert_eq!(app.state.stash_count(), 2);
    assert_eq!(app.state.ahead_behind(), Some((3, 1)));
    assert_eq!(app.state.repo_state(), Some("rebase"));
    assert_eq!(app.state.repo_name(), "perch");
    assert_eq!(app.state.worktree_name(), "wt");
    assert!(!app.state.is_computing());
}

#[test]
fn test_interpret_main_key_maps_page_and_jump_actions() {
    assert_eq!(interpret_main_key(NONE, KeyCode::Char('G')), MainAction::Bottom);
    assert_eq!(interpret_main_key(CONTROL, KeyCode::Char('d')), MainAction::HalfPageDown);
    assert_eq!(interpret_main_key(CONTROL, KeyCode::Char('u')), MainAction::HalfPageUp);
    assert_eq!(interpret_main_key(CONTROL, KeyCode::Char('f')), MainAction::PageDown);
    assert_eq!(interpret_main_key(CONTROL, KeyCode::Char('b')), MainAction::PageUp);
}

#[test]
fn test_plain_d_still_opens_diff() {
    assert_eq!(interpret_main_key(NONE, KeyCode::Char('d')), MainAction::Primary);
}

#[test]
fn test_ctrl_d_and_ctrl_f_page_file_list() {
    let files: Vec<_> = (0..20).map(|i| make_entry(&format!("f{i}.rs"))).collect();
    let mut app = make_app(files);
    app.state.set_list_viewport_height(10);

    app.handle_key_event(ctrl('d'));
    assert_eq!(app.state.selected_index(), 5, "Ctrl-d moves half a page down");

    app.handle_key_event(ctrl('f'));
    assert_eq!(app.state.selected_index(), 15, "Ctrl-f moves a full page down");

    app.handle_key_event(ctrl('u'));
    assert_eq!(app.state.selected_index(), 10, "Ctrl-u moves half a page up");
}

#[test]
fn test_ctrl_d_and_ctrl_f_page_diff_overlay() {
    let mut app = make_app(vec![make_entry("a.rs")]);
    app.state.set_expanded_diff("a.rs".to_string(), context_diff(29));
    app.state.show_diff_overlay();
    app.state.set_diff_viewport_height(10);

    app.handle_key_event(ctrl('d'));
    assert_eq!(app.state.diff_scroll(), 5, "Ctrl-d scrolls diff half a page");

    app.handle_key_event(ctrl('f'));
    assert_eq!(app.state.diff_scroll(), 15, "Ctrl-f scrolls diff a full page");

    app.handle_key_event(ctrl('b'));
    assert_eq!(app.state.diff_scroll(), 5, "Ctrl-b scrolls diff a full page up");
}

#[test]
fn esc_closes_diff_overlay_and_resets_scroll() {
    let mut app = make_app(vec![make_entry("a.rs")]);
    app.state.set_expanded_diff("a.rs".to_string(), context_diff(29));
    app.state.show_diff_overlay();
    app.state.set_diff_viewport_height(10);
    app.handle_key_event(key(KeyCode::Char('j')));
    assert_eq!(app.state.diff_scroll(), 1);
    app.handle_key_event(key(KeyCode::Esc));
    assert!(!app.state.is_diff_overlay_visible());
    assert_eq!(app.state.diff_scroll(), 0);
}

#[test]
fn fallback_warns_once_when_main_is_missing() {
    let mut app = make_app(vec![]);
    assert!(!app.fallback_to_main(FallbackAction::MainMissing));
    assert_eq!(app.state.flash_message(), Some("Main worktree is missing \u{2014} holding state"));
    app.state.clear_flash_message();
    assert!(!app.fallback_to_main(FallbackAction::MainMissing));
    assert_eq!(app.state.flash_message(), None);
    assert!(!app.fallback_to_main(FallbackAction::Keep));
    assert!(!app.main_missing_warned);
    assert!(!app.fallback_to_main(FallbackAction::MainMissing));
    assert!(app.state.flash_message().is_some());
}

#[test]
fn fallback_switches_when_main_exists() {
    let mut app = make_app(vec![]);
    assert!(app.fallback_to_main(FallbackAction::SwitchToMain));
    app.switched_to_main();
    assert_eq!(app.state.flash_message(), Some("Worktree removed \u{2014} switched to main"));
    assert!(!app.main_missing_warned);
}

#[test]
fn switched_worktree_resets_state() {
    let mut app = make_app(vec![make_entry("a.rs")]);
    app.last_seen_branch = Some("feat".to_string());
    app.switched_worktree();
    assert!(app.last_seen_branch.is_none());
    assert!(app.state.files().is_empty());
    assert_eq!(app.state.branch(), "");
    assert!(app.state.is_computing());
}

#[test]
fn start_applies_default_view_and_marks_computing() {
    let state = AppState::new(vec![], 600, "main".to_string());
    let mut config = AppConfig::default();
    config.display.default_view = ViewMode::Tree;
    let app = Controller::start(state, &config);
    assert_eq!(app.state.view_mode(), ViewMode::Tree);
    assert!(app.state.is_computing());
    assert!(!app.pending_g);
}

#[test]
fn fs_change_outcomes_set_computing() {
    let mut app = make_app(vec![]);
    app.handle_fs_change(SendOutcome::Full);
    assert!(!app.state.is_computing());
    app.handle_fs_change(SendOutcome::Sent);
    assert!(app.state.is_computing());
    app.handle_fs_change(SendOutcome::Full);
    assert!(app.state.is_computing());
    app.handle_fs_change(SendOutcome::Disconnected);
    assert!(!app.state.is_computing());
}

#[test]
fn github_events_update_pr_state() {
    let mut app = make_app(vec![]);
    app.handle_github_event(GitHubEvent::PrUpdate(sample_pr(7)));
    assert_eq!(app.state.pr_state().info.as_ref().map(|i| i.number), Some(7));
    app.handle_github_event(GitHubEvent::Error("rate limited".to_string()));
    assert_eq!(app.state.pr_state().error.as_deref(), Some("rate limited"));
    assert_eq!(app.state.pr_state().info.as_ref().map(|i| i.number), Some(7));
    app.handle_github_event(GitHubEvent::NoPr);
    assert!(app.state.pr_state().error.is_some(), "an error sticks through NoPr");
    app.handle_github_event(GitHubEvent::PrUpdate(sample_pr(8)));
    assert!(app.state.pr_state().error.is_none());
    app.handle_github_event(GitHubEvent::NoPr);
    assert!(app.state.pr_state().info.is_none());
}

#[test]
fn poll_timeout_is_capped_and_saturates() {
    assert_eq!(poll_timeout(TICK_RATE_NANOS, 0), EVENT_POLL_MAX_NANOS);
    assert_eq!(poll_timeout(TICK_RATE_NANOS, 900_000_000), 100_000_000);
    assert_eq!(poll_timeout(TICK_RATE_NANOS, 2_000_000_000), 0);
    assert!(!tick_due(TICK_RATE_NANOS, 999_999_999));
    assert!(tick_due(TICK_RATE_NANOS, 1_000_000_000));
}

#[test]
fn switch_ack_steps() {
    assert_eq!(switch_ack_step(&Response::SwitchAck(true)), AckStep::Acked);
    assert_eq!(switch_ack_step(&Response::SwitchAck(false)), AckStep::Refused);
    assert_eq!(switch_ack_step(&Response::Error("x".to_string())), AckStep::Wait);
}

fn two_entries() -> Vec<WorktreeEntry> {
    let d = make_dialog();
    d.entries
}

#[test]
fn open_switch_dialog_closes_diff_overlay_and_highlights_current() {
    let mut app = make_app(vec![make_entry("a.rs")]);
    app.state.set_expanded_diff("a.rs".to_string(), context_diff(3));
    app.state.show_diff_overlay();
    app.open_switch_dialog(Ok(two_entries()), "/b", "/a");
    assert!(!app.state.is_diff_overlay_visible());
    assert!(app.state.is_switch_dialog_visible());
    let dialog = app.state.switch_dialog().expect("dialog open");
    assert_eq!(dialog.selected, 1);
    assert_eq!(dialog.current, "/b");
}

#[test]
fn open_switch_dialog_reports_listing_failure() {
    let mut app = make_app(vec![]);
    app.open_switch_dialog(Err("not a repository".to_string()), "/a", "/a");
    assert!(!app.state.is_switch_dialog_visible());
    assert_eq!(app.state.flash_message(), Some("worktree list failed: not a repository"));
}

#[test]
fn enter_on_bare_worktree_is_refused_with_a_message() {
    let mut app = make_app(vec![make_entry("a.rs")]);
    let mut entries = two_entries();
    entries[1].bare = true;
    app.state.show_switch_dialog(SwitchDialog::new(entries, "/a", "/a"));
    app.handle_key_event(key(KeyCode::Down));
    let effect = app.handle_key_event(key(KeyCode::Enter));
    assert!(matches!(effect, Effect::Done));
    assert!(app.state.is_switch_dialog_visible());
    assert_eq!(app.state.flash_message(), Some("cannot switch to a bare repository"));
    assert_eq!(app.state.switch_dialog().map(|d| d.selected), Some(1));
}

#[test]
fn enter_on_prunable_worktree_is_refused_with_a_message() {
    let mut app = make_app(vec![make_entry("a.rs")]);
    let mut entries = two_entries();
    entries[1].prunable = Some("gitdir file points to non-existent location".to_string());
    app.state.show_switch_dialog(SwitchDialog::new(entries, "/a", "/a"));
    app.handle_key_event(key(KeyCode::Char('j')));
    app.handle_key_event(key(KeyCode::Enter));
    assert_eq!(app.state.flash_message(), Some("worktree is missing on disk"));
}

#[test]
fn failed_initial_recompute_clears_computing() {
    let state = AppState::new(vec![], 600, "main".to_string());
    let mut app = Controller::start(state, &AppConfig::default());
    app.initial_recompute(SendOutcome::Sent);
    assert!(app.state.is_computing());
    app.initial_recompute(SendOutcome::Full);
    assert!(!app.state.is_computing());
}
