//! The decisions of the event loop: what a key press, a worker response or
//! a missing worktree does to the state, and which outside work it asks
//! the caller to perform.
use vstd::prelude::*;
use crate::commands::FallbackAction;
use crate::git::{FileEntry, FileView};
use crate::dialog::{DialogOutcome, SwitchDialog, WorktreeEntry};
use crate::keys::{Key, KeyCode, CONTROL};
use crate::config::AppConfig;
use crate::state::{AppState, PrDisplayInfo, StateView};
use crate::worker::{Response, StatusBundle};

verus! {

/// What a key does in the file list.
#[derive(Debug, Clone, Copy, PartialEq, Eq, Structural)]
pub enum MainAction {
    Quit,
    MoveDown,
    MoveUp,
    Primary,
    Refresh,
    Edit,
    OpenPr,
    Help,
    CycleMode,
    OpenSwitcher,
    Bottom,
    PageUp,
    PageDown,
    HalfPageUp,
    HalfPageDown,
    Nothing,
}

/// The key map of the file list.
pub open spec fn main_action(modifiers: u8, code: KeyCode) -> MainAction {
    let ctrl = modifiers == CONTROL;
    match code {
        KeyCode::Char('q') => MainAction::Quit,
        KeyCode::Char('c') if ctrl => MainAction::Quit,
        KeyCode::Char('d') if ctrl => MainAction::HalfPageDown,
        KeyCode::Char('u') if ctrl => MainAction::HalfPageUp,
        KeyCode::Char('f') if ctrl => MainAction::PageDown,
        KeyCode::Char('b') if ctrl => MainAction::PageUp,
        KeyCode::Char('G') => MainAction::Bottom,
        KeyCode::Char('j') | KeyCode::Down => MainAction::MoveDown,
        KeyCode::Char('k') | KeyCode::Up => MainAction::MoveUp,
        KeyCode::Enter | KeyCode::Char('l') | KeyCode::Right | KeyCode::Char(' ') | KeyCode::Char('d') => MainAction::Primary,
        KeyCode::Char('m') => MainAction::CycleMode,
        KeyCode::Char('r') => MainAction::Refresh,
        KeyCode::Char('e') => MainAction::Edit,
        KeyCode::Char('p') => MainAction::OpenPr,
        KeyCode::Char('?') => MainAction::Help,
        KeyCode::Char('s') => MainAction::OpenSwitcher,
        _ => MainAction::Nothing,
    }
}

/// Maps a key of the file list to its action.
pub fn interpret_main_key(modifiers: u8, code: KeyCode) -> (r: MainAction)
    ensures
        r == main_action(modifiers, code),
{
    let ctrl = modifiers == CONTROL;
    match code {
        KeyCode::Char('q') => MainAction::Quit,
        KeyCode::Char('c') if ctrl => MainAction::Quit,
        KeyCode::Char('d') if ctrl => MainAction::HalfPageDown,
        KeyCode::Char('u') if ctrl => MainAction::HalfPageUp,
        KeyCode::Char('f') if ctrl => MainAction::PageDown,
        KeyCode::Char('b') if ctrl => MainAction::PageUp,
        KeyCode::Char('G') => MainAction::Bottom,
        KeyCode::Char('j') | KeyCode::Down => MainAction::MoveDown,
        KeyCode::Char('k') | KeyCode::Up => MainAction::MoveUp,
        KeyCode::Enter | KeyCode::Char('l') | KeyCode::Right | KeyCode::Char(' ') | KeyCode::Char('d') => MainAction::Primary,
        KeyCode::Char('m') => MainAction::CycleMode,
        KeyCode::Char('r') => MainAction::Refresh,
        KeyCode::Char('e') => MainAction::Edit,
        KeyCode::Char('p') => MainAction::OpenPr,
        KeyCode::Char('?') => MainAction::Help,
        KeyCode::Char('s') => MainAction::OpenSwitcher,
        _ => MainAction::Nothing,
    }
}

/// Outside work a key press asks the caller to perform.
#[derive(Debug, Clone)]
pub enum Effect {
    /// Nothing more to do.
    Done,
    /// Quit the application.
    Quit,
    /// Ask the worker for a fresh status.
    Refresh,
    /// Open the selected file in the editor.
    Edit,
    /// Open the current PR in the browser.
    OpenPr,
    /// List the worktrees and open the switch dialog.
    OpenSwitcher,
    /// Ask the worker for the diff of `path`, stamped with `token`.
    RequestDiff { path: String, token: u64 },
    /// Switch to the worktree at this path.
    SwitchTo(String),
}

/// The event loop's own state next to the view model.
pub struct Controller {
    pub state: AppState,
    /// True after a lone `g`, awaiting a second `g` to form `gg`.
    pub pending_g: bool,
    /// The branch of the last status applied; `None` until the first.
    pub last_seen_branch: Option<String>,
    /// Whether the user has been told that the main worktree is missing.
    pub main_missing_warned: bool,
}

/// Whether `key` is a plain `g`.
pub open spec fn is_g(key: Key) -> bool {
    key.code == KeyCode::Char('g') && key.modifiers & CONTROL == 0
}

/// Whether `key` is exactly Ctrl plus the character `c`.
pub open spec fn is_ctrl_char(key: Key, c: char) -> bool {
    key.modifiers == CONTROL && key.code == KeyCode::Char(c)
}

/// `n` halved, at least one, at most `isize::MAX`.
pub open spec fn half_step(n: usize) -> int {
    if n / 2 >= 1 { if n / 2 > isize::MAX { isize::MAX as int } else { (n / 2) as int } } else { 1 }
}

/// `n`, at least one, at most `isize::MAX`.
pub open spec fn full_step(n: usize) -> int {
    if n >= 1 { if n > isize::MAX { isize::MAX as int } else { n as int } } else { 1 }
}

/// The state after a key in the diff overlay that is not part of a `gg`
/// chord.
pub open spec fn diff_key_post(s: StateView, key: Key) -> StateView {
    let h = s.diff_viewport_height;
    if is_ctrl_char(key, 'd') {
        diff_page_post(s, half_step(h))
    } else if is_ctrl_char(key, 'u') {
        diff_page_post(s, -half_step(h))
    } else if is_ctrl_char(key, 'f') {
        diff_page_post(s, full_step(h))
    } else if is_ctrl_char(key, 'b') {
        diff_page_post(s, -full_step(h))
    } else {
        match key.code {
            KeyCode::Char('G') => StateView { diff_scroll: s.diff_max_scroll(), ..s },
            KeyCode::Esc | KeyCode::Char('q') | KeyCode::Char('h') | KeyCode::Left | KeyCode::Char(' ') | KeyCode::Char('d') =>
                StateView { diff_overlay_visible: false, diff_scroll: 0, ..s },
            KeyCode::Char('j') | KeyCode::Down => StateView { diff_scroll: crate::state::cap_usize(s.diff_scroll + 1), ..s },
            KeyCode::Char('k') | KeyCode::Up => StateView { diff_scroll: crate::state::cap_usize(s.diff_scroll - 1), ..s },
            _ => s,
        }
    }
}

/// The state after scrolling the diff by `delta` lines, clamped.
pub open spec fn diff_page_post(s: StateView, delta: int) -> StateView {
    let t = s.diff_scroll + delta;
    let t = if t < 0 { 0 } else { t };
    StateView { diff_scroll: if t < s.diff_max_scroll() { t as usize } else { s.diff_max_scroll() }, ..s }
}

/// The state after a list action that needs no outside work.
pub open spec fn list_action_post(s: StateView, a: MainAction) -> StateView {
    let h = s.list_viewport_height;
    match a {
        MainAction::MoveDown => crate::state::next_post(s),
        MainAction::MoveUp => crate::state::previous_post(s),
        MainAction::Help => StateView { help_visible: true, diff_overlay_visible: false, diff_scroll: 0, ..s },
        MainAction::CycleMode => crate::state::cycle_post(s),
        MainAction::Bottom => crate::state::last_post(s),
        MainAction::PageDown => crate::state::page_post(s, full_step(h)),
        MainAction::PageUp => crate::state::page_post(s, -full_step(h)),
        MainAction::HalfPageDown => crate::state::page_post(s, half_step(h)),
        MainAction::HalfPageUp => crate::state::page_post(s, -half_step(h)),
        _ => s,
    }
}

/// Activating the selected row: a Tree directory opens or closes, a Normal
/// group heading collapses or expands, and a file asks for its diff with a
/// fresh token. Returns the state and the diff request, if any.
pub open spec fn activate_post(s: StateView) -> (StateView, Option<(Seq<char>, u64)>) {
    let d = crate::state::toggle_directory_post(s);
    if d.0 {
        (d.1, None)
    } else {
        let g = crate::state::toggle_group_post(s);
        if g.0 {
            (g.1, None)
        } else {
            match s.snapshot().path {
                Some(p) => {
                    let t = s.pending_diff_token.wrapping_add(1);
                    (StateView { pending_diff_token: t, ..s }, Some((p, t)))
                },
                None => (s, None),
            }
        }
    }
}

impl Controller {
    pub fn new(state: AppState) -> (r: Controller)
        ensures
            r.state@ == state@,
            !r.pending_g,
            r.last_seen_branch is None,
            !r.main_missing_warned,
    {
        Controller { state, pending_g: false, last_seen_branch: None, main_missing_warned: false }
    }

    /// Activates the selected row (see [`activate_post`]).
    pub fn handle_activate(&mut self) -> (r: Effect)
        ensures
            final(self).state@ == activate_post(old(self).state@).0,
            final(self).pending_g == old(self).pending_g,
            final(self).last_seen_branch == old(self).last_seen_branch,
            final(self).main_missing_warned == old(self).main_missing_warned,
            match activate_post(old(self).state@).1 {
                Some((p, t)) => (r is RequestDiff && r->path@ == p && r->token == t),
                None => (r is Done),
            },
    {
        if self.state.toggle_selected_directory() {
            return Effect::Done;
        }
        if self.state.toggle_selected_group() {
            return Effect::Done;
        }
        self.handle_expand()
    }

    /// Asks for the diff of the selected file with a fresh token; nothing
    /// when the selection is not on a file.
    pub fn handle_expand(&mut self) -> (r: Effect)
        ensures
            final(self).pending_g == old(self).pending_g,
            final(self).last_seen_branch == old(self).last_seen_branch,
            final(self).main_missing_warned == old(self).main_missing_warned,
            match old(self).state@.snapshot().path {
                Some(p) => {
                    let t = old(self).state@.pending_diff_token.wrapping_add(1);
                    &&& final(self).state@ == (StateView { pending_diff_token: t, ..old(self).state@ })
                    &&& (r is RequestDiff && r->path@ == p && r->token == t)
                },
                None => final(self).state@ == old(self).state@ && (r is Done),
            },
    {
        match self.state.selected_file_path() {
            Some(path) => {
                let token = self.state.advance_pending_diff_token();
                Effect::RequestDiff { path, token }
            },
            None => Effect::Done,
        }
    }
}

/// Whether `key` closes the help popup.
pub open spec fn closes_help(key: Key) -> bool {
    key.code == KeyCode::Esc || key.code == KeyCode::Char('q') || key.code == KeyCode::Char('?') || key.code == KeyCode::Char(' ')
}

impl Controller {
    fn help_key(&mut self, key: Key) -> (r: Effect)
        ensures
            !final(self).pending_g,
            final(self).last_seen_branch == old(self).last_seen_branch,
            final(self).main_missing_warned == old(self).main_missing_warned,
            if is_ctrl_char(key, 'c') {
                (r is Quit) && final(self).state@ == old(self).state@
            } else if closes_help(key) {
                (r is Done) && final(self).state@ == (StateView { help_visible: false, ..old(self).state@ })
            } else {
                (r is Done) && final(self).state@ == old(self).state@
            },
    {
        self.pending_g = false;
        if key.modifiers == CONTROL && key.code == KeyCode::Char('c') {
            return Effect::Quit;
        }
        match key.code {
            KeyCode::Esc | KeyCode::Char('q') | KeyCode::Char('?') | KeyCode::Char(' ') => self.state.hide_help(),
            _ => {},
        }
        Effect::Done
    }

    #[verifier::rlimit(40)]
    fn diff_key(&mut self, key: Key) -> (r: Effect)
        ensures
            final(self).last_seen_branch == old(self).last_seen_branch,
            final(self).main_missing_warned == old(self).main_missing_warned,
            if old(self).pending_g && is_g(key) {
                !final(self).pending_g && (r is Done)
                    && final(self).state@ == (StateView { diff_scroll: 0, ..old(self).state@ })
            } else if !old(self).pending_g && is_g(key) {
                final(self).pending_g && (r is Done) && final(self).state@ == old(self).state@
            } else if is_ctrl_char(key, 'c') {
                !final(self).pending_g && (r is Quit) && final(self).state@ == old(self).state@
            } else {
                !final(self).pending_g && (r is Done) && final(self).state@ == diff_key_post(old(self).state@, key)
            },
    {
        let g = key.code == KeyCode::Char('g') && !key.has_ctrl();
        if self.pending_g {
            self.pending_g = false;
            if g {
                self.state.scroll_diff_to_top();
                return Effect::Done;
            }
        } else if g {
            self.pending_g = true;
            return Effect::Done;
        }
        let h = self.state.diff_viewport_height();
        let full: isize = if h >= 1 { if h > isize::MAX as usize { isize::MAX } else { h as isize } } else { 1 };
        let half: isize = if h / 2 >= 1 { if h / 2 > isize::MAX as usize { isize::MAX } else { (h / 2) as isize } } else { 1 };
        assert(full as int == full_step(h));
        assert(half as int == half_step(h));
        if key.modifiers == CONTROL {
            match key.code {
                KeyCode::Char('c') => return Effect::Quit,
                KeyCode::Char('d') => {
                    self.state.scroll_diff_page(half);
                    return Effect::Done;
                },
                KeyCode::Char('u') => {
                    self.state.scroll_diff_page(-half);
                    return Effect::Done;
                },
                KeyCode::Char('f') => {
                    self.state.scroll_diff_page(full);
                    return Effect::Done;
                },
                KeyCode::Char('b') => {
                    self.state.scroll_diff_page(-full);
                    return Effect::Done;
                },
                _ => {},
            }
        }
        match key.code {
            KeyCode::Char('G') => self.state.scroll_diff_to_bottom(),
            KeyCode::Esc | KeyCode::Char('q') | KeyCode::Char('h') | KeyCode::Left | KeyCode::Char(' ') | KeyCode::Char('d') =>
                self.state.hide_diff_overlay(),
            KeyCode::Char('j') | KeyCode::Down => self.state.scroll_diff_down(),
            KeyCode::Char('k') | KeyCode::Up => self.state.scroll_diff_up(),
            _ => {},
        }
        Effect::Done
    }

    fn dialog_key(&mut self, key: Key) -> (r: Effect)
        requires
            old(self).state@.switch_dialog is Some,
        ensures
            !final(self).pending_g,
            final(self).last_seen_branch == old(self).last_seen_branch,
            final(self).main_missing_warned == old(self).main_missing_warned,
            is_ctrl_char(key, 'c') ==> (r is Quit) && final(self).state@ == old(self).state@,
            !is_ctrl_char(key, 'c') && (key.code == KeyCode::Esc || key.code == KeyCode::Char('q')) ==>
                (r is Done) && final(self).state@ == (StateView { switch_dialog: None, ..old(self).state@ }),
            !is_ctrl_char(key, 'c') && key.code == KeyCode::Enter ==> ({
                let d = old(self).state@.switch_dialog->0;
                if d.selected < d.entries@.len() {
                    let e = d.entries@[d.selected as int];
                    if e.bare || e.prunable is Some {
                        (r is Done) && flashes_message(final(self).state@, crate::dialog::reject_message(e))
                            && dialog_over(final(self).state@.switch_dialog, d.entries@, d.current@, d.primary@)
                            && final(self).state@.switch_dialog->0.selected == d.selected
                            && final(self).state@ == (StateView {
                                switch_dialog: final(self).state@.switch_dialog,
                                flash_message: final(self).state@.flash_message,
                                ..old(self).state@
                            })
                    } else {
                        (r is SwitchTo && r->SwitchTo_0@ == e.path@)
                            && final(self).state@ == (StateView { switch_dialog: None, ..old(self).state@ })
                    }
                } else {
                    (r is Done)
                }
            }),
            !is_ctrl_char(key, 'c') && key.code != KeyCode::Enter ==> (r is Done),
            !is_ctrl_char(key, 'c') && !(key.code == KeyCode::Esc || key.code == KeyCode::Char('q')) && key.code != KeyCode::Enter ==>
                final(self).state@.switch_dialog is Some
                && final(self).state@ == (StateView { switch_dialog: final(self).state@.switch_dialog, ..old(self).state@ }),
    {
        self.pending_g = false;
        if key.modifiers == CONTROL && key.code == KeyCode::Char('c') {
            return Effect::Quit;
        }
        let taken = self.state.take_switch_dialog();
        let mut dialog = match taken {
            Some(d) => d,
            None => {
                return Effect::Done;
            },
        };
        match dialog.handle_key(key) {
            None => {
                self.state.show_switch_dialog(dialog);
                Effect::Done
            },
            Some(DialogOutcome::Cancel) => Effect::Done,
            Some(DialogOutcome::Reject(msg)) => {
                self.state.show_switch_dialog(dialog);
                self.state.set_flash_message(msg);
                Effect::Done
            },
            Some(DialogOutcome::Switch(path)) => Effect::SwitchTo(path),
        }
    }

    fn main_key(&mut self, key: Key) -> (r: Effect)
        ensures
            final(self).last_seen_branch == old(self).last_seen_branch,
            final(self).main_missing_warned == old(self).main_missing_warned,
            if old(self).pending_g && is_g(key) {
                !final(self).pending_g && (r is Done)
                    && final(self).state@ == crate::state::first_post(old(self).state@)
            } else if !old(self).pending_g && is_g(key) {
                final(self).pending_g && (r is Done) && final(self).state@ == old(self).state@
            } else {
                !final(self).pending_g && match main_action(key.modifiers, key.code) {
                    MainAction::Quit => (r is Quit) && final(self).state@ == old(self).state@,
                    MainAction::Refresh => (r is Refresh) && final(self).state@ == old(self).state@,
                    MainAction::Edit => (r is Edit) && final(self).state@ == old(self).state@,
                    MainAction::OpenPr => (r is OpenPr) && final(self).state@ == old(self).state@,
                    MainAction::OpenSwitcher => (r is OpenSwitcher) && final(self).state@ == old(self).state@,
                    MainAction::Primary => final(self).state@ == activate_post(old(self).state@).0 && match activate_post(old(self).state@).1 {
                        Some((p, t)) => (r is RequestDiff && r->path@ == p && r->token == t),
                        None => (r is Done),
                    },
                    a => (r is Done) && final(self).state@ == list_action_post(old(self).state@, a),
                }
            },
    {
        let g = key.code == KeyCode::Char('g') && !key.has_ctrl();
        if self.pending_g {
            self.pending_g = false;
            if g {
                self.state.select_first();
                return Effect::Done;
            }
        } else if g {
            self.pending_g = true;
            return Effect::Done;
        }
        let h = self.state.list_viewport_height();
        let full: isize = if h >= 1 { if h > isize::MAX as usize { isize::MAX } else { h as isize } } else { 1 };
        let half: isize = if h / 2 >= 1 { if h / 2 > isize::MAX as usize { isize::MAX } else { (h / 2) as isize } } else { 1 };
        assert(full as int == full_step(h));
        assert(half as int == half_step(h));
        match interpret_main_key(key.modifiers, key.code) {
            MainAction::Quit => Effect::Quit,
            MainAction::MoveDown => {
                self.state.select_next();
                Effect::Done
            },
            MainAction::MoveUp => {
                self.state.select_previous();
                Effect::Done
            },
            MainAction::Primary => self.handle_activate(),
            MainAction::Refresh => Effect::Refresh,
            MainAction::Edit => Effect::Edit,
            MainAction::OpenPr => Effect::OpenPr,
            MainAction::Help => {
                self.state.show_help();
                Effect::Done
            },
            MainAction::CycleMode => {
                self.state.cycle_view_mode();
                Effect::Done
            },
            MainAction::OpenSwitcher => Effect::OpenSwitcher,
            MainAction::Bottom => {
                self.state.select_last();
                Effect::Done
            },
            MainAction::PageDown => {
                self.state.select_page(full);
                Effect::Done
            },
            MainAction::PageUp => {
                self.state.select_page(-full);
                Effect::Done
            },
            MainAction::HalfPageDown => {
                self.state.select_page(half);
                Effect::Done
            },
            MainAction::HalfPageUp => {
                self.state.select_page(-half);
                Effect::Done
            },
            MainAction::Nothing => Effect::Done,
        }
    }

    /// Dispatches a key press. The help popup takes every key first, then
    /// the diff overlay, then the switch dialog, then the file list; a lone
    /// `g` arms the `gg` chord that jumps to the top. Returns the outside
    /// work the key asks for.
    pub fn handle_key_event(&mut self, key: Key) -> (r: Effect)
        ensures
            final(self).last_seen_branch == old(self).last_seen_branch,
            final(self).main_missing_warned == old(self).main_missing_warned,
            old(self).state@.help_visible ==> !final(self).pending_g && if is_ctrl_char(key, 'c') {
                (r is Quit) && final(self).state@ == old(self).state@
            } else if closes_help(key) {
                (r is Done) && final(self).state@ == (StateView { help_visible: false, ..old(self).state@ })
            } else {
                (r is Done) && final(self).state@ == old(self).state@
            },
            !old(self).state@.help_visible && old(self).state@.diff_overlay_visible ==> if old(self).pending_g && is_g(key) {
                !final(self).pending_g && (r is Done)
                    && final(self).state@ == (StateView { diff_scroll: 0, ..old(self).state@ })
            } else if !old(self).pending_g && is_g(key) {
                final(self).pending_g && (r is Done) && final(self).state@ == old(self).state@
            } else if is_ctrl_char(key, 'c') {
                !final(self).pending_g && (r is Quit) && final(self).state@ == old(self).state@
            } else {
                !final(self).pending_g && (r is Done) && final(self).state@ == diff_key_post(old(self).state@, key)
            },
            !old(self).state@.help_visible && !old(self).state@.diff_overlay_visible && old(self).state@.switch_dialog is Some ==> {
                &&& !final(self).pending_g
                &&& is_ctrl_char(key, 'c') ==> (r is Quit) && final(self).state@ == old(self).state@
                &&& !is_ctrl_char(key, 'c') && (key.code == KeyCode::Esc || key.code == KeyCode::Char('q')) ==>
                    (r is Done) && final(self).state@ == (StateView { switch_dialog: None, ..old(self).state@ })
                &&& !is_ctrl_char(key, 'c') && key.code == KeyCode::Enter ==> ({
                    let d = old(self).state@.switch_dialog->0;
                    if d.selected < d.entries@.len() {
                        let e = d.entries@[d.selected as int];
                        if e.bare || e.prunable is Some {
                            (r is Done) && flashes_message(final(self).state@, crate::dialog::reject_message(e))
                                && dialog_over(final(self).state@.switch_dialog, d.entries@, d.current@, d.primary@)
                                && final(self).state@.switch_dialog->0.selected == d.selected
                                && final(self).state@ == (StateView {
                                    switch_dialog: final(self).state@.switch_dialog,
                                    flash_message: final(self).state@.flash_message,
                                    ..old(self).state@
                                })
                        } else {
                            (r is SwitchTo && r->SwitchTo_0@ == e.path@)
                                && final(self).state@ == (StateView { switch_dialog: None, ..old(self).state@ })
                        }
                    } else {
                        (r is Done)
                    }
                })
                &&& !is_ctrl_char(key, 'c') && key.code != KeyCode::Enter ==> (r is Done)
                &&& !is_ctrl_char(key, 'c') && !(key.code == KeyCode::Esc || key.code == KeyCode::Char('q')) && key.code != KeyCode::Enter ==>
                    final(self).state@.switch_dialog is Some
                    && final(self).state@ == (StateView { switch_dialog: final(self).state@.switch_dialog, ..old(self).state@ })
            },
            !old(self).state@.help_visible && !old(self).state@.diff_overlay_visible && old(self).state@.switch_dialog is None ==>
                if old(self).pending_g && is_g(key) {
                    !final(self).pending_g && (r is Done)
                        && final(self).state@ == crate::state::first_post(old(self).state@)
                } else if !old(self).pending_g && is_g(key) {
                    final(self).pending_g && (r is Done) && final(self).state@ == old(self).state@
                } else {
                    !final(self).pending_g && match main_action(key.modifiers, key.code) {
                        MainAction::Quit => (r is Quit) && final(self).state@ == old(self).state@,
                        MainAction::Refresh => (r is Refresh) && final(self).state@ == old(self).state@,
                        MainAction::Edit => (r is Edit) && final(self).state@ == old(self).state@,
                        MainAction::OpenPr => (r is OpenPr) && final(self).state@ == old(self).state@,
                        MainAction::OpenSwitcher => (r is OpenSwitcher) && final(self).state@ == old(self).state@,
                        MainAction::Primary => final(self).state@ == activate_post(old(self).state@).0 && match activate_post(old(self).state@).1 {
                            Some((p, t)) => (r is RequestDiff && r->path@ == p && r->token == t),
                            None => (r is Done),
                        },
                        a => (r is Done) && final(self).state@ == list_action_post(old(self).state@, a),
                    }
                },
    {
        if self.state.is_help_visible() {
            return self.help_key(key);
        }
        if self.state.is_diff_overlay_visible() {
            return self.diff_key(key);
        }
        if self.state.is_switch_dialog_visible() {
            return self.dialog_key(key);
        }
        self.main_key(key)
    }
}

/// Whether a status naming branch `new` is a rename against the branch
/// seen last; the first status is never one.
pub open spec fn branch_renamed(last: Option<String>, new: Seq<char>) -> bool {
    match last {
        Some(p) => p@ != new,
        None => false,
    }
}

/// Whether `o` holds a string whose view is `s`.
pub open spec fn holds_str(o: Option<String>, s: Seq<char>) -> bool {
    match o {
        Some(x) => x@ == s,
        None => false,
    }
}

/// Whether the status line of `s` shows the message `m`.
pub open spec fn flashes_message(s: StateView, m: Seq<char>) -> bool {
    match s.flash_message {
        Some(f) => f.0 == m,
        None => false,
    }
}

/// The status-line message shown when the watched worktree's branch is
/// renamed.
pub open spec fn rename_message(old: Seq<char>, new: Seq<char>) -> Seq<char> {
    "branch renamed: "@ + old + " \u{2192} "@ + new
}

/// The state after applying a worker status at time `now`: the file list
/// is refreshed (see `update_post`) and the branch metadata replaced.
pub open spec fn apply_post(s: StateView, b: StatusBundle, now: u128) -> StateView {
    let u = crate::state::update_post(s, crate::git::files_view(b.files@), now);
    StateView {
        merge_base: match b.merge_base { Some(id) => Some(id.bytes@), None => None },
        base_branch: b.base_branch@,
        branch: b.branch@,
        head_sha: match b.head { Some(h) => h.0@, None => u.head_sha },
        head_message: match b.head { Some(h) => h.1@, None => u.head_message },
        stash_count: b.stash_count,
        ahead_behind: b.ahead_behind,
        repo_state: crate::state::opt_string_view(b.repo_state),
        repo_name: b.repo_name@,
        worktree_name: b.worktree_name@,
        is_computing: false,
        ..u
    }
}

/// The status-line message when the watched worktree vanished and perch
/// moved to the main worktree.
pub open spec fn switched_to_main_message() -> Seq<char> {
    "Worktree removed \u{2014} switched to main"@
}

/// The status-line message when both the watched and the main worktree
/// are gone.
pub open spec fn main_missing_message() -> Seq<char> {
    "Main worktree is missing \u{2014} holding state"@
}

impl Controller {
    /// Reacts to a rename of the watched worktree's branch: clears the PR
    /// state, shows "branch renamed: old \u{2192} new", and remembers the new
    /// branch. The caller restarts the PR poller.
    pub fn handle_branch_change(&mut self, new_branch: &str)
        ensures
            final(self).pending_g == old(self).pending_g,
            final(self).main_missing_warned == old(self).main_missing_warned,
            holds_str(final(self).last_seen_branch, new_branch@),
            flashes_message(final(self).state@, rename_message(
                match old(self).last_seen_branch { Some(o) => o@, None => Seq::<char>::empty() },
                new_branch@,
            )),
            final(self).state@ == (StateView {
                pr: crate::state::PrState { info: None, error: None, loading: false },
                flash_message: final(self).state@.flash_message,
                ..old(self).state@
            }),
    {
        let old_name = match &self.last_seen_branch {
            Some(b) => b.clone(),
            None => String::new(),
        };
        self.state.clear_pr();
        let mut msg = crate::text::owned("branch renamed: ");
        crate::text::push_str(&mut msg, old_name.as_str());
        crate::text::push_str(&mut msg, " \u{2192} ");
        crate::text::push_str(&mut msg, new_branch);
        self.state.set_flash_message(msg);
        self.last_seen_branch = Some(crate::text::owned(new_branch));
    }

    /// Applies a worker status: detects a branch rename against the last
    /// status (the first status only records the branch), refreshes the
    /// file list and replaces the branch metadata. Returns whether the
    /// branch was renamed, so that the caller restarts the PR poller.
    pub fn apply_status(&mut self, bundle: StatusBundle) -> (r: bool)
        ensures
            r == branch_renamed(old(self).last_seen_branch, bundle.branch@),
            final(self).pending_g == old(self).pending_g,
            final(self).main_missing_warned == old(self).main_missing_warned,
            holds_str(final(self).last_seen_branch, bundle.branch@),
            r ==> final(self).state@.pr == (crate::state::PrState { info: None, error: None, loading: false })
                && flashes_message(final(self).state@, rename_message(old(self).last_seen_branch->0@, bundle.branch@)),
            !r ==> final(self).state@.pr == old(self).state@.pr && final(self).state@.flash_message == old(self).state@.flash_message,
            exists|now: u128| final(self).state@ == (StateView {
                pr: final(self).state@.pr,
                flash_message: final(self).state@.flash_message,
                ..#[trigger] apply_post(old(self).state@, bundle, now)
            }),
    {
        let renamed = match &self.last_seen_branch {
            Some(prev) => *prev != bundle.branch,
            None => false,
        };
        if renamed {
            self.handle_branch_change(bundle.branch.as_str());
        } else if self.last_seen_branch.is_none() {
            self.last_seen_branch = Some(bundle.branch.clone());
        }
        let ghost mid = self.state@;
        let StatusBundle {
            files,
            merge_base,
            base_branch,
            branch,
            head,
            stash_count,
            ahead_behind,
            repo_state,
            repo_name,
            worktree_name,
        } = bundle;
        self.state.update_files(files);
        let ghost now = choose|now: u128| self.state@ == crate::state::update_post(mid, crate::git::files_view(files@), now);
        self.state.set_merge_base(merge_base, base_branch);
        self.state.set_branch(branch);
        match head {
            Some((sha, msg)) => self.state.set_head_info(sha, msg),
            None => {},
        }
        self.state.set_stash_count(stash_count);
        self.state.set_ahead_behind(ahead_behind);
        self.state.set_repo_state(repo_state);
        self.state.set_repo_name(repo_name);
        self.state.set_worktree_name(worktree_name);
        self.state.set_computing(false);
        assert(self.state@ == (StateView {
            pr: self.state@.pr,
            flash_message: self.state@.flash_message,
            ..apply_post(old(self).state@, bundle, now)
        }));
        renamed
    }

    /// Handles a worker response. A diff whose token is still pending is
    /// shown in the overlay; a stale one is dropped. An error ends the
    /// in-flight indicator. Returns whether a status renamed the branch.
    pub fn handle_worker_response(&mut self, resp: Response) -> (r: bool)
        ensures
            final(self).pending_g == old(self).pending_g,
            final(self).main_missing_warned == old(self).main_missing_warned,
            match resp {
                Response::Status(b) => r == branch_renamed(old(self).last_seen_branch, b.branch@)
                    && holds_str(final(self).last_seen_branch, b.branch@)
                    && exists|now: u128| final(self).state@ == (StateView {
                        pr: final(self).state@.pr,
                        flash_message: final(self).state@.flash_message,
                        ..#[trigger] apply_post(old(self).state@, *b, now)
                    }),
                Response::Diff { path, token, diff } => !r && final(self).last_seen_branch == old(self).last_seen_branch && if token == old(self).state@.pending_diff_token {
                    final(self).state@ == (StateView {
                        diff_overlay_visible: true,
                        ..crate::state::with_diff(old(self).state@, path@, diff.hunks@)
                    })
                } else {
                    final(self).state@ == old(self).state@
                },
                Response::SwitchAck(_) => !r && final(self).last_seen_branch == old(self).last_seen_branch && final(self).state@ == old(self).state@,
                Response::Error(_) => !r && final(self).last_seen_branch == old(self).last_seen_branch
                    && final(self).state@ == (StateView { is_computing: false, ..old(self).state@ }),
            },
    {
        match resp {
            Response::Status(bundle) => self.apply_status(*bundle),
            Response::Diff { path, token, diff } => {
                if token == self.state.pending_diff_token() {
                    self.state.set_expanded_diff(path, diff);
                    self.state.show_diff_overlay();
                }
                false
            },
            Response::SwitchAck(_) => false,
            Response::Error(_) => {
                self.state.set_computing(false);
                false
            },
        }
    }

    /// Acts on the existence check of the watched worktree. Returns whether
    /// the caller should switch to the main worktree; when both are gone the
    /// user is warned once until the watched path is back.
    pub fn fallback_to_main(&mut self, action: FallbackAction) -> (r: bool)
        ensures
            final(self).pending_g == old(self).pending_g,
            final(self).last_seen_branch == old(self).last_seen_branch,
            r == (action == FallbackAction::SwitchToMain),
            action == FallbackAction::Keep ==> !final(self).main_missing_warned && final(self).state@ == old(self).state@,
            action == FallbackAction::SwitchToMain ==> final(self).main_missing_warned == old(self).main_missing_warned
                && final(self).state@ == old(self).state@,
            action == FallbackAction::MainMissing ==> final(self).main_missing_warned && if old(self).main_missing_warned {
                final(self).state@ == old(self).state@
            } else {
                flashes_message(final(self).state@, main_missing_message())
                    && final(self).state@ == (StateView { flash_message: final(self).state@.flash_message, ..old(self).state@ })
            },
    {
        match action {
            FallbackAction::Keep => {
                self.main_missing_warned = false;
                false
            },
            FallbackAction::SwitchToMain => true,
            FallbackAction::MainMissing => {
                if !self.main_missing_warned {
                    self.state.set_flash_message(crate::text::owned("Main worktree is missing \u{2014} holding state"));
                    self.main_missing_warned = true;
                }
                false
            },
        }
    }

    /// Records a completed fall-back to the main worktree.
    pub fn switched_to_main(&mut self)
        ensures
            final(self).pending_g == old(self).pending_g,
            final(self).last_seen_branch == old(self).last_seen_branch,
            !final(self).main_missing_warned,
            flashes_message(final(self).state@, switched_to_main_message()),
            final(self).state@ == (StateView { flash_message: final(self).state@.flash_message, ..old(self).state@ }),
    {
        self.state.set_flash_message(crate::text::owned("Worktree removed \u{2014} switched to main"));
        self.main_missing_warned = false;
    }

    /// Resets for a switch to another worktree once the worker has opened
    /// it: forgets the last branch, clears the state, and marks a fresh
    /// status as in flight.
    pub fn switched_worktree(&mut self)
        ensures
            final(self).pending_g == old(self).pending_g,
            final(self).main_missing_warned == old(self).main_missing_warned,
            final(self).last_seen_branch is None,
            exists|now: u128| final(self).state@ == (StateView {
                is_computing: true,
                ..#[trigger] crate::state::reset_post(old(self).state@, Seq::empty(), Seq::empty(), Seq::empty(), Seq::empty(), now)
            }),
    {
        self.last_seen_branch = None;
        let files: Vec<FileEntry> = Vec::new();
        let branch = String::new();
        let repo_name = String::new();
        let worktree_name = String::new();
        proof {
            assert(crate::git::files_view(files@) =~= Seq::<FileView>::empty());
        }
        self.state.reset_for_switch(files, branch, repo_name, worktree_name);
        self.state.set_computing(true);
    }
}

/// How long a tick of the event loop lasts, in nanoseconds: the periodic
/// work (the check that the watched worktree still exists) runs once per
/// tick.
pub const TICK_RATE_NANOS: u128 = 1_000_000_000;

/// The longest the event loop waits for a terminal event, in nanoseconds,
/// before it drains the other channels. A key press ends the wait at once.
pub const EVENT_POLL_MAX_NANOS: u128 = 200_000_000;

/// How long the event loop may wait for a terminal event, `since_tick`
/// nanoseconds after the last tick: what is left of the tick, at most
/// [`EVENT_POLL_MAX_NANOS`].
pub fn poll_timeout(tick_rate: u128, since_tick: u128) -> (r: u128)
    ensures
        r == (if since_tick < tick_rate {
            if tick_rate - since_tick < EVENT_POLL_MAX_NANOS { tick_rate - since_tick } else { EVENT_POLL_MAX_NANOS as int }
        } else {
            0
        }),
{
    let left = if since_tick < tick_rate { tick_rate - since_tick } else { 0 };
    if left < EVENT_POLL_MAX_NANOS { left } else { EVENT_POLL_MAX_NANOS }
}

/// Whether the periodic work is due, `since_tick` nanoseconds after the
/// last tick.
pub fn tick_due(tick_rate: u128, since_tick: u128) -> (r: bool)
    ensures
        r == (since_tick >= tick_rate),
{
    since_tick >= tick_rate
}

/// What became of a request the caller tried to queue for the worker.
#[derive(Debug, Clone, Copy, PartialEq, Eq, Structural)]
pub enum SendOutcome {
    /// It was queued.
    Sent,
    /// The channel was full; a request of the same kind is already pending.
    Full,
    /// The worker has exited.
    Disconnected,
}

/// What the GitHub poller reports.
#[derive(Debug, Clone)]
pub enum GitHubEvent {
    /// The open PR for the branch, refreshed.
    PrUpdate(PrDisplayInfo),
    /// The branch has no open PR.
    NoPr,
    /// The poll failed.
    Error(String),
}

/// How the wait for the worker's acknowledgement of a repository switch
/// goes on after a response.
#[derive(Debug, Clone, Copy, PartialEq, Eq, Structural)]
pub enum AckStep {
    /// The worker opened the new repository.
    Acked,
    /// The worker could not open it and kept the old one.
    Refused,
    /// Not the acknowledgement: a stale response to drop; keep waiting.
    Wait,
}

/// Classifies a response received while waiting for the acknowledgement of
/// a repository switch.
pub fn switch_ack_step(resp: &Response) -> (r: AckStep)
    ensures
        r == (match *resp {
            Response::SwitchAck(ok) => if ok { AckStep::Acked } else { AckStep::Refused },
            _ => AckStep::Wait,
        }),
{
    match resp {
        Response::SwitchAck(ok) => if *ok { AckStep::Acked } else { AckStep::Refused },
        _ => AckStep::Wait,
    }
}

impl Controller {
    /// The controller at start-up over `state`: the configured view mode, and
    /// the first status marked as in flight.
    pub fn start(state: AppState, config: &AppConfig) -> (r: Controller)
        ensures
            r.state@ == (StateView { view_mode: config.display.default_view, is_computing: true, ..state@ }),
            !r.pending_g,
            r.last_seen_branch is None,
            !r.main_missing_warned,
    {
        let mut state = state;
        state.set_view_mode(config.display.default_view);
        state.set_computing(true);
        Controller::new(state)
    }

    /// Records the fate of the first `Recompute`, sent at start-up: when it
    /// could not be queued, no status is in flight.
    pub fn initial_recompute(&mut self, outcome: SendOutcome)
        ensures
            final(self).pending_g == old(self).pending_g,
            final(self).last_seen_branch == old(self).last_seen_branch,
            final(self).main_missing_warned == old(self).main_missing_warned,
            final(self).state@ == (if outcome == SendOutcome::Sent {
                old(self).state@
            } else {
                StateView { is_computing: false, ..old(self).state@ }
            }),
    {
        if outcome != SendOutcome::Sent {
            self.state.set_computing(false);
        }
    }

    /// Records the fate of the `Recompute` sent for a file-system change (or
    /// an `r`): the in-flight indicator goes on when it was queued, stays as
    /// it was when the channel was full (one is already pending), and goes
    /// off when the worker has exited.
    pub fn handle_fs_change(&mut self, outcome: SendOutcome)
        ensures
            final(self).pending_g == old(self).pending_g,
            final(self).last_seen_branch == old(self).last_seen_branch,
            final(self).main_missing_warned == old(self).main_missing_warned,
            final(self).state@ == (match outcome {
                SendOutcome::Sent => StateView { is_computing: true, ..old(self).state@ },
                SendOutcome::Full => old(self).state@,
                SendOutcome::Disconnected => StateView { is_computing: false, ..old(self).state@ },
            }),
    {
        match outcome {
            SendOutcome::Sent => self.state.set_computing(true),
            SendOutcome::Full => {},
            SendOutcome::Disconnected => self.state.set_computing(false),
        }
    }

    /// Applies a report of the GitHub poller. A refreshed PR replaces the PR
    /// state; "no PR" clears it unless an error is showing, which sticks; an
    /// error is shown next to the last PR.
    pub fn handle_github_event(&mut self, event: GitHubEvent)
        ensures
            final(self).pending_g == old(self).pending_g,
            final(self).last_seen_branch == old(self).last_seen_branch,
            final(self).main_missing_warned == old(self).main_missing_warned,
            final(self).state@ == (match event {
                GitHubEvent::PrUpdate(info) => StateView {
                    pr: crate::state::PrState { info: Some(info), error: None, loading: false },
                    ..old(self).state@
                },
                GitHubEvent::NoPr => if old(self).state@.pr.error is None {
                    StateView { pr: crate::state::PrState { info: None, error: None, loading: false }, ..old(self).state@ }
                } else {
                    old(self).state@
                },
                GitHubEvent::Error(e) => StateView {
                    pr: crate::state::PrState { info: old(self).state@.pr.info, error: Some(e), loading: false },
                    ..old(self).state@
                },
            }),
    {
        match event {
            GitHubEvent::PrUpdate(info) => self.state.set_pr_info(info),
            GitHubEvent::NoPr => {
                if self.state.pr_state().error.is_none() {
                    self.state.clear_pr();
                }
            },
            GitHubEvent::Error(e) => self.state.set_pr_error(e),
        }
    }
}

/// Whether `o` is a dialog over `entries`, opened on `current` with
/// `primary` as the main worktree.
pub open spec fn dialog_over(o: Option<SwitchDialog>, entries: Seq<WorktreeEntry>, current: Seq<char>, primary: Seq<char>) -> bool {
    match o {
        Some(d) => d.entries@ == entries && d.current@ == current && d.primary@ == primary,
        None => false,
    }
}

/// The status-line message when the worktrees could not be listed.
pub open spec fn list_failed_message(e: Seq<char>) -> Seq<char> {
    "worktree list failed: "@ + e
}

impl Controller {
    /// Opens the switch dialog over the listed worktrees, closing the diff
    /// overlay first; when listing failed, shows why on the status line
    /// instead.
    pub fn open_switch_dialog(&mut self, listed: Result<Vec<WorktreeEntry>, String>, current: &str, primary: &str)
        ensures
            final(self).pending_g == old(self).pending_g,
            final(self).last_seen_branch == old(self).last_seen_branch,
            final(self).main_missing_warned == old(self).main_missing_warned,
            ({
                let closed = if old(self).state@.diff_overlay_visible {
                    StateView { diff_overlay_visible: false, diff_scroll: 0, ..old(self).state@ }
                } else {
                    old(self).state@
                };
                match listed {
                    Ok(es) => dialog_over(final(self).state@.switch_dialog, es@, current@, primary@)
                        && final(self).state@ == (StateView { switch_dialog: final(self).state@.switch_dialog, ..closed }),
                    Err(e) => flashes_message(final(self).state@, list_failed_message(e@))
                        && final(self).state@ == (StateView { flash_message: final(self).state@.flash_message, ..closed }),
                }
            }),
    {
        if self.state.is_diff_overlay_visible() {
            self.state.hide_diff_overlay();
        }
        match listed {
            Ok(entries) => {
                let dialog = SwitchDialog::new(entries, current, primary);
                self.state.show_switch_dialog(dialog);
            },
            Err(e) => {
                let mut msg = crate::text::owned("worktree list failed: ");
                crate::text::push_str(&mut msg, e.as_str());
                self.state.set_flash_message(msg);
            },
        }
    }
}

} // verus!
