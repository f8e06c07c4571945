//! The switch-worktree dialog: a list of worktrees to pick from.
use vstd::prelude::*;
use crate::keys::{Key, KeyCode};

verus! {

/// One worktree of the repository.
#[derive(Debug, Clone)]
pub struct WorktreeEntry {
    pub path: String,
    pub head: String,
    pub branch: Option<String>,
    pub bare: bool,
    pub detached: bool,
    pub locked: Option<String>,
    pub prunable: Option<String>,
}

/// What a key press in the dialog asks for.
#[derive(Debug, Clone)]
pub enum DialogOutcome {
    /// Close the dialog.
    Cancel,
    /// Refuse the choice, with a message for the status line.
    Reject(String),
    /// Switch to the worktree at this path.
    Switch(String),
}

/// Why a worktree cannot be switched to: a bare repository has no working
/// tree, and a prunable one is missing on disk.
pub open spec fn reject_message(e: WorktreeEntry) -> Seq<char> {
    if e.bare { "cannot switch to a bare repository"@ } else { "worktree is missing on disk"@ }
}

/// The dialog: the worktrees, the highlighted one, and the paths of the
/// current and the main worktree.
#[derive(Debug, Clone)]
pub struct SwitchDialog {
    pub entries: Vec<WorktreeEntry>,
    pub selected: usize,
    pub current: String,
    pub primary: String,
}

impl SwitchDialog {
    /// Opens the dialog with the current worktree highlighted, or the first
    /// one when the current worktree is not listed.
    pub fn new(entries: Vec<WorktreeEntry>, current: &str, primary: &str) -> (r: SwitchDialog)
        ensures
            r.entries@ == entries@,
            r.current@ == current@,
            r.primary@ == primary@,
            r.selected == 0 || (r.selected < entries@.len() && entries@[r.selected as int].path@ == current@),
            (exists|i: int| 0 <= i < entries@.len() && entries@[i].path@ == current@) ==> entries@[r.selected as int].path@ == current@,
    {
        let mut selected: usize = 0;
        let mut found = false;
        for i in 0..entries.len()
            invariant
                !found ==> selected == 0 && forall|j: int| 0 <= j < i ==> entries@[j].path@ != current@,
                found ==> selected < entries@.len() && entries@[selected as int].path@ == current@,
        {
            if !found && crate::text::str_eq(entries[i].path.as_str(), current) {
                selected = i;
                found = true;
            }
        }
        SwitchDialog {
            entries,
            selected,
            current: crate::text::owned(current),
            primary: crate::text::owned(primary),
        }
    }

    /// Handles a key: `Esc`/`q` cancel, `j`/`Down` and `k`/`Up` move the
    /// highlight, `Enter` picks the highlighted worktree (refused for a bare
    /// or prunable one). Other keys do nothing.
    pub fn handle_key(&mut self, key: Key) -> (r: Option<DialogOutcome>)
        ensures
            final(self).entries@ == old(self).entries@,
            final(self).current == old(self).current,
            final(self).primary == old(self).primary,
            (key.code == KeyCode::Esc || key.code == KeyCode::Char('q')) ==> final(self).selected == old(self).selected,
            (key.code == KeyCode::Esc || key.code == KeyCode::Char('q')) ==> r matches Some(DialogOutcome::Cancel),
            (key.code == KeyCode::Down || key.code == KeyCode::Char('j')) ==> r is None
                && final(self).selected == (if old(self).selected + 1 < old(self).entries@.len() { old(self).selected + 1 } else { old(self).selected as int }),
            (key.code == KeyCode::Up || key.code == KeyCode::Char('k')) ==> r is None
                && final(self).selected == (if old(self).selected > 0 { old(self).selected - 1 } else { 0 }),
            key.code == KeyCode::Enter ==> final(self).selected == old(self).selected && (
                if old(self).selected < old(self).entries@.len() {
                    let e = old(self).entries@[old(self).selected as int];
                    if e.bare || e.prunable is Some {
                        r matches Some(DialogOutcome::Reject(m)) && m@ == reject_message(e)
                    } else {
                        r matches Some(DialogOutcome::Switch(p)) && p@ == e.path@
                    }
                } else {
                    r is None
                }),
            !(key.code == KeyCode::Esc || key.code == KeyCode::Char('q') || key.code == KeyCode::Down
                || key.code == KeyCode::Char('j') || key.code == KeyCode::Up || key.code == KeyCode::Char('k')
                || key.code == KeyCode::Enter) ==> r is None && final(self).selected == old(self).selected,
    {
        match key.code {
            KeyCode::Esc | KeyCode::Char('q') => Some(DialogOutcome::Cancel),
            KeyCode::Down | KeyCode::Char('j') => {
                if self.selected < self.entries.len() && self.selected + 1 < self.entries.len() {
                    self.selected = self.selected + 1;
                }
                None
            },
            KeyCode::Up | KeyCode::Char('k') => {
                if self.selected > 0 {
                    self.selected = self.selected - 1;
                }
                None
            },
            KeyCode::Enter => {
                if self.selected < self.entries.len() {
                    let e = &self.entries[self.selected];
                    if e.bare {
                        Some(DialogOutcome::Reject(crate::text::owned("cannot switch to a bare repository")))
                    } else if e.prunable.is_some() {
                        Some(DialogOutcome::Reject(crate::text::owned("worktree is missing on disk")))
                    } else {
                        Some(DialogOutcome::Switch(e.path.clone()))
                    }
                } else {
                    None
                }
            },
            _ => None,
        }
    }
}

} // verus!
