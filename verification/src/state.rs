//! The application's view model: what the UI renders from.
use vstd::prelude::*;
use std::time::Instant;
use crate::dialog::SwitchDialog;
use crate::dirs::DirSet;
use crate::git::{ChangeGroup, DiffHunk, FileDiff, FileEntry, FileView, ObjectId};
use crate::rows::{GroupSet, RowId, RowKey, RowView, VisibleRow};

verus! {

/// State of the PR widget.
#[derive(Debug, Clone)]
pub struct PrState {
    pub info: Option<PrDisplayInfo>,
    pub error: Option<String>,
    pub loading: bool,
}

impl Default for PrState {
    fn default() -> (r: PrState)
        ensures
            r.info is None,
            r.error is None,
            !r.loading,
    {
        PrState { info: None, error: None, loading: false }
    }
}

/// Displayable PR info.
#[derive(Debug, Clone)]
pub struct PrDisplayInfo {
    pub number: u64,
    pub title: String,
    pub state: PrStatus,
    pub reviews: Vec<ReviewInfo>,
    pub checks: ChecksInfo,
    pub comment_count: u64,
    pub mergeable: MergeableStatus,
    pub labels: Vec<String>,
    pub assignees: Vec<String>,
    pub url: String,
}

#[derive(Debug, Clone, Copy, PartialEq, Eq, Structural)]
pub enum PrStatus {
    Open,
    Closed,
    Merged,
    Draft,
}

#[derive(Debug, Clone)]
pub struct ReviewInfo {
    pub reviewer: String,
    pub state: ReviewState,
}

#[derive(Debug, Clone, Copy, PartialEq, Eq, Structural)]
pub enum ReviewState {
    Approved,
    ChangesRequested,
    Pending,
    Commented,
    Dismissed,
}

#[derive(Debug, Clone)]
pub struct ChecksInfo {
    pub total: usize,
    pub passed: usize,
    pub failed: usize,
    pub pending: usize,
    pub skipped: usize,
    pub checks: Vec<CheckInfo>,
}

#[derive(Debug, Clone)]
pub struct CheckInfo {
    pub name: String,
    pub status: CheckStatus,
}

#[derive(Debug, Clone, Copy, PartialEq, Eq, Structural)]
pub enum CheckStatus {
    Passed,
    Failed,
    Pending,
    Running,
    Skipped,
}

#[derive(Debug, Clone, Copy, PartialEq, Eq, Structural)]
pub enum MergeableStatus {
    Clean,
    Conflicts,
    Behind,
    Unknown,
}

/// How the file list is laid out.
#[derive(Debug, Clone, Copy, PartialEq, Eq, Structural)]
pub enum ViewMode {
    /// Single flat list of every changed file path.
    Condensed,
    /// Files arranged as a directory tree.
    Tree,
    /// Files split into collapsible status-group sections.
    Normal,
}

/// The mode that follows `m` when the user cycles: Normal, Condensed, Tree.
pub open spec fn next_mode(m: ViewMode) -> ViewMode {
    match m {
        ViewMode::Normal => ViewMode::Condensed,
        ViewMode::Condensed => ViewMode::Tree,
        ViewMode::Tree => ViewMode::Normal,
    }
}

/// The direction of the change that triggered a file-row flash: a net gain
/// in lines (or no net change) flashes as an addition, a net loss as a
/// deletion.
#[derive(Debug, Clone, Copy, PartialEq, Eq, Structural)]
pub enum FlashKind {
    Added,
    Removed,
}

/// When a file last changed (nanoseconds since the state was created) and
/// the direction of that change.
#[derive(Debug, Clone)]
pub struct FlashRecord {
    pub path: String,
    pub at: u128,
    pub kind: FlashKind,
}

pub struct FlashView {
    pub path: Seq<char>,
    pub at: u128,
    pub kind: FlashKind,
}

impl View for FlashRecord {
    type V = FlashView;

    open spec fn view(&self) -> FlashView {
        FlashView { path: self.path@, at: self.at, kind: self.kind }
    }
}

/// The diff shown in the overlay, with the statistics of its file.
#[derive(Debug, Clone)]
pub struct ExpandedDiff {
    pub path: String,
    pub insertions: usize,
    pub deletions: usize,
    pub diff: FileDiff,
}

pub struct DiffView {
    pub path: Seq<char>,
    pub insertions: usize,
    pub deletions: usize,
    pub hunks: Seq<DiffHunk>,
}

/// The mathematical value of an [`AppState`]. Times are nanoseconds since
/// the state was created.
pub struct StateView {
    pub files: Seq<FileView>,
    pub selected: usize,
    pub view_mode: ViewMode,
    pub expanded: Set<Seq<char>>,
    pub collapsed: Set<ChangeGroup>,
    pub selected_row: Option<RowKey>,
    pub refresh_count: usize,
    pub last_refresh: u128,
    pub flashes: Seq<FlashView>,
    pub flash_duration: u128,
    pub focused: bool,
    pub branch: Seq<char>,
    pub repo_name: Seq<char>,
    pub worktree_name: Seq<char>,
    pub head_sha: Seq<char>,
    pub head_message: Seq<char>,
    pub stash_count: usize,
    pub ahead_behind: Option<(usize, usize)>,
    pub repo_state: Option<Seq<char>>,
    pub flash_message: Option<(Seq<char>, u128)>,
    pub help_visible: bool,
    pub is_computing: bool,
    pub pr: PrState,
    pub border_flash_until: Option<u128>,
    pub merge_base: Option<Seq<u8>>,
    pub base_branch: Seq<char>,
    pub scroll_offset: usize,
    pub list_viewport_height: usize,
    pub initial_seed_done: bool,
    pub diff: Option<DiffView>,
    pub diff_scroll: usize,
    pub diff_viewport_height: usize,
    pub diff_overlay_visible: bool,
    pub pending_diff_token: u64,
    pub switch_dialog: Option<SwitchDialog>,
}

/// `s` showing the hunks of `path`, with the statistics of the first listed
/// file with that path (zero when it is not listed), scrolled to the top.
pub open spec fn with_diff(s: StateView, path: Seq<char>, hunks: Seq<DiffHunk>) -> StateView {
    let i = find_file(s.files, path);
    StateView {
        diff: Some(DiffView {
            path,
            insertions: if i >= 0 { s.files[i].insertions } else { 0 },
            deletions: if i >= 0 { s.files[i].deletions } else { 0 },
            hunks,
        }),
        diff_scroll: 0,
        ..s
    }
}

/// The rows of the file list in mode `m`.
pub open spec fn rows_for(m: ViewMode, files: Seq<FileView>, exp: Set<Seq<char>>, collapsed: Set<ChangeGroup>) -> Seq<RowView> {
    match m {
        ViewMode::Condensed => crate::rows::condensed_rows(files),
        ViewMode::Tree => crate::tree::tree_rows(files, exp),
        ViewMode::Normal => crate::rows::normal_rows(files, collapsed),
    }
}

/// What the selection is on: the row's identity and, for a file row, the
/// file's path.
pub struct Snapshot {
    pub row: Option<RowKey>,
    pub path: Option<Seq<char>>,
}

pub open spec fn key_path(k: RowKey) -> Option<Seq<char>> {
    match k {
        RowKey::File(p) => Some(p),
        _ => None,
    }
}

pub open spec fn snapshot_of(rows: Seq<RowView>, selected: int) -> Snapshot {
    if 0 <= selected < rows.len() {
        Snapshot { row: Some(rows[selected].key()), path: key_path(rows[selected].key()) }
    } else {
        Snapshot { row: None, path: None }
    }
}

/// The selection after moving it to `target` among `rows`: clamped to the
/// last row, or reset when there are no rows.
pub open spec fn clamp_select(rows: Seq<RowView>, target: int) -> (usize, Option<RowKey>) {
    if rows.len() == 0 {
        (0usize, None)
    } else {
        let s = if target < rows.len() - 1 { target } else { rows.len() - 1 };
        (s as usize, Some(rows[s].key()))
    }
}

/// The index of the first row with identity `k`, or -1.
pub open spec fn find_key(rows: Seq<RowView>, k: RowKey) -> int
    decreases rows.len(),
{
    if rows.len() == 0 {
        -1
    } else {
        let r = find_key(rows.drop_last(), k);
        if r >= 0 {
            r
        } else if rows.last().key() == k {
            rows.len() - 1
        } else {
            -1
        }
    }
}

/// The index of the first file with path `p`, or -1.
pub open spec fn find_file(files: Seq<FileView>, p: Seq<char>) -> int
    decreases files.len(),
{
    if files.len() == 0 {
        -1
    } else {
        let r = find_file(files.drop_last(), p);
        if r >= 0 {
            r
        } else if files.last().path == p {
            files.len() - 1
        } else {
            -1
        }
    }
}

/// Restoring a selection in Tree and Normal mode: by row identity, then by
/// file path, then by clamped index.
pub open spec fn restore_by_id(rows: Seq<RowView>, snap: Snapshot, selected: int) -> (usize, Option<RowKey>) {
    if snap.row is Some && find_key(rows, snap.row->0) >= 0 {
        clamp_select(rows, find_key(rows, snap.row->0))
    } else if snap.path is Some && find_key(rows, RowKey::File(snap.path->0)) >= 0 {
        clamp_select(rows, find_key(rows, RowKey::File(snap.path->0)))
    } else {
        clamp_select(rows, selected)
    }
}

/// Restoring a selection in Condensed mode: by file path, then by clamped
/// index.
pub open spec fn restore_condensed(files: Seq<FileView>, path: Option<Seq<char>>, selected: int) -> (usize, Option<RowKey>) {
    if files.len() == 0 {
        (0usize, None)
    } else {
        let s = if path is Some && find_file(files, path->0) >= 0 {
            find_file(files, path->0)
        } else if selected < files.len() - 1 {
            selected
        } else {
            files.len() - 1
        };
        (s as usize, Some(RowKey::File(files[s].path)))
    }
}

pub open spec fn restore_for(m: ViewMode, rows: Seq<RowView>, files: Seq<FileView>, snap: Snapshot, selected: int) -> (usize, Option<RowKey>) {
    match m {
        ViewMode::Condensed => restore_condensed(files, snap.path, selected),
        _ => restore_by_id(rows, snap, selected),
    }
}

impl StateView {
    pub open spec fn rows(self) -> Seq<RowView> {
        rows_for(self.view_mode, self.files, self.expanded, self.collapsed)
    }

    pub open spec fn snapshot(self) -> Snapshot {
        snapshot_of(self.rows(), self.selected as int)
    }

    /// Whole seconds from the last refresh to time `now`, at most
    /// `u64::MAX`.
    pub open spec fn refresh_secs_at(self, now: u128) -> int {
        let secs = crate::clock::elapsed(now, self.last_refresh) / 1_000_000_000;
        if secs > u64::MAX { u64::MAX as int } else { secs }
    }

    /// Whether the pane border flashes at time `now`.
    pub open spec fn border_flashing_at(self, now: u128) -> bool {
        match self.border_flash_until {
            Some(until) => now < until,
            None => false,
        }
    }

    /// The status-line message shown at time `now`: none once it is older
    /// than the flash duration.
    pub open spec fn message_at(self, now: u128) -> Option<Seq<char>> {
        match self.flash_message {
            Some(m) => if crate::clock::elapsed(now, m.1) < self.flash_duration { Some(m.0) } else { None },
            None => None,
        }
    }

    /// The flash direction recorded for `path`, if its flash has not
    /// expired at time `now`.
    pub open spec fn flash_kind_at(self, path: Seq<char>, now: u128) -> Option<FlashKind> {
        match flash_lookup(self.flashes, path) {
            Some(r) => if crate::clock::elapsed(now, r.at) < self.flash_duration { Some(r.kind) } else { None },
            None => None,
        }
    }
}

/// The latest record for `p`.
pub open spec fn flash_lookup(recs: Seq<FlashView>, p: Seq<char>) -> Option<FlashView>
    decreases recs.len(),
{
    if recs.len() == 0 {
        None
    } else if recs.last().path == p {
        Some(recs.last())
    } else {
        flash_lookup(recs.drop_last(), p)
    }
}

/// The records after recording a change of `p`.
pub open spec fn flash_insert(recs: Seq<FlashView>, p: Seq<char>, at: u128, kind: FlashKind) -> Seq<FlashView> {
    recs.filter(|r: FlashView| r.path != p).push(FlashView { path: p, at, kind })
}

/// The records whose flash has not expired at time `now`.
pub open spec fn flash_retain(recs: Seq<FlashView>, now: u128, dur: u128) -> Seq<FlashView> {
    recs.filter(|r: FlashView| crate::clock::elapsed(now, r.at) < dur)
}

/// The statistics the old list had for `p` (its last entry with that path).
pub open spec fn old_stats(files: Seq<FileView>, p: Seq<char>) -> Option<(usize, usize)>
    decreases files.len(),
{
    if files.len() == 0 {
        None
    } else if files.last().path == p {
        Some((files.last().insertions, files.last().deletions))
    } else {
        old_stats(files.drop_last(), p)
    }
}

/// How a file's row flashes after a refresh: not at all when its statistics
/// are unchanged; otherwise by the sign of the change of its net line count
/// (a file new to the list counts as zero before).
pub open spec fn change_kind(old_files: Seq<FileView>, f: FileView) -> Option<FlashKind> {
    let o = old_stats(old_files, f.path);
    let changed = match o {
        Some(s) => s.0 != f.insertions || s.1 != f.deletions,
        None => true,
    };
    if !changed {
        None
    } else {
        let (oi, od) = match o { Some(s) => s, None => (0usize, 0usize) };
        if f.insertions - f.deletions >= oi - od { Some(FlashKind::Added) } else { Some(FlashKind::Removed) }
    }
}

/// The records after noting every changed file of `new_files` at time `now`.
pub open spec fn flash_changes(recs: Seq<FlashView>, old_files: Seq<FileView>, new_files: Seq<FileView>, now: u128) -> Seq<FlashView>
    decreases new_files.len(),
{
    if new_files.len() == 0 {
        recs
    } else {
        let prev = flash_changes(recs, old_files, new_files.drop_last(), now);
        let f = new_files.last();
        match change_kind(old_files, f) {
            Some(k) => flash_insert(prev, f.path, now, k),
            None => prev,
        }
    }
}

/// The application's view model — what the UI renders from.
pub struct AppState {
    files: Vec<FileEntry>,
    selected: usize,
    view_mode: ViewMode,
    expanded_dirs: DirSet,
    collapsed_groups: GroupSet,
    selected_row_id: Option<RowId>,
    refresh_count: usize,
    start_time: Instant,
    last_refresh: u128,
    flash_times: Vec<FlashRecord>,
    flash_duration: u128,
    focused: bool,
    branch: String,
    repo_name: String,
    worktree_name: String,
    head_sha: String,
    head_message: String,
    stash_count: usize,
    ahead_behind: Option<(usize, usize)>,
    repo_state: Option<String>,
    flash_message: Option<(String, u128)>,
    help_visible: bool,
    is_computing: bool,
    pr_state: PrState,
    border_flash_until: Option<u128>,
    merge_base: Option<ObjectId>,
    base_branch: String,
    scroll_offset: usize,
    list_viewport_height: usize,
    initial_seed_done: bool,
    current_diff: Option<ExpandedDiff>,
    diff_scroll: usize,
    diff_viewport_height: usize,
    diff_overlay_visible: bool,
    pending_diff_token: u64,
    switch_dialog: Option<SwitchDialog>,
}

pub open spec fn opt_string_view(o: Option<String>) -> Option<Seq<char>> {
    match o {
        Some(s) => Some(s@),
        None => None,
    }
}

pub open spec fn opt_row_view(o: Option<RowId>) -> Option<RowKey> {
    match o {
        Some(r) => Some(r@),
        None => None,
    }
}

impl View for AppState {
    type V = StateView;

    closed spec fn view(&self) -> StateView {
        StateView {
            files: crate::git::files_view(self.files@),
            selected: self.selected,
            view_mode: self.view_mode,
            expanded: self.expanded_dirs@,
            collapsed: self.collapsed_groups@,
            selected_row: opt_row_view(self.selected_row_id),
            refresh_count: self.refresh_count,
            last_refresh: self.last_refresh,
            flashes: self.flash_times@.map_values(|r: FlashRecord| r@),
            flash_duration: self.flash_duration,
            focused: self.focused,
            branch: self.branch@,
            repo_name: self.repo_name@,
            worktree_name: self.worktree_name@,
            head_sha: self.head_sha@,
            head_message: self.head_message@,
            stash_count: self.stash_count,
            ahead_behind: self.ahead_behind,
            repo_state: opt_string_view(self.repo_state),
            flash_message: match self.flash_message {
                Some(m) => Some((m.0@, m.1)),
                None => None,
            },
            help_visible: self.help_visible,
            is_computing: self.is_computing,
            pr: self.pr_state,
            border_flash_until: self.border_flash_until,
            merge_base: match self.merge_base {
                Some(id) => Some(id.bytes@),
                None => None,
            },
            base_branch: self.base_branch@,
            scroll_offset: self.scroll_offset,
            list_viewport_height: self.list_viewport_height,
            initial_seed_done: self.initial_seed_done,
            diff: match self.current_diff {
                Some(d) => Some(DiffView { path: d.path@, insertions: d.insertions, deletions: d.deletions, hunks: d.diff.hunks@ }),
                None => None,
            },
            diff_scroll: self.diff_scroll,
            diff_viewport_height: self.diff_viewport_height,
            diff_overlay_visible: self.diff_overlay_visible,
            pending_diff_token: self.pending_diff_token,
            switch_dialog: self.switch_dialog,
        }
    }
}

impl AppState {
    /// A fresh state over `files` in Condensed mode, with the first row
    /// selected and nothing flashing. Flashes, status-line messages and the
    /// border flash last `flash_duration_ms` milliseconds.
    pub fn new(files: Vec<FileEntry>, flash_duration_ms: u64, branch: String) -> (r: AppState)
        ensures
            r@.flash_duration == flash_duration_ms * 1_000_000,
            r@.files == crate::git::files_view(files@),
            r@.selected == 0,
            r@.view_mode == ViewMode::Condensed,
            r@.expanded == Set::<Seq<char>>::empty(),
            r@.collapsed == Set::<ChangeGroup>::empty(),
            r@.selected_row is None,
            r@.refresh_count == 0,
            r@.last_refresh == 0,
            r@.flashes == Seq::<FlashView>::empty(),
            r@.focused,
            r@.branch == branch@,
            r@.repo_name == Seq::<char>::empty(),
            r@.worktree_name == Seq::<char>::empty(),
            r@.head_sha == Seq::<char>::empty(),
            r@.head_message == Seq::<char>::empty(),
            r@.stash_count == 0,
            r@.ahead_behind is None,
            r@.repo_state is None,
            r@.flash_message is None,
            !r@.help_visible,
            !r@.is_computing,
            r@.pr.info is None && r@.pr.error is None && !r@.pr.loading,
            r@.border_flash_until is None,
            r@.merge_base is None,
            r@.base_branch == Seq::<char>::empty(),
            r@.scroll_offset == 0,
            r@.list_viewport_height == 0,
            !r@.initial_seed_done,
            r@.diff is None,
            r@.diff_scroll == 0,
            r@.diff_viewport_height == 0,
            !r@.diff_overlay_visible,
            r@.pending_diff_token == 0,
            r@.switch_dialog is None,
    {
        let start_time = crate::clock::instant_now();
        let flash_duration: u128 = flash_duration_ms as u128 * 1_000_000;
        let r = AppState {
            files,
            selected: 0,
            view_mode: ViewMode::Condensed,
            expanded_dirs: DirSet::new(),
            collapsed_groups: GroupSet::new(),
            selected_row_id: None,
            refresh_count: 0,
            start_time,
            last_refresh: 0,
            flash_times: Vec::new(),
            flash_duration,
            focused: true,
            branch,
            repo_name: String::new(),
            worktree_name: String::new(),
            head_sha: String::new(),
            head_message: String::new(),
            stash_count: 0,
            ahead_behind: None,
            repo_state: None,
            flash_message: None,
            help_visible: false,
            is_computing: false,
            pr_state: PrState::default(),
            border_flash_until: None,
            merge_base: None,
            base_branch: String::new(),
            scroll_offset: 0,
            list_viewport_height: 0,
            initial_seed_done: false,
            current_diff: None,
            diff_scroll: 0,
            diff_viewport_height: 0,
            diff_overlay_visible: false,
            pending_diff_token: 0,
            switch_dialog: None,
        };
        assert(r@.flashes =~= Seq::<FlashView>::empty());
        r
    }

    /// Nanoseconds since the state was created, read from the clock.
    fn now(&self) -> u128 {
        crate::clock::nanos_since(&self.start_time)
    }

    // -- Accessors --

    pub fn files(&self) -> (r: &[FileEntry])
        ensures
            crate::git::files_view(r@) == self@.files,
    {
        self.files.as_slice()
    }

    pub fn selected_index(&self) -> (r: usize)
        ensures
            r == self@.selected,
    {
        self.selected
    }

    pub fn view_mode(&self) -> (r: ViewMode)
        ensures
            r == self@.view_mode,
    {
        self.view_mode
    }

    /// True once the first `update_files` call has completed.
    pub fn initial_seed_done(&self) -> (r: bool)
        ensures
            r == self@.initial_seed_done,
    {
        self.initial_seed_done
    }

    pub fn expanded_dirs(&self) -> (r: &DirSet)
        ensures
            r@ == self@.expanded,
    {
        &self.expanded_dirs
    }

    pub fn scroll_offset(&self) -> (r: usize)
        ensures
            r == self@.scroll_offset,
    {
        self.scroll_offset
    }

    pub fn set_scroll_offset(&mut self, offset: usize)
        ensures
            final(self)@ == (StateView { scroll_offset: offset, ..old(self)@ }),
    {
        self.scroll_offset = offset;
    }

    pub fn refresh_count(&self) -> (r: usize)
        ensures
            r == self@.refresh_count,
    {
        self.refresh_count
    }

    pub fn is_focused(&self) -> (r: bool)
        ensures
            r == self@.focused,
    {
        self.focused
    }

    pub fn set_focused(&mut self, focused: bool)
        ensures
            final(self)@ == (StateView { focused, ..old(self)@ }),
    {
        self.focused = focused;
    }

    pub fn branch(&self) -> (r: &str)
        ensures
            r@ == self@.branch,
    {
        self.branch.as_str()
    }

    pub fn set_branch(&mut self, branch: String)
        ensures
            final(self)@ == (StateView { branch: branch@, ..old(self)@ }),
    {
        self.branch = branch;
    }

    pub fn repo_name(&self) -> (r: &str)
        ensures
            r@ == self@.repo_name,
    {
        self.repo_name.as_str()
    }

    pub fn set_repo_name(&mut self, name: String)
        ensures
            final(self)@ == (StateView { repo_name: name@, ..old(self)@ }),
    {
        self.repo_name = name;
    }

    pub fn worktree_name(&self) -> (r: &str)
        ensures
            r@ == self@.worktree_name,
    {
        self.worktree_name.as_str()
    }

    pub fn set_worktree_name(&mut self, name: String)
        ensures
            final(self)@ == (StateView { worktree_name: name@, ..old(self)@ }),
    {
        self.worktree_name = name;
    }

    pub fn head_sha(&self) -> (r: &str)
        ensures
            r@ == self@.head_sha,
    {
        self.head_sha.as_str()
    }

    pub fn head_message(&self) -> (r: &str)
        ensures
            r@ == self@.head_message,
    {
        self.head_message.as_str()
    }

    pub fn set_head_info(&mut self, sha: String, message: String)
        ensures
            final(self)@ == (StateView { head_sha: sha@, head_message: message@, ..old(self)@ }),
    {
        self.head_sha = sha;
        self.head_message = message;
    }

    pub fn stash_count(&self) -> (r: usize)
        ensures
            r == self@.stash_count,
    {
        self.stash_count
    }

    pub fn set_stash_count(&mut self, count: usize)
        ensures
            final(self)@ == (StateView { stash_count: count, ..old(self)@ }),
    {
        self.stash_count = count;
    }

    pub fn ahead_behind(&self) -> (r: Option<(usize, usize)>)
        ensures
            r == self@.ahead_behind,
    {
        self.ahead_behind
    }

    pub fn set_ahead_behind(&mut self, ab: Option<(usize, usize)>)
        ensures
            final(self)@ == (StateView { ahead_behind: ab, ..old(self)@ }),
    {
        self.ahead_behind = ab;
    }

    pub fn repo_state(&self) -> (r: Option<&str>)
        ensures
            match r {
                Some(s) => self@.repo_state == Some(s@),
                None => self@.repo_state is None,
            },
    {
        match &self.repo_state {
            Some(s) => Some(s.as_str()),
            None => None,
        }
    }

    pub fn set_repo_state(&mut self, state: Option<String>)
        ensures
            final(self)@ == (StateView { repo_state: opt_string_view(state), ..old(self)@ }),
    {
        self.repo_state = state;
    }

    pub fn merge_base(&self) -> (r: Option<ObjectId>)
        ensures
            match r {
                Some(id) => self@.merge_base == Some(id.bytes@),
                None => self@.merge_base is None,
            },
    {
        match &self.merge_base {
            Some(id) => Some(id.duplicate()),
            None => None,
        }
    }

    pub fn base_branch(&self) -> (r: &str)
        ensures
            r@ == self@.base_branch,
    {
        self.base_branch.as_str()
    }

    pub fn set_merge_base(&mut self, mb: Option<ObjectId>, base_branch: String)
        ensures
            final(self)@ == (StateView {
                merge_base: match mb { Some(id) => Some(id.bytes@), None => None },
                base_branch: base_branch@,
                ..old(self)@
            }),
    {
        self.merge_base = mb;
        self.base_branch = base_branch;
    }
}

impl AppState {
    /// Seconds since the last refresh, at time `now`.
    pub fn last_refresh_secs_at(&self, now: u128) -> (r: u64)
        ensures
            r == (if crate::clock::elapsed(now, self@.last_refresh) / 1_000_000_000 > u64::MAX {
                u64::MAX as int
            } else {
                crate::clock::elapsed(now, self@.last_refresh) / 1_000_000_000
            }),
    {
        let e = now.saturating_sub(self.last_refresh);
        let secs = e / 1_000_000_000;
        if secs > u64::MAX as u128 { u64::MAX } else { secs as u64 }
    }

    /// Seconds since the last refresh, as of the moment the clock is read.
    pub fn last_refresh_secs(&self) -> (r: u64)
        ensures
            exists|now: u128| r == #[trigger] self@.refresh_secs_at(now),
    {
        let now = self.now();
        let r = self.last_refresh_secs_at(now);
        assert(r == self@.refresh_secs_at(now));
        r
    }

    /// The flash direction of `path` at time `now`, if it is flashing.
    pub fn flash_kind_at(&self, path: &str, now: u128) -> (r: Option<FlashKind>)
        ensures
            r == self@.flash_kind_at(path@, now),
    {
        let ghost recs = self@.flashes;
        let mut i = self.flash_times.len();
        assert(recs.take(i as int) =~= recs);
        while i > 0
            invariant
                i <= self.flash_times@.len(),
                recs == self.flash_times@.map_values(|r: FlashRecord| r@),
                flash_lookup(recs, path@) == flash_lookup(recs.take(i as int), path@),
            decreases i,
        {
            let rec = &self.flash_times[i - 1];
            proof {
                assert(recs.take(i as int).drop_last() =~= recs.take(i - 1));
                assert(recs.take(i as int).last() == rec@);
            }
            if crate::text::str_eq(rec.path.as_str(), path) {
                if now.saturating_sub(rec.at) < self.flash_duration {
                    return Some(rec.kind);
                } else {
                    return None;
                }
            }
            i = i - 1;
        }
        None
    }

    /// The flash direction of `path` if it is currently flashing. Whether an
    /// existing flash has expired depends on the clock.
    pub fn flash_kind(&self, path: &str) -> (r: Option<FlashKind>)
        ensures
            flash_lookup(self@.flashes, path@) is None ==> r is None,
            r matches Some(k) ==> flash_lookup(self@.flashes, path@) matches Some(f) && f.kind == k,
            exists|now: u128| r == #[trigger] self@.flash_kind_at(path@, now),
    {
        let now = self.now();
        let r = self.flash_kind_at(path, now);
        assert(r == self@.flash_kind_at(path@, now));
        r
    }

    /// Whether `path` is currently flashing.
    pub fn is_flashing(&self, path: &str) -> (r: bool)
        ensures
            flash_lookup(self@.flashes, path@) is None ==> !r,
            r ==> flash_lookup(self@.flashes, path@) is Some,
            exists|now: u128| r == (#[trigger] self@.flash_kind_at(path@, now)) is Some,
    {
        let k = self.flash_kind(path);
        let ghost now = choose|now: u128| k == #[trigger] self@.flash_kind_at(path@, now);
        assert(k.is_some() == (self@.flash_kind_at(path@, now) is Some));
        k.is_some()
    }

    /// Whether the pane border flashes at time `now`.
    pub fn is_border_flashing_at(&self, now: u128) -> (r: bool)
        ensures
            r == (match self@.border_flash_until {
                Some(until) => now < until,
                None => false,
            }),
    {
        match self.border_flash_until {
            Some(until) => now < until,
            None => false,
        }
    }

    /// Whether the pane border is currently in a flash state.
    pub fn is_border_flashing(&self) -> (r: bool)
        ensures
            self@.border_flash_until is None ==> !r,
            exists|now: u128| r == #[trigger] self@.border_flashing_at(now),
    {
        let now = self.now();
        let r = self.is_border_flashing_at(now);
        assert(r == self@.border_flashing_at(now));
        r
    }

    /// The status-line message at time `now`, unless it has expired.
    pub fn flash_message_at(&self, now: u128) -> (r: Option<&str>)
        ensures
            match self@.flash_message {
                Some(m) => if crate::clock::elapsed(now, m.1) < self@.flash_duration {
                    r matches Some(s) && s@ == m.0
                } else {
                    r is None
                },
                None => r is None,
            },
    {
        match &self.flash_message {
            Some((msg, at)) => {
                if now.saturating_sub(*at) < self.flash_duration {
                    Some(msg.as_str())
                } else {
                    None
                }
            },
            None => None,
        }
    }

    /// The current status-line message if it hasn't expired.
    pub fn flash_message(&self) -> (r: Option<&str>)
        ensures
            self@.flash_message is None ==> r is None,
            r matches Some(s) ==> self@.flash_message matches Some(m) && s@ == m.0,
            exists|now: u128| (match r { Some(s) => Some(s@), None => None::<Seq<char>> }) == #[trigger] self@.message_at(now),
    {
        let now = self.now();
        let r = self.flash_message_at(now);
        assert((match r { Some(s) => Some(s@), None => None::<Seq<char>> }) == self@.message_at(now));
        r
    }

    /// Sets a temporary message on the status line, stamped with the time.
    pub fn set_flash_message(&mut self, message: String)
        ensures
            final(self)@.flash_message matches Some(m) && m.0 == message@,
            final(self)@ == (StateView { flash_message: final(self)@.flash_message, ..old(self)@ }),
    {
        let now = self.now();
        self.flash_message = Some((message, now));
    }

    pub fn clear_flash_message(&mut self)
        ensures
            final(self)@ == (StateView { flash_message: None, ..old(self)@ }),
    {
        self.flash_message = None;
    }

    // -- Help overlay --

    pub fn is_help_visible(&self) -> (r: bool)
        ensures
            r == self@.help_visible,
    {
        self.help_visible
    }

    /// Shows the help popup; only one overlay is shown at a time, so the
    /// diff overlay closes and its scroll resets.
    pub fn show_help(&mut self)
        ensures
            final(self)@ == (StateView { help_visible: true, diff_overlay_visible: false, diff_scroll: 0, ..old(self)@ }),
    {
        self.help_visible = true;
        self.diff_overlay_visible = false;
        self.diff_scroll = 0;
    }

    pub fn hide_help(&mut self)
        ensures
            final(self)@ == (StateView { help_visible: false, ..old(self)@ }),
    {
        self.help_visible = false;
    }

    // -- Diff overlay --

    pub fn is_diff_overlay_visible(&self) -> (r: bool)
        ensures
            r == self@.diff_overlay_visible,
    {
        self.diff_overlay_visible
    }

    pub fn show_diff_overlay(&mut self)
        ensures
            final(self)@ == (StateView { diff_overlay_visible: true, ..old(self)@ }),
    {
        self.diff_overlay_visible = true;
    }

    /// Hides the diff overlay and resets its scroll.
    pub fn hide_diff_overlay(&mut self)
        ensures
            final(self)@ == (StateView { diff_overlay_visible: false, diff_scroll: 0, ..old(self)@ }),
    {
        self.diff_overlay_visible = false;
        self.diff_scroll = 0;
    }

    // -- Switch dialog --

    pub fn is_switch_dialog_visible(&self) -> (r: bool)
        ensures
            r == self@.switch_dialog is Some,
    {
        self.switch_dialog.is_some()
    }

    pub fn show_switch_dialog(&mut self, dialog: SwitchDialog)
        ensures
            final(self)@ == (StateView { switch_dialog: Some(dialog), ..old(self)@ }),
    {
        self.switch_dialog = Some(dialog);
    }

    pub fn hide_switch_dialog(&mut self)
        ensures
            final(self)@ == (StateView { switch_dialog: None, ..old(self)@ }),
    {
        self.switch_dialog = None;
    }

    /// The dialog, for key handling.
    pub fn switch_dialog_mut(&mut self) -> (r: Option<&mut SwitchDialog>)
        ensures
            r is Some <==> old(self)@.switch_dialog is Some,
            r matches Some(d) ==> old(self)@.switch_dialog == Some(*d)
                && final(self)@ == (StateView { switch_dialog: Some(*final(d)), ..old(self)@ }),
            r is None ==> final(self)@ == old(self)@,
    {
        self.switch_dialog.as_mut()
    }

    /// Takes the dialog out of the state, leaving none.
    pub(crate) fn take_switch_dialog(&mut self) -> (r: Option<SwitchDialog>)
        ensures
            r == old(self)@.switch_dialog,
            final(self)@ == (StateView { switch_dialog: None, ..old(self)@ }),
    {
        self.switch_dialog.take()
    }

    /// The dialog, for rendering.
    pub fn switch_dialog(&self) -> (r: Option<&SwitchDialog>)
        ensures
            match r {
                Some(d) => self@.switch_dialog == Some(*d),
                None => self@.switch_dialog is None,
            },
    {
        self.switch_dialog.as_ref()
    }

    // -- In-flight recompute --

    pub fn is_computing(&self) -> (r: bool)
        ensures
            r == self@.is_computing,
    {
        self.is_computing
    }

    pub fn set_computing(&mut self, value: bool)
        ensures
            final(self)@ == (StateView { is_computing: value, ..old(self)@ }),
    {
        self.is_computing = value;
    }

    // -- PR state --

    pub fn pr_state(&self) -> (r: &PrState)
        ensures
            *r == self@.pr,
    {
        &self.pr_state
    }

    /// Sets the PR info and clears the loading and error state.
    pub fn set_pr_info(&mut self, info: PrDisplayInfo)
        ensures
            final(self)@ == (StateView { pr: PrState { info: Some(info), error: None, loading: false }, ..old(self)@ }),
    {
        self.pr_state.info = Some(info);
        self.pr_state.error = None;
        self.pr_state.loading = false;
    }

    /// Sets a PR error and clears the loading state; the PR info stays.
    pub fn set_pr_error(&mut self, error: String)
        ensures
            final(self)@ == (StateView { pr: PrState { info: old(self)@.pr.info, error: Some(error), loading: false }, ..old(self)@ }),
    {
        self.pr_state.error = Some(error);
        self.pr_state.loading = false;
    }

    pub fn set_pr_loading(&mut self)
        ensures
            final(self)@ == (StateView { pr: PrState { info: old(self)@.pr.info, error: old(self)@.pr.error, loading: true }, ..old(self)@ }),
    {
        self.pr_state.loading = true;
    }

    /// Resets the PR state.
    pub fn clear_pr(&mut self)
        ensures
            final(self)@ == (StateView { pr: PrState { info: None, error: None, loading: false }, ..old(self)@ }),
    {
        self.pr_state = PrState::default();
    }

    // -- Viewports --

    pub fn list_viewport_height(&self) -> (r: usize)
        ensures
            r == self@.list_viewport_height,
    {
        self.list_viewport_height
    }

    pub fn set_list_viewport_height(&mut self, height: usize)
        ensures
            final(self)@ == (StateView { list_viewport_height: height, ..old(self)@ }),
    {
        self.list_viewport_height = height;
    }

    pub fn diff_viewport_height(&self) -> (r: usize)
        ensures
            r == self@.diff_viewport_height,
    {
        self.diff_viewport_height
    }

    pub fn set_diff_viewport_height(&mut self, height: usize)
        ensures
            final(self)@ == (StateView { diff_viewport_height: height, ..old(self)@ }),
    {
        self.diff_viewport_height = height;
    }

    pub fn set_view_mode(&mut self, mode: ViewMode)
        ensures
            final(self)@ == (StateView { view_mode: mode, ..old(self)@ }),
    {
        self.view_mode = mode;
    }
}

/// The selected row's identity and, for a file row, the file's path.
pub struct SelectionSnapshot {
    pub row_id: Option<RowId>,
    pub file_path: Option<String>,
}

impl View for SelectionSnapshot {
    type V = Snapshot;

    open spec fn view(&self) -> Snapshot {
        Snapshot { row: opt_row_view(self.row_id), path: opt_string_view(self.file_path) }
    }
}

/// The index of the first row whose identity is `id`.
pub fn position_of(rows: &Vec<VisibleRow>, id: &RowId) -> (r: Option<usize>)
    ensures
        match r {
            Some(i) => i as int == find_key(crate::rows::rows_view(rows@), id@),
            None => find_key(crate::rows::rows_view(rows@), id@) == -1,
        },
{
    let ghost rv = crate::rows::rows_view(rows@);
    let mut i: usize = 0;
    while i < rows.len()
        invariant
            i <= rows@.len(),
            rv == crate::rows::rows_view(rows@),
            find_key(rv.take(i as int), id@) == -1,
        decreases rows@.len() - i,
    {
        proof {
            assert(rv.take(i + 1).drop_last() =~= rv.take(i as int));
            assert(rv.take(i + 1).last() == rows@[i as int]@);
        }
        if rows[i].id().same(id) {
            proof {
                lemma_find_key_prefix(rv, id@, i + 1);
            }
            return Some(i);
        }
        i = i + 1;
    }
    assert(rv.take(i as int) =~= rv);
    None
}

/// A prefix that already holds the key answers like the whole list.
pub proof fn lemma_find_key_prefix(rows: Seq<RowView>, k: RowKey, n: int)
    requires
        0 <= n <= rows.len(),
        find_key(rows.take(n), k) >= 0,
    ensures
        find_key(rows, k) == find_key(rows.take(n), k),
    decreases rows.len() - n,
{
    if n < rows.len() {
        assert(rows.take(n + 1).drop_last() =~= rows.take(n));
        lemma_find_key_prefix(rows, k, n + 1);
    } else {
        assert(rows.take(n) =~= rows);
    }
}

pub proof fn lemma_find_key_bounds(rows: Seq<RowView>, k: RowKey)
    ensures
        -1 <= find_key(rows, k) < rows.len(),
        find_key(rows, k) >= 0 ==> rows[find_key(rows, k)].key() == k,
        find_key(rows, k) == -1 ==> forall|i: int| 0 <= i < rows.len() ==> rows[i].key() != k,
    decreases rows.len(),
{
    if rows.len() > 0 {
        lemma_find_key_bounds(rows.drop_last(), k);
        assert forall|i: int| 0 <= i < rows.len() - 1 implies rows[i] == rows.drop_last()[i] by {}
    }
}

impl AppState {
    /// The rows of the file list in the current mode.
    fn rebuild_visible_rows(&self) -> (r: Vec<VisibleRow>)
        ensures
            crate::rows::rows_view(r@) == self@.rows(),
    {
        match self.view_mode {
            ViewMode::Condensed => crate::rows::build_condensed_rows(&self.files),
            ViewMode::Tree => crate::tree::build_visible_rows(&self.files, &self.expanded_dirs),
            ViewMode::Normal => crate::rows::build_normal_rows(&self.files, &self.collapsed_groups),
        }
    }

    /// The rows the UI draws.
    pub fn visible_rows(&self) -> (r: Vec<VisibleRow>)
        ensures
            crate::rows::rows_view(r@) == self@.rows(),
    {
        self.rebuild_visible_rows()
    }

    fn selection_snapshot_from_rows(rows: &Vec<VisibleRow>, selected: usize) -> (r: SelectionSnapshot)
        ensures
            r@ == snapshot_of(crate::rows::rows_view(rows@), selected as int),
    {
        if selected < rows.len() {
            let row = &rows[selected];
            let id = row.id().duplicate();
            let path = match row.id() {
                RowId::File(p) => Some(p.clone()),
                _ => None,
            };
            SelectionSnapshot { row_id: Some(id), file_path: path }
        } else {
            SelectionSnapshot { row_id: None, file_path: None }
        }
    }

    fn selection_snapshot(&self) -> (r: SelectionSnapshot)
        ensures
            r@ == self@.snapshot(),
    {
        let rows = self.rebuild_visible_rows();
        Self::selection_snapshot_from_rows(&rows, self.selected)
    }

    /// The path of the selected file, or `None` when the selection is not on
    /// a file row.
    pub fn selected_file_path(&self) -> (r: Option<String>)
        ensures
            opt_string_view(r) == self@.snapshot().path,
    {
        self.selection_snapshot().file_path
    }

    pub fn selected_path(&self) -> (r: Option<String>)
        ensures
            opt_string_view(r) == self@.snapshot().path,
    {
        self.selected_file_path()
    }

    /// Moves the selection to `selected` among `rows`, clamped to the last
    /// row; with no rows the selection resets.
    fn set_selection_from_rows(&mut self, rows: &Vec<VisibleRow>, selected: usize)
        ensures
            final(self)@ == (StateView {
                selected: clamp_select(crate::rows::rows_view(rows@), selected as int).0,
                selected_row: clamp_select(crate::rows::rows_view(rows@), selected as int).1,
                ..old(self)@
            }),
    {
        if rows.len() == 0 {
            self.selected = 0;
            self.selected_row_id = None;
            return;
        }
        self.selected = if selected < rows.len() - 1 { selected } else { rows.len() - 1 };
        self.selected_row_id = Some(rows[self.selected].id().duplicate());
    }

    // -- Navigation --

    /// Selects the next row, staying on the last one. No-op with no rows.
    pub fn select_next(&mut self)
        ensures
            final(self)@ == next_post(old(self)@),
    {
        let rows = self.rebuild_visible_rows();
        if rows.len() > 0 {
            let target = self.selected.saturating_add(1);
            self.set_selection_from_rows(&rows, target);
        }
    }

    /// Selects the previous row, staying on the first one.
    pub fn select_previous(&mut self)
        ensures
            final(self)@ == previous_post(old(self)@),
    {
        let rows = self.rebuild_visible_rows();
        let target = self.selected.saturating_sub(1);
        self.set_selection_from_rows(&rows, target);
    }

    /// Selects the first row.
    pub fn select_first(&mut self)
        ensures
            final(self)@ == first_post(old(self)@),
    {
        let rows = self.rebuild_visible_rows();
        self.set_selection_from_rows(&rows, 0);
    }

    /// Selects the last row.
    pub fn select_last(&mut self)
        ensures
            final(self)@ == last_post(old(self)@),
    {
        let rows = self.rebuild_visible_rows();
        let last = rows.len().saturating_sub(1);
        self.set_selection_from_rows(&rows, last);
    }

    /// Moves the selection by `delta` rows (negative = up), clamped to the
    /// rows. No-op with no rows.
    pub fn select_page(&mut self, delta: isize)
        ensures
            final(self)@ == page_post(old(self)@, delta as int),
    {
        let rows = self.rebuild_visible_rows();
        if rows.len() == 0 {
            return;
        }
        let sum: i128 = self.selected as i128 + delta as i128;
        let target: usize = if sum < 0 {
            0
        } else if sum >= rows.len() as i128 {
            rows.len() - 1
        } else {
            sum as usize
        };
        self.set_selection_from_rows(&rows, target);
    }
}

/// The directories that hold a file: the joins of every proper prefix of
/// its path segments ("src", "src/ui" for "src/ui/mod.rs").
pub open spec fn ancestors(path: Seq<char>) -> Set<Seq<char>> {
    let segs = crate::text::split_segments(path);
    Set::new(|d: Seq<char>| exists|k: int| 1 <= k < segs.len() && d == crate::tree::join_all(segs.take(k)))
}

/// The expanded directories after a change of mode or file list: in Tree
/// mode the directories above the selected file are opened.
pub open spec fn expand_for(m: ViewMode, exp: Set<Seq<char>>, snap: Snapshot) -> Set<Seq<char>> {
    if m == ViewMode::Tree && snap.path is Some {
        exp.union(ancestors(snap.path->0))
    } else {
        exp
    }
}

/// The state with the selection moved to `target` among its rows.
pub open spec fn select_post(s: StateView, target: int) -> StateView {
    let sel = clamp_select(s.rows(), target);
    StateView { selected: sel.0, selected_row: sel.1, ..s }
}

/// The state after `select_next`: the next row, staying on the last one;
/// unchanged with no rows.
pub open spec fn next_post(s: StateView) -> StateView {
    if s.rows().len() == 0 { s } else { select_post(s, s.selected + 1) }
}

/// The state after `select_previous`: the previous row, staying on the
/// first one.
pub open spec fn previous_post(s: StateView) -> StateView {
    select_post(s, if s.selected > 0 { s.selected - 1 } else { 0 })
}

pub open spec fn first_post(s: StateView) -> StateView {
    select_post(s, 0)
}

pub open spec fn last_post(s: StateView) -> StateView {
    select_post(s, s.rows().len() - 1)
}

/// The state after `select_page(delta)`: the selection moved by `delta`
/// rows, clamped to the rows; unchanged with no rows.
pub open spec fn page_post(s: StateView, delta: int) -> StateView {
    if s.rows().len() == 0 {
        s
    } else {
        select_post(s, if s.selected + delta < 0 { 0 } else { s.selected + delta })
    }
}

/// Whether the selection is on a row with the given kind of identity.
pub open spec fn selected_key(s: StateView) -> Option<RowKey> {
    if s.selected < s.rows().len() { Some(s.rows()[s.selected as int].key()) } else { None }
}

/// The result of `toggle_selected_directory`: whether a directory row was
/// selected, and the state after opening or closing it with the selection
/// kept on it.
pub open spec fn toggle_directory_post(s: StateView) -> (bool, StateView) {
    match selected_key(s) {
        Some(RowKey::Directory(p)) => {
            let exp = if s.expanded.contains(p) { s.expanded.remove(p) } else { s.expanded.insert(p) };
            let rows = rows_for(s.view_mode, s.files, exp, s.collapsed);
            let i = find_key(rows, RowKey::Directory(p));
            let sel = clamp_select(rows, if i >= 0 { i } else { s.selected as int });
            (true, StateView { expanded: exp, selected: sel.0, selected_row: sel.1, ..s })
        },
        _ => (false, s),
    }
}

/// The result of `toggle_selected_group`: whether a group heading was
/// selected, and the state after collapsing or expanding that group with
/// the heading kept selected.
pub open spec fn toggle_group_post(s: StateView) -> (bool, StateView) {
    match selected_key(s) {
        Some(RowKey::Group(g)) => {
            let col = if s.collapsed.contains(g) { s.collapsed.remove(g) } else { s.collapsed.insert(g) };
            let rows = rows_for(s.view_mode, s.files, s.expanded, col);
            let i = find_key(rows, RowKey::Group(g));
            let sel = clamp_select(rows, if i >= 0 { i } else { s.selected as int });
            (true, StateView { collapsed: col, selected: sel.0, selected_row: sel.1, ..s })
        },
        _ => (false, s),
    }
}

/// The state after `cycle_view_mode`.
pub open spec fn cycle_post(s: StateView) -> StateView {
    let snap = s.snapshot();
    let m = next_mode(s.view_mode);
    let exp = expand_for(m, s.expanded, snap);
    let sel = restore_for(m, rows_for(m, s.files, exp, s.collapsed), s.files, snap, s.selected as int);
    StateView { view_mode: m, scroll_offset: 0, expanded: exp, selected: sel.0, selected_row: sel.1, ..s }
}

/// The state after `update_files` at time `now`.
pub open spec fn update_post(s: StateView, new_files: Seq<FileView>, now: u128) -> StateView {
    let snap = s.snapshot();
    let flashes = if s.initial_seed_done {
        flash_retain(flash_changes(s.flashes, s.files, new_files, now), now, s.flash_duration)
    } else {
        s.flashes
    };
    let exp = expand_for(s.view_mode, s.expanded, snap);
    let sel = restore_for(s.view_mode, rows_for(s.view_mode, new_files, exp, s.collapsed), new_files, snap, s.selected as int);
    StateView {
        files: new_files,
        flashes,
        initial_seed_done: true,
        refresh_count: if s.refresh_count < usize::MAX { (s.refresh_count + 1) as usize } else { usize::MAX },
        last_refresh: now,
        expanded: exp,
        selected: sel.0,
        selected_row: sel.1,
        ..s
    }
}

/// The state after `reset_for_switch` at time `now`.
pub open spec fn reset_post(
    s: StateView,
    files: Seq<FileView>,
    branch: Seq<char>,
    repo_name: Seq<char>,
    worktree_name: Seq<char>,
    now: u128,
) -> StateView {
    StateView {
        files,
        selected: 0,
        expanded: Set::empty(),
        collapsed: Set::empty(),
        selected_row: None,
        refresh_count: 0,
        last_refresh: now,
        flashes: Seq::empty(),
        initial_seed_done: false,
        branch,
        repo_name,
        worktree_name,
        head_sha: Seq::empty(),
        head_message: Seq::empty(),
        stash_count: 0,
        ahead_behind: None,
        repo_state: None,
        is_computing: false,
        pr: PrState { info: None, error: None, loading: false },
        border_flash_until: Some(if now + s.flash_duration > u128::MAX { u128::MAX } else { (now + s.flash_duration) as u128 }),
        merge_base: None,
        base_branch: Seq::empty(),
        scroll_offset: 0,
        diff: None,
        diff_overlay_visible: false,
        diff_scroll: 0,
        diff_viewport_height: 0,
        switch_dialog: None,
        pending_diff_token: s.pending_diff_token.wrapping_add(1),
        ..s
    }
}

fn find_file_exec(files: &Vec<FileEntry>, path: &String) -> (r: Option<usize>)
    ensures
        match r {
            Some(i) => i as int == find_file(crate::git::files_view(files@), path@),
            None => find_file(crate::git::files_view(files@), path@) == -1,
        },
{
    let ghost fv = crate::git::files_view(files@);
    let mut i: usize = 0;
    while i < files.len()
        invariant
            i <= files@.len(),
            fv == crate::git::files_view(files@),
            find_file(fv.take(i as int), path@) == -1,
        decreases files@.len() - i,
    {
        proof {
            assert(fv.take(i + 1).drop_last() =~= fv.take(i as int));
            assert(fv.take(i + 1).last() == files@[i as int]@);
        }
        if files[i].path == *path {
            proof {
                lemma_find_file_prefix(fv, path@, i + 1);
            }
            return Some(i);
        }
        i = i + 1;
    }
    assert(fv.take(i as int) =~= fv);
    None
}

pub proof fn lemma_find_file_prefix(files: Seq<FileView>, p: Seq<char>, n: int)
    requires
        0 <= n <= files.len(),
        find_file(files.take(n), p) >= 0,
    ensures
        find_file(files, p) == find_file(files.take(n), p),
    decreases files.len() - n,
{
    if n < files.len() {
        assert(files.take(n + 1).drop_last() =~= files.take(n));
        lemma_find_file_prefix(files, p, n + 1);
    } else {
        assert(files.take(n) =~= files);
    }
}

pub proof fn lemma_find_file_bounds(files: Seq<FileView>, p: Seq<char>)
    ensures
        -1 <= find_file(files, p) < files.len(),
        find_file(files, p) >= 0 ==> files[find_file(files, p)].path == p,
        find_file(files, p) == -1 ==> forall|i: int| 0 <= i < files.len() ==> files[i].path != p,
    decreases files.len(),
{
    if files.len() > 0 {
        lemma_find_file_bounds(files.drop_last(), p);
        assert forall|i: int| 0 <= i < files.len() - 1 implies files[i] == files.drop_last()[i] by {}
    }
}

impl AppState {
    fn restore_condensed_selection(&mut self, path: Option<String>)
        ensures
            final(self)@ == (StateView {
                selected: restore_condensed(old(self)@.files, opt_string_view(path), old(self)@.selected as int).0,
                selected_row: restore_condensed(old(self)@.files, opt_string_view(path), old(self)@.selected as int).1,
                ..old(self)@
            }),
    {
        if self.files.len() == 0 {
            self.selected = 0;
            self.selected_row_id = None;
            return;
        }
        let clamped = if self.selected < self.files.len() - 1 { self.selected } else { self.files.len() - 1 };
        self.selected = match &path {
            Some(p) => match find_file_exec(&self.files, p) {
                Some(i) => i,
                None => clamped,
            },
            None => clamped,
        };
        proof {
            lemma_find_file_bounds(old(self)@.files, match opt_string_view(path) { Some(p) => p, None => Seq::empty() });
        }
        self.selected_row_id = Some(RowId::File(self.files[self.selected].path.clone()));
    }

    fn restore_selection_by_id_or_path(&mut self, snap: SelectionSnapshot)
        ensures
            final(self)@ == (StateView {
                selected: restore_by_id(old(self)@.rows(), snap@, old(self)@.selected as int).0,
                selected_row: restore_by_id(old(self)@.rows(), snap@, old(self)@.selected as int).1,
                ..old(self)@
            }),
    {
        let rows = self.rebuild_visible_rows();
        if let Some(id) = &snap.row_id {
            if let Some(index) = position_of(&rows, id) {
                self.set_selection_from_rows(&rows, index);
                return;
            }
        }
        if let Some(path) = &snap.file_path {
            let file_id = RowId::File(path.clone());
            if let Some(index) = position_of(&rows, &file_id) {
                self.set_selection_from_rows(&rows, index);
                return;
            }
        }
        let sel = self.selected;
        self.set_selection_from_rows(&rows, sel);
    }

    fn restore_selection(&mut self, snap: SelectionSnapshot)
        ensures
            final(self)@ == (StateView {
                selected: restore_for(old(self)@.view_mode, old(self)@.rows(), old(self)@.files, snap@, old(self)@.selected as int).0,
                selected_row: restore_for(old(self)@.view_mode, old(self)@.rows(), old(self)@.files, snap@, old(self)@.selected as int).1,
                ..old(self)@
            }),
    {
        match self.view_mode {
            ViewMode::Condensed => self.restore_condensed_selection(snap.file_path),
            ViewMode::Tree => self.restore_selection_by_id_or_path(snap),
            ViewMode::Normal => self.restore_selection_by_id_or_path(snap),
        }
    }

    /// Opens every directory above `path`.
    fn expand_ancestors_for_file(&mut self, path: &str)
        ensures
            final(self)@ == (StateView { expanded: old(self)@.expanded.union(ancestors(path@)), ..old(self)@ }),
    {
        let parts = crate::text::split_path(path);
        let ghost segs = crate::text::split_segments(path@);
        if parts.len() <= 1 {
            assert(ancestors(path@) =~= Set::<Seq<char>>::empty());
            assert(self@.expanded.union(ancestors(path@)) =~= self@.expanded);
            return;
        }
        let n = parts.len() - 1;
        let mut current = String::new();
        proof {
            let a0 = Set::new(|d: Seq<char>| exists|j: int| 1 <= j <= 0 && d == crate::tree::join_all(segs.take(j)));
            assert(a0 =~= Set::<Seq<char>>::empty());
            assert(old(self)@.expanded.union(a0) =~= old(self)@.expanded);
        }
        for k in 0..n
            invariant
                n == parts@.len() - 1,
                crate::tree::strings_view(parts@) == segs,
                k > 0 ==> current@ == crate::tree::join_all(segs.take(k as int)),
                k == 0 ==> current@ == Seq::<char>::empty(),
                self@ == (StateView {
                    expanded: old(self)@.expanded.union(Set::new(|d: Seq<char>| exists|j: int| 1 <= j <= k && d == crate::tree::join_all(segs.take(j)))),
                    ..old(self)@
                }),
        {
            if k > 0 {
                crate::text::push_char(&mut current, '/');
            }
            crate::text::push_str(&mut current, parts[k].as_str());
            proof {
                assert(parts@[k as int]@ == segs[k as int]);
                assert(segs.take(k + 1) =~= segs.take(k as int).push(segs[k as int]));
                if k > 0 {
                    crate::tree::lemma_join_push(segs.take(k as int), segs[k as int]);
                } else {
                    assert(segs.take(1) =~= seq![segs[0]]);
                }
                assert(current@ =~= crate::tree::join_all(segs.take(k + 1)));
            }
            let ghost before = self@;
            self.expanded_dirs.insert(current.clone());
            proof {
                let a = Set::new(|d: Seq<char>| exists|j: int| 1 <= j <= k && d == crate::tree::join_all(segs.take(j)));
                let b = Set::new(|d: Seq<char>| exists|j: int| 1 <= j <= k + 1 && d == crate::tree::join_all(segs.take(j)));
                assert(b =~= a.insert(current@)) by {
                    assert forall|d: Seq<char>| b.contains(d) implies a.insert(current@).contains(d) by {
                        let j = choose|j: int| 1 <= j <= k + 1 && d == crate::tree::join_all(segs.take(j));
                        if j <= k {
                            assert(a.contains(d));
                        }
                    }
                    assert forall|d: Seq<char>| a.insert(current@).contains(d) implies b.contains(d) by {
                        if d == current@ {
                            assert(1 <= k + 1 <= k + 1 && d == crate::tree::join_all(segs.take(k + 1)));
                        } else {
                            let j = choose|j: int| 1 <= j <= k && d == crate::tree::join_all(segs.take(j));
                            assert(1 <= j <= k + 1);
                        }
                    }
                }
                assert(old(self)@.expanded.union(b) =~= old(self)@.expanded.union(a).insert(current@));
                assert(self@.expanded == old(self)@.expanded.union(b));
            }
        }
        proof {
            let a = Set::new(|d: Seq<char>| exists|j: int| 1 <= j <= n && d == crate::tree::join_all(segs.take(j)));
            assert(a =~= ancestors(path@)) by {
                assert forall|d: Seq<char>| a.contains(d) implies ancestors(path@).contains(d) by {
                    let j = choose|j: int| 1 <= j <= n && d == crate::tree::join_all(segs.take(j));
                    assert(1 <= j < segs.len());
                }
                assert forall|d: Seq<char>| ancestors(path@).contains(d) implies a.contains(d) by {
                    let j = choose|j: int| 1 <= j < segs.len() && d == crate::tree::join_all(segs.take(j));
                    assert(1 <= j <= n);
                }
            }
        }
    }

    /// Cycles the view mode (Normal, Condensed, Tree), keeping the selected
    /// row or file where possible; entering Tree mode opens the directories
    /// above the selected file.
    pub fn cycle_view_mode(&mut self)
        ensures
            final(self)@ == cycle_post(old(self)@),
    {
        let selection = self.selection_snapshot();
        self.view_mode = match self.view_mode {
            ViewMode::Normal => ViewMode::Condensed,
            ViewMode::Condensed => ViewMode::Tree,
            ViewMode::Tree => ViewMode::Normal,
        };
        self.scroll_offset = 0;
        if self.view_mode == ViewMode::Tree {
            if let Some(path) = &selection.file_path {
                self.expand_ancestors_for_file(path.as_str());
            }
        }
        self.restore_selection(selection);
    }

    /// In Tree mode, opens or closes the selected directory and keeps it
    /// selected. Returns whether a directory row was selected.
    pub fn toggle_selected_directory(&mut self) -> (r: bool)
        ensures
            (r, final(self)@) == toggle_directory_post(old(self)@),
    {
        let rows = self.rebuild_visible_rows();
        if self.selected >= rows.len() {
            return false;
        }
        let path = match rows[self.selected].id() {
            RowId::Directory(p) => p.clone(),
            _ => {
                return false;
            },
        };
        if !self.expanded_dirs.insert(path.clone()) {
            self.expanded_dirs.remove(path.as_str());
        }
        let rows = self.rebuild_visible_rows();
        let selected_directory = RowId::Directory(path);
        match position_of(&rows, &selected_directory) {
            Some(index) => self.set_selection_from_rows(&rows, index),
            None => {
                let sel = self.selected;
                self.set_selection_from_rows(&rows, sel);
            },
        }
        proof {
            let p = old(self)@.rows()[old(self)@.selected as int].key()->Directory_0;
            if old(self)@.expanded.contains(p) {
                assert(old(self)@.expanded.insert(p).remove(p) =~= old(self)@.expanded.remove(p));
            }
        }
        true
    }

    /// In Normal mode, collapses or expands the group whose heading is
    /// selected and keeps the heading selected. Returns whether a heading
    /// was selected.
    pub fn toggle_selected_group(&mut self) -> (r: bool)
        ensures
            (r, final(self)@) == toggle_group_post(old(self)@),
    {
        let rows = self.rebuild_visible_rows();
        if self.selected >= rows.len() {
            return false;
        }
        let group = match rows[self.selected].id() {
            RowId::Group(g) => *g,
            _ => {
                return false;
            },
        };
        if !self.collapsed_groups.insert(group) {
            self.collapsed_groups.remove(group);
        }
        let rows = self.rebuild_visible_rows();
        let selected_header = RowId::Group(group);
        match position_of(&rows, &selected_header) {
            Some(index) => self.set_selection_from_rows(&rows, index),
            None => {
                let sel = self.selected;
                self.set_selection_from_rows(&rows, sel);
            },
        }
        proof {
            let g = old(self)@.rows()[old(self)@.selected as int].key()->Group_0;
            if old(self)@.collapsed.contains(g) {
                assert(old(self)@.collapsed.insert(g).remove(g) =~= old(self)@.collapsed.remove(g));
            }
        }
        true
    }
}

pub open spec fn flashes_view(v: Seq<FlashRecord>) -> Seq<FlashView> {
    v.map_values(|r: FlashRecord| r@)
}

/// The statistics of the last entry of `files` with path `path`.
fn old_stats_exec(files: &Vec<FileEntry>, path: &String) -> (r: Option<(usize, usize)>)
    ensures
        r == old_stats(crate::git::files_view(files@), path@),
{
    let ghost fv = crate::git::files_view(files@);
    let mut i = files.len();
    assert(fv.take(i as int) =~= fv);
    while i > 0
        invariant
            i <= files@.len(),
            fv == crate::git::files_view(files@),
            old_stats(fv, path@) == old_stats(fv.take(i as int), path@),
        decreases i,
    {
        proof {
            assert(fv.take(i as int).drop_last() =~= fv.take(i - 1));
            assert(fv.take(i as int).last() == files@[i - 1]@);
        }
        let o = &files[i - 1];
        if o.path == *path {
            return Some((o.insertions, o.deletions));
        }
        i = i - 1;
    }
    None
}

/// How `f`'s row flashes after a refresh from `old_files`.
fn change_kind_exec(old_files: &Vec<FileEntry>, f: &FileEntry) -> (r: Option<FlashKind>)
    ensures
        r == change_kind(crate::git::files_view(old_files@), f@),
{
    match old_stats_exec(old_files, &f.path) {
        Some((oi, od)) => {
            if oi == f.insertions && od == f.deletions {
                None
            } else if f.insertions as u128 + od as u128 >= oi as u128 + f.deletions as u128 {
                Some(FlashKind::Added)
            } else {
                Some(FlashKind::Removed)
            }
        },
        None => {
            if f.insertions >= f.deletions {
                Some(FlashKind::Added)
            } else {
                Some(FlashKind::Removed)
            }
        },
    }
}

/// Records a change of `path` at `at`, replacing any earlier record of it.
fn flash_insert_exec(recs: &mut Vec<FlashRecord>, path: &String, at: u128, kind: FlashKind)
    ensures
        flashes_view(final(recs)@) == flash_insert(flashes_view(old(recs)@), path@, at, kind),
{
    let ghost pv = path@;
    let ghost pred = |r: FlashView| r.path != pv;
    let ghost all = flashes_view(recs@);
    let mut kept: Vec<FlashRecord> = Vec::new();
    for i in 0..recs.len()
        invariant
            pv == path@,
            all == flashes_view(recs@),
            pred == (|r: FlashView| r.path != pv),
            flashes_view(kept@) == all.take(i as int).filter(pred),
    {
        proof {
            all.take(i as int).lemma_filter_push(all[i as int], pred);
            assert(all.take(i + 1) =~= all.take(i as int).push(all[i as int]));
        }
        if recs[i].path != *path {
            let ghost before = kept@;
            kept.push(recs[i].clone_record());
            assert(flashes_view(kept@) =~= flashes_view(before).push(all[i as int]));
        }
    }
    proof {
        assert(all.take(all.len() as int) =~= all);
    }
    let rec = FlashRecord { path: path.clone(), at, kind };
    let ghost before = kept@;
    kept.push(rec);
    assert(flashes_view(kept@) =~= flashes_view(before).push(rec@));
    *recs = kept;
}

/// Drops the records whose flash has expired at `now`.
fn flash_retain_exec(recs: &mut Vec<FlashRecord>, now: u128, dur: u128)
    ensures
        flashes_view(final(recs)@) == flash_retain(flashes_view(old(recs)@), now, dur),
{
    let ghost pred = |r: FlashView| crate::clock::elapsed(now, r.at) < dur;
    let ghost all = flashes_view(recs@);
    let mut kept: Vec<FlashRecord> = Vec::new();
    for i in 0..recs.len()
        invariant
            all == flashes_view(recs@),
            pred == (|r: FlashView| crate::clock::elapsed(now, r.at) < dur),
            flashes_view(kept@) == all.take(i as int).filter(pred),
    {
        proof {
            all.take(i as int).lemma_filter_push(all[i as int], pred);
            assert(all.take(i + 1) =~= all.take(i as int).push(all[i as int]));
        }
        if now.saturating_sub(recs[i].at) < dur {
            let ghost before = kept@;
            kept.push(recs[i].clone_record());
            assert(flashes_view(kept@) =~= flashes_view(before).push(all[i as int]));
        }
    }
    proof {
        assert(all.take(all.len() as int) =~= all);
    }
    *recs = kept;
}

impl FlashRecord {
    pub fn clone_record(&self) -> (r: FlashRecord)
        ensures
            r@ == self@,
    {
        FlashRecord { path: self.path.clone(), at: self.at, kind: self.kind }
    }
}

impl AppState {
    /// Replaces the file list with a fresh git status at time `now`: after
    /// the first refresh since construction or a worktree switch, files
    /// whose statistics changed start flashing; the selection stays on the
    /// same row or file where possible.
    pub fn update_files_at(&mut self, new_files: Vec<FileEntry>, now: u128)
        ensures
            final(self)@ == update_post(old(self)@, crate::git::files_view(new_files@), now),
    {
        let selection = self.selection_snapshot();
        if self.initial_seed_done {
            let ghost nv = crate::git::files_view(new_files@);
            let ghost ov = self@.files;
            let ghost start = self@.flashes;
            for j in 0..new_files.len()
                invariant
                    nv == crate::git::files_view(new_files@),
                    ov == crate::git::files_view(self.files@),
                    flashes_view(self.flash_times@) == flash_changes(start, ov, nv.take(j as int), now),
                    self@ == (StateView { flashes: self@.flashes, ..old(self)@ }),
                    start == old(self)@.flashes,
                    ov == old(self)@.files,
            {
                proof {
                    assert(nv.take(j + 1).drop_last() =~= nv.take(j as int));
                    assert(nv.take(j + 1).last() == new_files@[j as int]@);
                }
                let f = &new_files[j];
                match change_kind_exec(&self.files, f) {
                    Some(kind) => flash_insert_exec(&mut self.flash_times, &f.path, now, kind),
                    None => {},
                }
            }
            proof {
                assert(nv.take(nv.len() as int) =~= nv);
            }
            let dur = self.flash_duration;
            flash_retain_exec(&mut self.flash_times, now, dur);
        } else {
            self.initial_seed_done = true;
        }
        let ghost flashes_done = self@.flashes;
        assert(flashes_done == update_post(old(self)@, crate::git::files_view(new_files@), now).flashes);
        self.files = new_files;
        self.refresh_count = self.refresh_count.saturating_add(1);
        self.last_refresh = now;
        let ghost snap = selection@;
        assert(snap == old(self)@.snapshot());
        if self.view_mode == ViewMode::Tree {
            if let Some(path) = &selection.file_path {
                self.expand_ancestors_for_file(path.as_str());
            }
        }
        assert(self@.expanded == expand_for(old(self)@.view_mode, old(self)@.expanded, snap));
        assert(self@.flashes == flashes_done);
        self.restore_selection(selection);
    }
    /// Replaces the file list with a fresh git status (see
    /// [`AppState::update_files_at`]), stamped with the clock.
    pub fn update_files(&mut self, new_files: Vec<FileEntry>)
        ensures
            exists|now: u128| final(self)@ == update_post(old(self)@, crate::git::files_view(new_files@), now),
    {
        let now = self.now();
        self.update_files_at(new_files, now);
    }

    /// Resets the state for a worktree switch at time `now`.
    pub fn reset_for_switch_at(&mut self, files: Vec<FileEntry>, branch: String, repo_name: String, worktree_name: String, now: u128)
        ensures
            final(self)@ == reset_post(old(self)@, crate::git::files_view(files@), branch@, repo_name@, worktree_name@, now),
    {
        self.files = files;
        self.selected = 0;
        self.expanded_dirs.clear();
        self.collapsed_groups.clear();
        self.selected_row_id = None;
        self.refresh_count = 0;
        self.last_refresh = now;
        self.flash_times = Vec::new();
        self.initial_seed_done = false;
        self.branch = branch;
        self.repo_name = repo_name;
        self.worktree_name = worktree_name;
        self.head_sha = String::new();
        self.head_message = String::new();
        self.stash_count = 0;
        self.ahead_behind = None;
        self.repo_state = None;
        self.is_computing = false;
        self.pr_state = PrState::default();
        self.border_flash_until = Some(now.saturating_add(self.flash_duration));
        self.merge_base = None;
        self.base_branch = String::new();
        self.scroll_offset = 0;
        self.current_diff = None;
        self.diff_overlay_visible = false;
        self.diff_scroll = 0;
        self.diff_viewport_height = 0;
        self.switch_dialog = None;
        self.pending_diff_token = self.pending_diff_token.wrapping_add(1);
        assert(self@.flashes =~= Seq::<FlashView>::empty());
    }

    /// Resets the state for a worktree switch: clears selection, expansion,
    /// the diff, flashes and branch metadata, installs the new file list and
    /// names, starts the border flash, and invalidates pending diffs.
    pub fn reset_for_switch(&mut self, files: Vec<FileEntry>, branch: String, repo_name: String, worktree_name: String)
        ensures
            exists|now: u128| final(self)@ == reset_post(old(self)@, crate::git::files_view(files@), branch@, repo_name@, worktree_name@, now),
    {
        let now = self.now();
        self.reset_for_switch_at(files, branch, repo_name, worktree_name, now);
    }
}

/// `n` capped at `usize::MAX`.
pub open spec fn cap_usize(n: int) -> usize {
    if n > usize::MAX { usize::MAX } else if n < 0 { 0 } else { n as usize }
}

impl StateView {
    /// Logical line count of the current diff (zero without one), capped at
    /// `usize::MAX`.
    pub open spec fn diff_total_lines(self) -> usize {
        match self.diff {
            Some(d) => cap_usize(crate::git::diff_line_count(d.hunks)),
            None => 0,
        }
    }

    /// The largest scroll offset that still fills the viewport.
    pub open spec fn diff_max_scroll(self) -> usize {
        cap_usize(self.diff_total_lines() - self.diff_viewport_height)
    }
}

pub proof fn lemma_diff_line_count_nonneg(hunks: Seq<DiffHunk>)
    ensures
        crate::git::diff_line_count(hunks) >= 0,
    decreases hunks.len(),
{
    if hunks.len() > 0 {
        lemma_diff_line_count_nonneg(hunks.drop_last());
    }
}

impl AppState {
    /// The diff shown in the overlay.
    pub fn expanded_diff(&self) -> (r: Option<&FileDiff>)
        ensures
            match r {
                Some(d) => self@.diff matches Some(v) && v.hunks == d.hunks@,
                None => self@.diff is None,
            },
    {
        match &self.current_diff {
            Some(d) => Some(&d.diff),
            None => None,
        }
    }

    /// The path of the file whose diff is shown.
    pub fn expanded_diff_path(&self) -> (r: Option<&str>)
        ensures
            match r {
                Some(p) => self@.diff matches Some(v) && v.path == p@,
                None => self@.diff is None,
            },
    {
        match &self.current_diff {
            Some(d) => Some(d.path.as_str()),
            None => None,
        }
    }

    /// Insertions and deletions of the file whose diff is shown.
    pub fn expanded_diff_stats(&self) -> (r: Option<(usize, usize)>)
        ensures
            match self@.diff {
                Some(v) => r == Some((v.insertions, v.deletions)),
                None => r is None,
            },
    {
        match &self.current_diff {
            Some(d) => Some((d.insertions, d.deletions)),
            None => None,
        }
    }

    pub fn diff_scroll(&self) -> (r: usize)
        ensures
            r == self@.diff_scroll,
    {
        self.diff_scroll
    }

    /// Scrolls the diff down one line.
    pub fn scroll_diff_down(&mut self)
        ensures
            final(self)@ == (StateView { diff_scroll: cap_usize(old(self)@.diff_scroll + 1), ..old(self)@ }),
    {
        self.diff_scroll = self.diff_scroll.saturating_add(1);
    }

    /// Scrolls the diff up one line, stopping at the top.
    pub fn scroll_diff_up(&mut self)
        ensures
            final(self)@ == (StateView { diff_scroll: cap_usize(old(self)@.diff_scroll - 1), ..old(self)@ }),
    {
        self.diff_scroll = self.diff_scroll.saturating_sub(1);
    }

    /// One header line per hunk plus each hunk's lines; zero without a diff.
    pub fn diff_total_lines(&self) -> (r: usize)
        ensures
            r == self@.diff_total_lines(),
    {
        match &self.current_diff {
            Some(d) => {
                let hunks = &d.diff.hunks;
                let mut total: usize = 0;
                for i in 0..hunks.len()
                    invariant
                        total == cap_usize(crate::git::diff_line_count(hunks@.take(i as int))),
                {
                    proof {
                        assert(hunks@.take(i + 1).drop_last() =~= hunks@.take(i as int));
                        lemma_diff_line_count_nonneg(hunks@.take(i as int));
                    }
                    total = total.saturating_add(1).saturating_add(hunks[i].lines.len());
                }
                assert(hunks@.take(hunks@.len() as int) =~= hunks@);
                total
            },
            None => 0,
        }
    }

    fn diff_max_scroll(&self) -> (r: usize)
        ensures
            r == self@.diff_max_scroll(),
    {
        self.diff_total_lines().saturating_sub(self.diff_viewport_height)
    }

    pub fn scroll_diff_to_top(&mut self)
        ensures
            final(self)@ == (StateView { diff_scroll: 0, ..old(self)@ }),
    {
        self.diff_scroll = 0;
    }

    /// Scrolls so the last lines of the diff fill the viewport.
    pub fn scroll_diff_to_bottom(&mut self)
        ensures
            final(self)@ == (StateView { diff_scroll: old(self)@.diff_max_scroll(), ..old(self)@ }),
    {
        self.diff_scroll = self.diff_max_scroll();
    }

    /// Scrolls the diff by `delta` lines (negative = up), clamped to
    /// `[0, diff_max_scroll]`.
    pub fn scroll_diff_page(&mut self, delta: isize)
        ensures
            final(self)@ == (StateView {
                diff_scroll: ({
                    let t = old(self)@.diff_scroll + delta;
                    let t = if t < 0 { 0 } else { t };
                    if t < old(self)@.diff_max_scroll() { t as usize } else { old(self)@.diff_max_scroll() }
                }),
                ..old(self)@
            }),
    {
        let sum: i128 = self.diff_scroll as i128 + delta as i128;
        let max = self.diff_max_scroll();
        self.diff_scroll = if sum < 0 {
            0
        } else if sum < max as i128 {
            sum as usize
        } else {
            max
        };
    }

    /// Bumps the pending-diff token and returns the new value.
    pub fn advance_pending_diff_token(&mut self) -> (r: u64)
        ensures
            r == old(self)@.pending_diff_token.wrapping_add(1),
            final(self)@ == (StateView { pending_diff_token: r, ..old(self)@ }),
    {
        self.pending_diff_token = self.pending_diff_token.wrapping_add(1);
        self.pending_diff_token
    }

    pub fn pending_diff_token(&self) -> (r: u64)
        ensures
            r == self@.pending_diff_token,
    {
        self.pending_diff_token
    }

    /// Shows `diff` for `path`, with the statistics of the first listed file
    /// with that path (zero when it is not listed), scrolled to the top.
    pub fn set_expanded_diff(&mut self, path: String, diff: FileDiff)
        ensures
            final(self)@ == with_diff(old(self)@, path@, diff.hunks@),
    {
        proof {
            lemma_find_file_bounds(old(self)@.files, path@);
        }
        let (insertions, deletions) = match find_file_exec(&self.files, &path) {
            Some(i) => (self.files[i].insertions, self.files[i].deletions),
            None => (0, 0),
        };
        self.current_diff = Some(ExpandedDiff { path, insertions, deletions, diff });
        self.diff_scroll = 0;
    }
}

} // verus!
