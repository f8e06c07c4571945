//! Plain data describing the working tree: changed files and their diffs.
use vstd::prelude::*;

verus! {

/// How a file differs from its base.
#[derive(Debug, Clone, Copy, PartialEq, Eq, Hash, Structural)]
pub enum FileStatus {
    Added,
    Modified,
    Deleted,
    Renamed,
    Untracked,
}

/// The status group a changed file belongs to in the Normal view. Groups
/// are shown in the order the variants are declared here.
#[derive(Debug, Clone, Copy, PartialEq, Eq, Hash, Structural)]
pub enum ChangeGroup {
    /// Changes already committed on the branch since its base.
    Committed,
    /// Changes staged in the index.
    Staged,
    /// Unstaged changes to tracked files.
    Changes,
    /// Files git does not track yet.
    Untracked,
}

/// Every group, in display order.
pub open spec fn group_order() -> Seq<ChangeGroup> {
    seq![ChangeGroup::Committed, ChangeGroup::Staged, ChangeGroup::Changes, ChangeGroup::Untracked]
}

impl ChangeGroup {
    /// The heading shown above the group.
    pub open spec fn title_spec(self) -> Seq<char> {
        match self {
            ChangeGroup::Committed => "Committed"@,
            ChangeGroup::Staged => "Staged"@,
            ChangeGroup::Changes => "Changes"@,
            ChangeGroup::Untracked => "Untracked"@,
        }
    }

    pub fn title(&self) -> (r: &'static str)
        ensures
            r@ == self.title_spec(),
    {
        match self {
            ChangeGroup::Committed => "Committed",
            ChangeGroup::Staged => "Staged",
            ChangeGroup::Changes => "Changes",
            ChangeGroup::Untracked => "Untracked",
        }
    }
}

/// One changed file with its line statistics.
#[derive(Debug, Clone)]
pub struct FileEntry {
    pub path: String,
    pub status: FileStatus,
    pub insertions: usize,
    pub deletions: usize,
    pub group: ChangeGroup,
}

/// The mathematical value of a [`FileEntry`].
pub struct FileView {
    pub path: Seq<char>,
    pub status: FileStatus,
    pub insertions: usize,
    pub deletions: usize,
    pub group: ChangeGroup,
}

impl View for FileEntry {
    type V = FileView;

    open spec fn view(&self) -> FileView {
        FileView {
            path: self.path@,
            status: self.status,
            insertions: self.insertions,
            deletions: self.deletions,
            group: self.group,
        }
    }
}

impl FileEntry {
    /// A copy of this entry.
    pub fn duplicate(&self) -> (r: FileEntry)
        ensures
            r@ == self@,
    {
        FileEntry {
            path: self.path.clone(),
            status: self.status,
            insertions: self.insertions,
            deletions: self.deletions,
            group: self.group,
        }
    }
}

/// The views of a list of entries.
pub open spec fn files_view(files: Seq<FileEntry>) -> Seq<FileView> {
    files.map_values(|f: FileEntry| f@)
}

/// The kind of one line of a diff hunk.
#[derive(Debug, Clone, Copy, PartialEq, Eq, Structural)]
pub enum DiffLineKind {
    Context,
    Added,
    Removed,
}

#[derive(Debug, Clone)]
pub struct DiffLine {
    pub kind: DiffLineKind,
    pub content: String,
}

#[derive(Debug, Clone)]
pub struct DiffHunk {
    pub header: String,
    pub lines: Vec<DiffLine>,
}

/// The diff of one file, as a list of hunks.
#[derive(Debug, Clone)]
pub struct FileDiff {
    pub hunks: Vec<DiffHunk>,
}

impl Default for FileDiff {
    fn default() -> (r: FileDiff)
        ensures
            r.hunks@.len() == 0,
    {
        FileDiff { hunks: Vec::new() }
    }
}

/// The number of lines the diff overlay shows before wrapping: one header
/// line per hunk plus the lines of each hunk.
pub open spec fn diff_line_count(hunks: Seq<DiffHunk>) -> int
    decreases hunks.len(),
{
    if hunks.len() == 0 {
        0
    } else {
        diff_line_count(hunks.drop_last()) + 1 + hunks.last().lines@.len()
    }
}

/// The line count of a diff is additive over its hunks: the hunks of `a`
/// followed by those of `b` count as many lines as `a` and `b` together.
pub proof fn law_diff_line_count_additive(a: Seq<DiffHunk>, b: Seq<DiffHunk>)
    ensures
        diff_line_count(a + b) == diff_line_count(a) + diff_line_count(b),
    decreases b.len(),
{
    if b.len() == 0 {
        assert(a + b =~= a);
    } else {
        law_diff_line_count_additive(a, b.drop_last());
        assert((a + b).drop_last() =~= a + b.drop_last());
        assert((a + b).last() == b.last());
    }
}

/// One hunk counts its header line and its lines.
pub proof fn law_diff_line_count_one_hunk(h: DiffHunk)
    ensures
        diff_line_count(seq![h]) == 1 + h.lines@.len(),
{
    let one = seq![h];
    assert(one.drop_last() =~= Seq::<DiffHunk>::empty());
    assert(diff_line_count(one.drop_last()) == 0);
    assert(one.last() == h);
}

/// A commit id, as the raw bytes of its hash.
#[derive(Debug, Clone, PartialEq, Eq)]
pub struct ObjectId {
    pub bytes: Vec<u8>,
}

impl ObjectId {
    /// The all-zero id of the given hash length in bytes.
    pub fn null(len: usize) -> (r: ObjectId)
        ensures
            r.bytes@ == Seq::new(len as nat, |i: int| 0u8),
    {
        let mut bytes: Vec<u8> = Vec::new();
        for i in 0..len
            invariant
                bytes@ == Seq::new(i as nat, |j: int| 0u8),
        {
            bytes.push(0u8);
        }
        ObjectId { bytes }
    }

    /// A copy of this id.
    pub fn duplicate(&self) -> (r: ObjectId)
        ensures
            r.bytes@ == self.bytes@,
    {
        ObjectId { bytes: self.bytes.clone() }
    }
}

} // verus!
