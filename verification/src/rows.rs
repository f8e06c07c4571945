//! The rows of the file list: their identities, the Condensed and Normal
//! layouts, and the set of expanded directories.
use vstd::prelude::*;
use crate::git::{ChangeGroup, FileEntry, FileView};

verus! {

/// The stable identity of a row across rebuilds.
#[derive(Debug, Clone)]
pub enum RowId {
    File(String),
    Directory(String),
    Group(ChangeGroup),
}

/// The mathematical value of a [`RowId`].
pub enum RowKey {
    File(Seq<char>),
    Directory(Seq<char>),
    Group(ChangeGroup),
}

impl View for RowId {
    type V = RowKey;

    open spec fn view(&self) -> RowKey {
        match self {
            RowId::File(p) => RowKey::File(p@),
            RowId::Directory(p) => RowKey::Directory(p@),
            RowId::Group(g) => RowKey::Group(*g),
        }
    }
}

impl RowId {
    /// Whether two ids name the same row.
    pub fn same(&self, other: &RowId) -> (r: bool)
        ensures
            r == (self@ == other@),
    {
        match self {
            RowId::File(a) => match other {
                RowId::File(b) => *a == *b,
                _ => false,
            },
            RowId::Directory(a) => match other {
                RowId::Directory(b) => *a == *b,
                _ => false,
            },
            RowId::Group(a) => match other {
                RowId::Group(b) => *a == *b,
                _ => false,
            },
        }
    }

    pub fn duplicate(&self) -> (r: RowId)
        ensures
            r@ == self@,
    {
        match self {
            RowId::File(p) => RowId::File(p.clone()),
            RowId::Directory(p) => RowId::Directory(p.clone()),
            RowId::Group(g) => RowId::Group(*g),
        }
    }
}

/// One row of the file list as the UI draws it.
#[derive(Debug, Clone)]
pub enum VisibleRow {
    /// A changed file.
    File { id: RowId, depth: usize, label: String, file: FileEntry },
    /// A directory of the Tree view; `expanded` tells whether its contents
    /// are shown below it.
    Directory { id: RowId, depth: usize, label: String, expanded: bool },
    /// The heading of a status group in the Normal view, with the number of
    /// files in the group.
    Header { id: RowId, label: String, count: usize, collapsed: bool },
}

/// The mathematical value of a [`VisibleRow`].
pub enum RowView {
    File { id: RowKey, depth: nat, label: Seq<char>, file: FileView },
    Directory { id: RowKey, depth: nat, label: Seq<char>, expanded: bool },
    Header { id: RowKey, label: Seq<char>, count: nat, collapsed: bool },
}

impl RowView {
    pub open spec fn key(self) -> RowKey {
        match self {
            RowView::File { id, .. } => id,
            RowView::Directory { id, .. } => id,
            RowView::Header { id, .. } => id,
        }
    }
}

impl View for VisibleRow {
    type V = RowView;

    open spec fn view(&self) -> RowView {
        match self {
            VisibleRow::File { id, depth, label, file } => RowView::File {
                id: id@,
                depth: *depth as nat,
                label: label@,
                file: file@,
            },
            VisibleRow::Directory { id, depth, label, expanded } => RowView::Directory {
                id: id@,
                depth: *depth as nat,
                label: label@,
                expanded: *expanded,
            },
            VisibleRow::Header { id, label, count, collapsed } => RowView::Header {
                id: id@,
                label: label@,
                count: *count as nat,
                collapsed: *collapsed,
            },
        }
    }
}

/// The views of a list of rows.
pub open spec fn rows_view(rows: Seq<VisibleRow>) -> Seq<RowView> {
    rows.map_values(|r: VisibleRow| r@)
}

impl VisibleRow {
    pub fn id(&self) -> (r: &RowId)
        ensures
            r@ == self@.key(),
    {
        match self {
            VisibleRow::File { id, .. } => id,
            VisibleRow::Directory { id, .. } => id,
            VisibleRow::Header { id, .. } => id,
        }
    }

    pub fn label(&self) -> (r: &str)
        ensures
            r@ == (match self@ {
                RowView::File { label, .. } => label,
                RowView::Directory { label, .. } => label,
                RowView::Header { label, .. } => label,
            }),
    {
        match self {
            VisibleRow::File { label, .. } => label.as_str(),
            VisibleRow::Directory { label, .. } => label.as_str(),
            VisibleRow::Header { label, .. } => label.as_str(),
        }
    }

    pub fn is_header(&self) -> (r: bool)
        ensures
            r == (self@ is Header),
    {
        match self {
            VisibleRow::Header { .. } => true,
            _ => false,
        }
    }

    /// For a group heading, whether the group is collapsed; `None` for
    /// other rows.
    pub fn header_collapsed(&self) -> (r: Option<bool>)
        ensures
            r == (match self@ {
                RowView::Header { collapsed, .. } => Some(collapsed),
                _ => None::<bool>,
            }),
    {
        match self {
            VisibleRow::Header { collapsed, .. } => Some(*collapsed),
            _ => None,
        }
    }
}

/// The row of a file in the Condensed view.
pub open spec fn condensed_row(f: FileView) -> RowView {
    RowView::File { id: RowKey::File(f.path), depth: 0, label: f.path, file: f }
}

/// The Condensed view: one row per file, in list order.
pub open spec fn condensed_rows(files: Seq<FileView>) -> Seq<RowView> {
    files.map_values(|f: FileView| condensed_row(f))
}

pub fn condensed_row_from_file(file: &FileEntry) -> (r: VisibleRow)
    ensures
        r@ == condensed_row(file@),
{
    VisibleRow::File {
        id: RowId::File(file.path.clone()),
        depth: 0,
        label: file.path.clone(),
        file: file.duplicate(),
    }
}

pub fn build_condensed_rows(files: &Vec<FileEntry>) -> (r: Vec<VisibleRow>)
    ensures
        rows_view(r@) == condensed_rows(crate::git::files_view(files@)),
{
    let mut out: Vec<VisibleRow> = Vec::new();
    for i in 0..files.len()
        invariant
            rows_view(out@) == condensed_rows(crate::git::files_view(files@.take(i as int))),
    {
        let ghost before = out@;
        let row = condensed_row_from_file(&files[i]);
        out.push(row);
        assert(rows_view(out@) =~= rows_view(before).push(row@));
        assert(crate::git::files_view(files@.take(i + 1)) =~= crate::git::files_view(files@.take(i as int)).push(files@[i as int]@));
        assert(rows_view(out@) =~= condensed_rows(crate::git::files_view(files@.take(i + 1))));
    }
    assert(files@.take(files@.len() as int) =~= files@);
    out
}

/// The files of one group, in list order.
pub open spec fn group_files(files: Seq<FileView>, g: ChangeGroup) -> Seq<FileView> {
    files.filter(|f: FileView| f.group == g)
}

/// The row of a file inside its group in the Normal view.
pub open spec fn normal_file_row(f: FileView) -> RowView {
    RowView::File { id: RowKey::File(f.path), depth: 1, label: f.path, file: f }
}

/// The rows of one group: nothing for an empty group; otherwise its heading,
/// followed by its files unless the group is collapsed.
pub open spec fn group_rows(files: Seq<FileView>, g: ChangeGroup, collapsed: Set<ChangeGroup>) -> Seq<RowView> {
    let members = group_files(files, g);
    if members.len() == 0 {
        Seq::empty()
    } else {
        seq![RowView::Header {
            id: RowKey::Group(g),
            label: g.title_spec(),
            count: members.len(),
            collapsed: collapsed.contains(g),
        }] + if collapsed.contains(g) {
            Seq::empty()
        } else {
            members.map_values(|f: FileView| normal_file_row(f))
        }
    }
}

/// The rows of the given groups, in order.
pub open spec fn groups_rows(files: Seq<FileView>, groups: Seq<ChangeGroup>, collapsed: Set<ChangeGroup>) -> Seq<RowView>
    decreases groups.len(),
{
    if groups.len() == 0 {
        Seq::empty()
    } else {
        groups_rows(files, groups.drop_last(), collapsed) + group_rows(files, groups.last(), collapsed)
    }
}

/// The Normal view: every non-empty status group in display order.
pub open spec fn normal_rows(files: Seq<FileView>, collapsed: Set<ChangeGroup>) -> Seq<RowView> {
    groups_rows(files, crate::git::group_order(), collapsed)
}

/// Appends the rows of group `g` to `out`.
fn push_group_rows(files: &Vec<FileEntry>, g: ChangeGroup, collapsed: &GroupSet, out: &mut Vec<VisibleRow>)
    ensures
        rows_view(final(out)@) == rows_view(old(out)@) + group_rows(crate::git::files_view(files@), g, collapsed@),
{
    let mut members: Vec<FileEntry> = Vec::new();
    for i in 0..files.len()
        invariant
            crate::git::files_view(members@) == group_files(crate::git::files_view(files@.take(i as int)), g),
    {
        proof {
            let pred = |f: FileView| f.group == g;
            assert(crate::git::files_view(files@.take(i + 1)) =~= crate::git::files_view(files@.take(i as int)).push(files@[i as int]@));
            crate::git::files_view(files@.take(i as int)).lemma_filter_push(files@[i as int]@, pred);
        }
        if files[i].group == g {
            let ghost before = members@;
            members.push(files[i].duplicate());
            assert(crate::git::files_view(members@) =~= crate::git::files_view(before).push(files@[i as int]@));
        }
    }
    proof {
        assert(files@.take(files@.len() as int) =~= files@);
    }
    let ghost members_v = group_files(crate::git::files_view(files@), g);
    if members.len() > 0 {
        let is_collapsed = collapsed.contains(g);
        let ghost before = out@;
        let header = VisibleRow::Header {
            id: RowId::Group(g),
            label: crate::text::owned(g.title()),
            count: members.len(),
            collapsed: is_collapsed,
        };
        out.push(header);
        assert(rows_view(out@) =~= rows_view(before).push(header@));
        if !is_collapsed {
            for j in 0..members.len()
                invariant
                    crate::git::files_view(members@) == members_v,
                    rows_view(out@) == rows_view(before).push(header@) + members_v.take(j as int).map_values(|f: FileView| normal_file_row(f)),
            {
                let m = &members[j];
                let row = VisibleRow::File {
                    id: RowId::File(m.path.clone()),
                    depth: 1,
                    label: m.path.clone(),
                    file: m.duplicate(),
                };
                let ghost mid = out@;
                out.push(row);
                assert(members_v[j as int] == members@[j as int]@);
                assert(rows_view(out@) =~= rows_view(mid).push(row@));
                assert(members_v.take(j + 1).map_values(|f: FileView| normal_file_row(f)) =~= members_v.take(j as int).map_values(|f: FileView| normal_file_row(f)).push(normal_file_row(members_v[j as int])));
            }
            assert(members_v.take(members_v.len() as int) =~= members_v);
        }
        assert(rows_view(out@) =~= rows_view(before) + group_rows(crate::git::files_view(files@), g, collapsed@));
    } else {
        assert(group_rows(crate::git::files_view(files@), g, collapsed@) =~= Seq::<RowView>::empty());
        assert(rows_view(out@) =~= rows_view(old(out)@) + Seq::<RowView>::empty());
    }
}

/// Builds the Normal view.
pub fn build_normal_rows(files: &Vec<FileEntry>, collapsed: &GroupSet) -> (r: Vec<VisibleRow>)
    ensures
        rows_view(r@) == normal_rows(crate::git::files_view(files@), collapsed@),
{
    let ghost fv = crate::git::files_view(files@);
    let ghost order = crate::git::group_order();
    let mut out: Vec<VisibleRow> = Vec::new();
    assert(rows_view(out@) =~= groups_rows(fv, order.take(0), collapsed@));
    push_group_rows(files, ChangeGroup::Committed, collapsed, &mut out);
    assert(order.take(1).drop_last() =~= order.take(0));
    assert(rows_view(out@) =~= groups_rows(fv, order.take(1), collapsed@));
    push_group_rows(files, ChangeGroup::Staged, collapsed, &mut out);
    assert(order.take(2).drop_last() =~= order.take(1));
    assert(rows_view(out@) =~= groups_rows(fv, order.take(2), collapsed@));
    push_group_rows(files, ChangeGroup::Changes, collapsed, &mut out);
    assert(order.take(3).drop_last() =~= order.take(2));
    assert(rows_view(out@) =~= groups_rows(fv, order.take(3), collapsed@));
    push_group_rows(files, ChangeGroup::Untracked, collapsed, &mut out);
    assert(order.take(4).drop_last() =~= order.take(3));
    assert(order.take(4) =~= order);
    out
}

/// The set of collapsed status groups.
#[derive(Debug)]
pub struct GroupSet {
    groups: Vec<ChangeGroup>,
}

impl View for GroupSet {
    type V = Set<ChangeGroup>;

    closed spec fn view(&self) -> Set<ChangeGroup> {
        self.groups@.to_set()
    }
}

impl GroupSet {
    /// No group is held twice.
    #[verifier::type_invariant]
    spec fn wf(self) -> bool {
        self.groups@.no_duplicates()
    }

    pub fn new() -> (r: GroupSet)
        ensures
            r@ == Set::<ChangeGroup>::empty(),
    {
        let groups: Vec<ChangeGroup> = Vec::new();
        assert(groups@.no_duplicates());
        let r = GroupSet { groups };
        assert(r@ =~= Set::<ChangeGroup>::empty());
        r
    }

    pub fn contains(&self, g: ChangeGroup) -> (r: bool)
        ensures
            r == self@.contains(g),
    {
        for i in 0..self.groups.len()
            invariant
                forall|j: int| 0 <= j < i ==> self.groups@[j] != g,
        {
            if self.groups[i] == g {
                assert(self.groups@.contains(g));
                return true;
            }
        }
        false
    }

    /// Adds `g`; returns whether it was absent before.
    pub fn insert(&mut self, g: ChangeGroup) -> (r: bool)
        ensures
            r == !old(self)@.contains(g),
            final(self)@ == old(self)@.insert(g),
    {
        proof {
            use_type_invariant(&*self);
        }
        if self.contains(g) {
            assert(self@.insert(g) =~= self@);
            false
        } else {
            let ghost before = self.groups@;
            let mut v: Vec<ChangeGroup> = Vec::new();
            std::mem::swap(&mut v, &mut self.groups);
            v.push(g);
            assert(v@ == before.push(g));
            assert forall|i: int, j: int| 0 <= i < v@.len() && 0 <= j < v@.len() && i != j implies v@[i] != v@[j] by {
                if i == before.len() {
                    assert(!before.contains(g));
                    assert(before[j] == v@[j]);
                } else if j == before.len() {
                    assert(before[i] == v@[i]);
                }
            }
            self.groups = v;
            assert(self@ =~= old(self)@.insert(g)) by {
                assert forall|x: ChangeGroup| self@.contains(x) <==> old(self)@.insert(g).contains(x) by {
                    if old(self)@.contains(x) {
                        let j = choose|j: int| 0 <= j < old(self).groups@.len() && old(self).groups@[j] == x;
                        assert(self.groups@[j] == x);
                    }
                    if self@.contains(x) && x != g {
                        let j = choose|j: int| 0 <= j < self.groups@.len() && self.groups@[j] == x;
                        assert(old(self).groups@[j] == x);
                    }
                    assert(self.groups@[self.groups@.len() - 1] == g);
                }
            }
            true
        }
    }

    pub fn remove(&mut self, g: ChangeGroup)
        ensures
            final(self)@ == old(self)@.remove(g),
    {
        proof {
            use_type_invariant(&*self);
        }
        let mut kept: Vec<ChangeGroup> = Vec::new();
        for i in 0..self.groups.len()
            invariant
                kept@ == self.groups@.take(i as int).filter(|x: ChangeGroup| x != g),
        {
            proof {
                self.groups@.take(i as int).lemma_filter_push(self.groups@[i as int], |x: ChangeGroup| x != g);
                assert(self.groups@.take(i + 1) =~= self.groups@.take(i as int).push(self.groups@[i as int]));
            }
            if self.groups[i] != g {
                kept.push(self.groups[i]);
            }
        }
        proof {
            assert(self.groups@.take(self.groups@.len() as int) =~= self.groups@);
        }
        let ghost before = self.groups@;
        proof {
            crate::dirs::lemma_filter_no_duplicates(before, |x: ChangeGroup| x != g);
        }
        self.groups = kept;
        proof {
            assert(self@ =~= old(self)@.remove(g)) by {
                assert forall|x: ChangeGroup| self@.contains(x) <==> old(self)@.remove(g).contains(x) by {
                    if self.groups@.contains(x) {
                        before.lemma_filter_contains_rev(|y: ChangeGroup| y != g, x);
                    }
                    if old(self)@.contains(x) && x != g {
                        let j = choose|j: int| 0 <= j < before.len() && before[j] == x;
                        before.lemma_filter_contains(|y: ChangeGroup| y != g, j);
                    }
                }
            }
        }
    }

    pub fn clear(&mut self)
        ensures
            final(self)@ == Set::<ChangeGroup>::empty(),
    {
        let groups: Vec<ChangeGroup> = Vec::new();
        assert(groups@.no_duplicates());
        self.groups = groups;
        assert(self@ =~= Set::<ChangeGroup>::empty());
    }
}

} // verus!
