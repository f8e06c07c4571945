//! The Tree view: files arranged under their directories, with chains of
//! directories that hold nothing but one subdirectory shown as one row.
use vstd::prelude::*;
use crate::git::{FileEntry, FileView};
use crate::rows::{RowId, RowKey, RowView, VisibleRow};
use crate::dirs::DirSet;

verus! {

/// A file as seen from inside a directory: its path segments below that
/// directory and its index in the file list.
pub struct ItemView {
    pub segs: Seq<Seq<char>>,
    pub idx: int,
}

pub struct TreeItem {
    pub segs: Vec<String>,
    pub idx: usize,
}

pub open spec fn strings_view(v: Seq<String>) -> Seq<Seq<char>> {
    v.map_values(|s: String| s@)
}

impl View for TreeItem {
    type V = ItemView;

    open spec fn view(&self) -> ItemView {
        ItemView { segs: strings_view(self.segs@), idx: self.idx as int }
    }
}

pub open spec fn items_view(v: Seq<TreeItem>) -> Seq<ItemView> {
    v.map_values(|t: TreeItem| t@)
}

/// Segments joined with `'/'`.
pub open spec fn join_all(segs: Seq<Seq<char>>) -> Seq<char>
    decreases segs.len(),
{
    if segs.len() == 0 {
        Seq::empty()
    } else if segs.len() == 1 {
        segs[0]
    } else {
        join_all(segs.drop_last()) + seq!['/'] + segs.last()
    }
}

/// The names of the subdirectories at this level, each once, in the order
/// in which a file first shows them.
pub open spec fn dir_names(items: Seq<ItemView>) -> Seq<Seq<char>>
    decreases items.len(),
{
    if items.len() == 0 {
        Seq::empty()
    } else {
        let prev = dir_names(items.drop_last());
        let it = items.last();
        if it.segs.len() >= 2 && !prev.contains(it.segs[0]) {
            prev.push(it.segs[0])
        } else {
            prev
        }
    }
}

/// The items below subdirectory `d`, as seen from inside it.
pub open spec fn children(items: Seq<ItemView>, d: Seq<char>) -> Seq<ItemView>
    decreases items.len(),
{
    if items.len() == 0 {
        Seq::empty()
    } else {
        let prev = children(items.drop_last(), d);
        let it = items.last();
        if it.segs.len() >= 2 && it.segs[0] == d {
            prev.push(ItemView { segs: it.segs.drop_first(), idx: it.idx })
        } else {
            prev
        }
    }
}

/// Whether a directory's contents are exactly one subdirectory.
pub open spec fn is_chain(sub: Seq<ItemView>) -> bool {
    &&& sub.len() > 0
    &&& forall|i: int| 0 <= i < sub.len() ==> (#[trigger] sub[i]).segs.len() >= 2 && sub[i].segs[0] == sub[0].segs[0]
}

/// The result of following a chain of single-subdirectory directories.
pub struct Chain {
    pub path: Seq<Seq<char>>,
    pub label: Seq<char>,
    pub items: Seq<ItemView>,
    pub height: nat,
}

/// Follows a chain of directories that hold only one subdirectory each,
/// gathering their names into one label.
pub open spec fn compress(path: Seq<Seq<char>>, label: Seq<char>, sub: Seq<ItemView>, h: nat) -> Chain
    decreases h,
{
    if h > 0 && is_chain(sub) {
        let e = sub[0].segs[0];
        compress(path.push(e), label + seq!['/'] + e, children(sub, e), (h - 1) as nat)
    } else {
        Chain { path, label, items: sub, height: h }
    }
}

pub proof fn lemma_compress_height(path: Seq<Seq<char>>, label: Seq<char>, sub: Seq<ItemView>, h: nat)
    ensures
        compress(path, label, sub, h).height <= h,
        compress(path, label, sub, h).path.len() >= path.len(),
    decreases h,
{
    if h > 0 && is_chain(sub) {
        let e = sub[0].segs[0];
        lemma_compress_height(path.push(e), label + seq!['/'] + e, children(sub, e), (h - 1) as nat);
    }
}

/// The row of a file at this level.
pub open spec fn tree_file_row(it: ItemView, depth: nat, files: Seq<FileView>) -> RowView {
    RowView::File {
        id: RowKey::File(files[it.idx].path),
        depth,
        label: if it.segs.len() == 1 { it.segs[0] } else { Seq::empty() },
        file: files[it.idx],
    }
}

/// The rows of the files directly at this level, in list order.
pub open spec fn file_rows(items: Seq<ItemView>, depth: nat, files: Seq<FileView>) -> Seq<RowView>
    decreases items.len(),
{
    if items.len() == 0 {
        Seq::empty()
    } else {
        let prev = file_rows(items.drop_last(), depth, files);
        let it = items.last();
        if it.segs.len() < 2 {
            prev.push(tree_file_row(it, depth, files))
        } else {
            prev
        }
    }
}

/// The rows of one level of the tree: its subdirectories, then its files.
/// `base` is the path of the directory the level is in, and `h` bounds the
/// number of levels below it.
pub open spec fn tree_level(
    items: Seq<ItemView>,
    base: Seq<Seq<char>>,
    depth: nat,
    exp: Set<Seq<char>>,
    files: Seq<FileView>,
    h: nat,
) -> Seq<RowView>
    decreases h, 0nat,
{
    if h == 0 {
        Seq::empty()
    } else {
        dirs_rows(dir_names(items), items, base, depth, exp, files, (h - 1) as nat) + file_rows(items, depth, files)
    }
}

/// The rows of the given subdirectories of a level: each directory's row,
/// then, if it is expanded, the rows of its contents.
pub open spec fn dirs_rows(
    dirs: Seq<Seq<char>>,
    items: Seq<ItemView>,
    base: Seq<Seq<char>>,
    depth: nat,
    exp: Set<Seq<char>>,
    files: Seq<FileView>,
    h: nat,
) -> Seq<RowView>
    decreases h, dirs.len(),
{
    if dirs.len() == 0 {
        Seq::empty()
    } else {
        let d = dirs[0];
        let c = compress(base.push(d), d, children(items, d), h);
        proof {
            lemma_compress_height(base.push(d), d, children(items, d), h);
        }
        let id = join_all(c.path);
        let open = exp.contains(id);
        let row = RowView::Directory { id: RowKey::Directory(id), depth, label: c.label + seq!['/'], expanded: open };
        let inner = if open {
            tree_level(c.items, c.path, depth + 1, exp, files, c.height)
        } else {
            Seq::empty()
        };
        seq![row] + inner + dirs_rows(dirs.drop_first(), items, base, depth, exp, files, h)
    }
}

/// Every file with all of its path segments.
pub open spec fn root_items(files: Seq<FileView>) -> Seq<ItemView> {
    Seq::new(files.len(), |i: int| ItemView { segs: crate::text::split_segments(files[i].path), idx: i })
}

/// The largest number of segments in any item.
pub open spec fn max_segs(items: Seq<ItemView>) -> nat
    decreases items.len(),
{
    if items.len() == 0 {
        0
    } else {
        let m = max_segs(items.drop_last());
        if items.last().segs.len() > m { items.last().segs.len() } else { m }
    }
}

/// The Tree view of `files` with the directories in `exp` expanded.
pub open spec fn tree_rows(files: Seq<FileView>, exp: Set<Seq<char>>) -> Seq<RowView> {
    let items = root_items(files);
    tree_level(items, Seq::empty(), 0, exp, files, max_segs(items))
}

pub open spec fn idx_ok(items: Seq<ItemView>, n: int) -> bool {
    forall|i: int| 0 <= i < items.len() ==> 0 <= (#[trigger] items[i]).idx < n
}

pub proof fn lemma_children_idx(items: Seq<ItemView>, d: Seq<char>, n: int)
    requires
        idx_ok(items, n),
    ensures
        idx_ok(children(items, d), n),
    decreases items.len(),
{
    if items.len() > 0 {
        lemma_children_idx(items.drop_last(), d, n);
    }
}

pub proof fn lemma_compress_idx(path: Seq<Seq<char>>, label: Seq<char>, sub: Seq<ItemView>, h: nat, n: int)
    requires
        idx_ok(sub, n),
    ensures
        idx_ok(compress(path, label, sub, h).items, n),
    decreases h,
{
    if h > 0 && is_chain(sub) {
        let e = sub[0].segs[0];
        lemma_children_idx(sub, e, n);
        lemma_compress_idx(path.push(e), label + seq!['/'] + e, children(sub, e), (h - 1) as nat, n);
    }
}

fn strings_contain(v: &Vec<String>, s: &String) -> (r: bool)
    ensures
        r == strings_view(v@).contains(s@),
{
    for i in 0..v.len()
        invariant
            forall|j: int| 0 <= j < i ==> v@[j]@ != s@,
    {
        if v[i] == *s {
            assert(strings_view(v@)[i as int] == s@);
            return true;
        }
    }
    false
}

fn dir_names_exec(items: &Vec<TreeItem>) -> (r: Vec<String>)
    ensures
        strings_view(r@) == dir_names(items_view(items@)),
{
    let mut out: Vec<String> = Vec::new();
    for i in 0..items.len()
        invariant
            strings_view(out@) == dir_names(items_view(items@.take(i as int))),
    {
        proof {
            assert(items_view(items@.take(i + 1)).drop_last() =~= items_view(items@.take(i as int)));
        }
        let it = &items[i];
        if it.segs.len() >= 2 && !strings_contain(&out, &it.segs[0]) {
            let ghost before = out@;
            out.push(it.segs[0].clone());
            assert(strings_view(out@) =~= strings_view(before).push(it.segs@[0]@));
        }
    }
    proof {
        assert(items@.take(items@.len() as int) =~= items@);
    }
    out
}

fn tail_segs(segs: &Vec<String>) -> (r: Vec<String>)
    requires
        segs@.len() >= 1,
    ensures
        strings_view(r@) == strings_view(segs@).drop_first(),
{
    let mut out: Vec<String> = Vec::new();
    let mut k: usize = 1;
    while k < segs.len()
        invariant
            1 <= k <= segs@.len(),
            strings_view(out@) == strings_view(segs@).subrange(1, k as int),
        decreases segs@.len() - k,
    {
        let ghost before = out@;
        out.push(segs[k].clone());
        assert(strings_view(out@) =~= strings_view(before).push(segs@[k as int]@));
        assert(strings_view(out@) =~= strings_view(segs@).subrange(1, k + 1));
        k = k + 1;
    }
    assert(strings_view(segs@).subrange(1, segs@.len() as int) =~= strings_view(segs@).drop_first());
    out
}

fn children_exec(items: &Vec<TreeItem>, d: &String) -> (r: Vec<TreeItem>)
    ensures
        items_view(r@) == children(items_view(items@), d@),
{
    let mut out: Vec<TreeItem> = Vec::new();
    for i in 0..items.len()
        invariant
            items_view(out@) == children(items_view(items@.take(i as int)), d@),
    {
        proof {
            assert(items_view(items@.take(i + 1)).drop_last() =~= items_view(items@.take(i as int)));
        }
        let it = &items[i];
        if it.segs.len() >= 2 && it.segs[0] == *d {
            let t = TreeItem { segs: tail_segs(&it.segs), idx: it.idx };
            let ghost before = out@;
            out.push(t);
            assert(items_view(out@) =~= items_view(before).push(t@));
        }
    }
    proof {
        assert(items@.take(items@.len() as int) =~= items@);
    }
    out
}

fn is_chain_exec(sub: &Vec<TreeItem>) -> (r: bool)
    ensures
        r == is_chain(items_view(sub@)),
{
    if sub.len() == 0 {
        return false;
    }
    if sub[0].segs.len() < 2 {
        assert(items_view(sub@)[0].segs.len() < 2);
        return false;
    }
    let first = &sub[0].segs[0];
    for i in 0..sub.len()
        invariant
            sub@.len() > 0,
            sub@[0].segs@.len() >= 2,
            first@ == sub@[0].segs@[0]@,
            forall|j: int| 0 <= j < i ==> (#[trigger] items_view(sub@)[j]).segs.len() >= 2 && items_view(sub@)[j].segs[0] == items_view(sub@)[0].segs[0],
    {
        if sub[i].segs.len() < 2 || sub[i].segs[0] != *first {
            assert(!((items_view(sub@)[i as int]).segs.len() >= 2 && items_view(sub@)[i as int].segs[0] == items_view(sub@)[0].segs[0]));
            return false;
        }
    }
    true
}

pub proof fn lemma_join_push(s: Seq<Seq<char>>, e: Seq<char>)
    requires
        s.len() >= 1,
    ensures
        join_all(s.push(e)) == join_all(s) + seq!['/'] + e,
{
    assert(s.push(e).drop_last() =~= s);
}

fn compress_exec(
    Ghost(path_segs): Ghost<Seq<Seq<char>>>,
    path: String,
    label: String,
    sub: Vec<TreeItem>,
    h: usize,
) -> (r: (String, String, Vec<TreeItem>, usize))
    requires
        path@ == join_all(path_segs),
        path_segs.len() >= 1,
    ensures
        r.0@ == join_all(compress(path_segs, label@, items_view(sub@), h as nat).path),
        r.1@ == compress(path_segs, label@, items_view(sub@), h as nat).label,
        items_view(r.2@) == compress(path_segs, label@, items_view(sub@), h as nat).items,
        r.3 as nat == compress(path_segs, label@, items_view(sub@), h as nat).height,
    decreases h,
{
    if h > 0 && is_chain_exec(&sub) {
        assert(items_view(sub@)[0].segs.len() >= 2);
        let e = sub[0].segs[0].clone();
        assert(e@ == items_view(sub@)[0].segs[0]);
        let next = children_exec(&sub, &e);
        let mut p = path;
        crate::text::push_char(&mut p, '/');
        crate::text::push_str(&mut p, e.as_str());
        let mut l = label;
        crate::text::push_char(&mut l, '/');
        crate::text::push_str(&mut l, e.as_str());
        proof {
            lemma_join_push(path_segs, e@);
            assert(p@ =~= join_all(path_segs) + seq!['/'] + e@);
            assert(l@ =~= label@ + seq!['/'] + e@);
        }
        compress_exec(Ghost(path_segs.push(e@)), p, l, next, h - 1)
    } else {
        (path, label, sub, h)
    }
}

fn push_file_row(it: &TreeItem, depth: usize, files: &Vec<FileEntry>, out: &mut Vec<VisibleRow>)
    requires
        it.idx < files@.len(),
    ensures
        rows_view(final(out)@) == rows_view(old(out)@).push(tree_file_row(it@, depth as nat, crate::git::files_view(files@))),
{
    let f = &files[it.idx];
    let label = if it.segs.len() == 1 { it.segs[0].clone() } else { String::new() };
    let row = VisibleRow::File { id: RowId::File(f.path.clone()), depth, label, file: f.duplicate() };
    let ghost before = out@;
    out.push(row);
    assert(rows_view(out@) =~= rows_view(before).push(row@));
}

use crate::rows::rows_view;

/// Appends the rows of one tree level to `out`.
fn tree_level_exec(
    items: &Vec<TreeItem>,
    base: &String,
    Ghost(base_segs): Ghost<Seq<Seq<char>>>,
    at_root: bool,
    depth: usize,
    exp: &DirSet,
    files: &Vec<FileEntry>,
    h: usize,
    out: &mut Vec<VisibleRow>,
)
    requires
        idx_ok(items_view(items@), files@.len() as int),
        base@ == join_all(base_segs),
        at_root == (base_segs.len() == 0),
        depth + h <= usize::MAX,
    ensures
        rows_view(final(out)@) == rows_view(old(out)@) + tree_level(items_view(items@), base_segs, depth as nat, exp@, crate::git::files_view(files@), h as nat),
    decreases h,
{
    let ghost iv = items_view(items@);
    let ghost fv = crate::git::files_view(files@);
    if h == 0 {
        assert(rows_view(out@) =~= rows_view(old(out)@) + Seq::<RowView>::empty());
        return;
    }
    let hh = h - 1;
    let dirs = dir_names_exec(items);
    let ghost dv = strings_view(dirs@);
    let ghost start = rows_view(out@);
    assert(dv.skip(0) =~= dv);
    for k in 0..dirs.len()
        invariant
            iv == items_view(items@),
            fv == crate::git::files_view(files@),
            dv == strings_view(dirs@),
            dv == dir_names(iv),
            idx_ok(iv, files@.len() as int),
            base@ == join_all(base_segs),
            at_root == (base_segs.len() == 0),
            depth + h <= usize::MAX,
            hh == h - 1,
            h > 0,
            rows_view(out@) + dirs_rows(dv.skip(k as int), iv, base_segs, depth as nat, exp@, fv, hh as nat)
                == start + dirs_rows(dv, iv, base_segs, depth as nat, exp@, fv, hh as nat),
    {
        let d = &dirs[k];
        let ghost rest = dv.skip(k as int);
        assert(rest[0] == d@);
        assert(rest.drop_first() =~= dv.skip(k + 1));
        let child = children_exec(items, d);
        let mut p = if at_root { d.clone() } else {
            let mut q = base.clone();
            crate::text::push_char(&mut q, '/');
            crate::text::push_str(&mut q, d.as_str());
            q
        };
        proof {
            if at_root {
                assert(base_segs.push(d@) =~= seq![d@]);
            } else {
                lemma_join_push(base_segs, d@);
            }
            assert(p@ =~= join_all(base_segs.push(d@)));
            lemma_children_idx(iv, d@, files@.len() as int);
        }
        let ghost c = compress(base_segs.push(d@), d@, children(iv, d@), hh as nat);
        proof {
            lemma_compress_height(base_segs.push(d@), d@, children(iv, d@), hh as nat);
            lemma_compress_idx(base_segs.push(d@), d@, children(iv, d@), hh as nat, files@.len() as int);
        }
        let (cpath, clabel, citems, ch) = compress_exec(Ghost(base_segs.push(d@)), p, d.clone(), child, hh);
        let open = exp.contains(cpath.as_str());
        let mut label = clabel;
        crate::text::push_char(&mut label, '/');
        let row = VisibleRow::Directory { id: RowId::Directory(cpath.clone()), depth, label, expanded: open };
        assert(label@ =~= c.label + seq!['/']);
        assert(row@ == RowView::Directory { id: RowKey::Directory(join_all(c.path)), depth: depth as nat, label: c.label + seq!['/'], expanded: exp@.contains(join_all(c.path)) });
        let ghost before = out@;
        out.push(row);
        assert(rows_view(out@) =~= rows_view(before).push(row@));
        if open {
            let ghost mid = rows_view(out@);
            tree_level_exec(&citems, &cpath, Ghost(c.path), false, depth + 1, exp, files, ch, out);
            assert(rows_view(out@) == mid + tree_level(c.items, c.path, (depth + 1) as nat, exp@, fv, c.height));
        }
        assert(rows_view(out@) + dirs_rows(dv.skip(k + 1), iv, base_segs, depth as nat, exp@, fv, hh as nat)
            =~= rows_view(before) + dirs_rows(rest, iv, base_segs, depth as nat, exp@, fv, hh as nat));
    }
    assert(dv.skip(dv.len() as int) =~= Seq::<Seq<char>>::empty());
    let ghost mid = rows_view(out@);
    assert(mid == start + dirs_rows(dv, iv, base_segs, depth as nat, exp@, fv, hh as nat));
    for i in 0..items.len()
        invariant
            iv == items_view(items@),
            fv == crate::git::files_view(files@),
            idx_ok(iv, files@.len() as int),
            rows_view(out@) == mid + file_rows(iv.take(i as int), depth as nat, fv),
    {
        proof {
            assert(iv.take(i + 1).drop_last() =~= iv.take(i as int));
            assert(iv.take(i + 1).last() == items@[i as int]@);
            assert(iv[i as int] == items@[i as int]@);
        }
        if items[i].segs.len() < 2 {
            push_file_row(&items[i], depth, files, out);
        }
    }
    assert(iv.take(iv.len() as int) =~= iv);
    assert(rows_view(out@) =~= start + tree_level(iv, base_segs, depth as nat, exp@, fv, h as nat));
}

/// Builds the Tree view of `files` with the directories in `expanded` open.
pub fn build_visible_rows(files: &Vec<FileEntry>, expanded: &DirSet) -> (r: Vec<VisibleRow>)
    ensures
        rows_view(r@) == tree_rows(crate::git::files_view(files@), expanded@),
{
    let ghost fv = crate::git::files_view(files@);
    let mut items: Vec<TreeItem> = Vec::new();
    let mut h: usize = 0;
    for i in 0..files.len()
        invariant
            fv == crate::git::files_view(files@),
            items_view(items@) == root_items(fv).take(i as int),
            h as nat == max_segs(root_items(fv).take(i as int)),
    {
        let segs = crate::text::split_path(files[i].path.as_str());
        let n = segs.len();
        let t = TreeItem { segs, idx: i };
        let ghost before = items@;
        items.push(t);
        proof {
            assert(t@ == root_items(fv)[i as int]);
            assert(items_view(items@) =~= items_view(before).push(t@));
            assert(root_items(fv).take(i + 1) =~= root_items(fv).take(i as int).push(root_items(fv)[i as int]));
            assert(root_items(fv).take(i + 1).drop_last() =~= root_items(fv).take(i as int));
        }
        if n > h {
            h = n;
        }
    }
    proof {
        assert(root_items(fv).take(files@.len() as int) =~= root_items(fv));
    }
    let mut out: Vec<VisibleRow> = Vec::new();
    let base = String::new();
    assert(base@ == join_all(Seq::<Seq<char>>::empty()));
    tree_level_exec(&items, &base, Ghost(Seq::<Seq<char>>::empty()), true, 0, expanded, files, h, &mut out);
    assert(rows_view(out@) =~= tree_rows(fv, expanded@));
    out
}

} // verus!
