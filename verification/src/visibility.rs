//! Which files the Tree view shows: a file's row is present whenever every
//! directory above it is expanded, however the directories are compressed
//! into chains.
use vstd::prelude::*;
use crate::git::FileView;
use crate::rows::{RowKey, RowView};
use crate::state::ancestors;
use crate::text::{lemma_split_nonempty, split_segments};
use crate::tree::{
    children, compress, dir_names, dirs_rows, file_rows, idx_ok, is_chain, join_all, lemma_children_idx,
    lemma_compress_height, lemma_compress_idx, max_segs, root_items, tree_level, tree_rows, ItemView,
};

verus! {

/// Whether some row of `rows` has identity `k`.
pub open spec fn has_row(rows: Seq<RowView>, k: RowKey) -> bool {
    exists|j: int| 0 <= j < rows.len() && (#[trigger] rows[j]).key() == k
}

proof fn lemma_has_row_concat(a: Seq<RowView>, b: Seq<RowView>, k: RowKey)
    requires
        has_row(a, k) || has_row(b, k),
    ensures
        has_row(a + b, k),
{
    if has_row(a, k) {
        let j = choose|j: int| 0 <= j < a.len() && (#[trigger] a[j]).key() == k;
        assert((a + b)[j] == a[j]);
    } else {
        let j = choose|j: int| 0 <= j < b.len() && (#[trigger] b[j]).key() == k;
        assert((a + b)[a.len() + j] == b[j]);
    }
}

proof fn lemma_file_rows_show(items: Seq<ItemView>, depth: nat, files: Seq<FileView>, m: int)
    requires
        0 <= m < items.len(),
        items[m].segs.len() < 2,
    ensures
        has_row(file_rows(items, depth, files), RowKey::File(files[items[m].idx].path)),
    decreases items.len(),
{
    let rows = file_rows(items, depth, files);
    let prev = file_rows(items.drop_last(), depth, files);
    if m == items.len() - 1 {
        assert(rows[rows.len() - 1].key() == RowKey::File(files[items[m].idx].path));
    } else {
        assert(items.drop_last()[m] == items[m]);
        lemma_file_rows_show(items.drop_last(), depth, files, m);
        let j = choose|j: int| 0 <= j < prev.len() && (#[trigger] prev[j]).key() == RowKey::File(files[items[m].idx].path);
        if items.last().segs.len() < 2 {
            assert(rows[j] == prev[j]);
        }
    }
}

proof fn lemma_dir_names_contains(items: Seq<ItemView>, m: int)
    requires
        0 <= m < items.len(),
        items[m].segs.len() >= 2,
    ensures
        dir_names(items).contains(items[m].segs[0]),
    decreases items.len(),
{
    let prev = dir_names(items.drop_last());
    if m == items.len() - 1 {
        if !prev.contains(items[m].segs[0]) {
            assert(dir_names(items)[prev.len() as int] == items[m].segs[0]);
        }
    } else {
        assert(items.drop_last()[m] == items[m]);
        lemma_dir_names_contains(items.drop_last(), m);
        let j = choose|j: int| 0 <= j < prev.len() && prev[j] == items[m].segs[0];
        assert(dir_names(items)[j] == prev[j]);
    }
}

proof fn lemma_children_contains(items: Seq<ItemView>, d: Seq<char>, m: int) -> (m2: int)
    requires
        0 <= m < items.len(),
        items[m].segs.len() >= 2,
        items[m].segs[0] == d,
    ensures
        0 <= m2 < children(items, d).len(),
        children(items, d)[m2] == (ItemView { segs: items[m].segs.drop_first(), idx: items[m].idx }),
    decreases items.len(),
{
    let prev = children(items.drop_last(), d);
    if m == items.len() - 1 {
        prev.len() as int
    } else {
        assert(items.drop_last()[m] == items[m]);
        let j = lemma_children_contains(items.drop_last(), d, m);
        let last = items.last();
        if last.segs.len() >= 2 && last.segs[0] == d {
            assert(children(items, d)[j] == prev[j]);
        }
        j
    }
}

/// Following a chain keeps track of every item: each ends up among the
/// chain's items, with the chain's path and its remaining segments still
/// spelling its whole path.
proof fn lemma_compress_tracks(path: Seq<Seq<char>>, label: Seq<char>, sub: Seq<ItemView>, h: nat, m: int, full: Seq<Seq<char>>) -> (m3: int)
    requires
        0 <= m < sub.len(),
        path + sub[m].segs == full,
        sub[m].segs.len() >= 1,
        h >= sub[m].segs.len(),
    ensures
        0 <= m3 < compress(path, label, sub, h).items.len(),
        compress(path, label, sub, h).items[m3].idx == sub[m].idx,
        compress(path, label, sub, h).path + compress(path, label, sub, h).items[m3].segs == full,
        compress(path, label, sub, h).items[m3].segs.len() >= 1,
        compress(path, label, sub, h).height >= compress(path, label, sub, h).items[m3].segs.len(),
        compress(path, label, sub, h).path.len() >= path.len(),
    decreases h,
{
    lemma_compress_height(path, label, sub, h);
    if h > 0 && is_chain(sub) {
        let e = sub[0].segs[0];
        let it = sub[m];
        assert(it.segs.len() >= 2 && it.segs[0] == e);
        let m2 = lemma_children_contains(sub, e, m);
        let next = children(sub, e);
        assert(path.push(e) + next[m2].segs =~= path + it.segs);
        lemma_compress_tracks(path.push(e), label + seq!['/'] + e, next, (h - 1) as nat, m2, full)
    } else {
        m
    }
}

/// Whether `full` is the path of an item at the level whose base is
/// `base`: the base followed by the item's segments.
pub open spec fn item_path_ok(it: ItemView, base: Seq<Seq<char>>, files: Seq<FileView>) -> bool {
    &&& 0 <= it.idx < files.len()
    &&& it.segs.len() >= 1
    &&& base + it.segs == split_segments(files[it.idx].path)
}

proof fn lemma_chain_dir_is_ancestor(c_path: Seq<Seq<char>>, segs: Seq<Seq<char>>, full: Seq<Seq<char>>, p: Seq<char>)
    requires
        c_path + segs == full,
        full == split_segments(p),
        segs.len() >= 1,
        c_path.len() >= 1,
    ensures
        ancestors(p).contains(join_all(c_path)),
{
    let k = c_path.len() as int;
    assert(full.take(k) =~= c_path);
    assert(1 <= k < full.len());
}

/// A level of the Tree view shows an item's file when every directory above
/// the file is expanded and the height leaves room for its segments.
proof fn lemma_level_shows(
    items: Seq<ItemView>,
    base: Seq<Seq<char>>,
    depth: nat,
    exp: Set<Seq<char>>,
    files: Seq<FileView>,
    h: nat,
    m: int,
)
    requires
        0 <= m < items.len(),
        item_path_ok(items[m], base, files),
        h >= items[m].segs.len(),
        ancestors(files[items[m].idx].path).subset_of(exp),
    ensures
        has_row(tree_level(items, base, depth, exp, files, h), RowKey::File(files[items[m].idx].path)),
    decreases h, 0nat,
{
    let it = items[m];
    let k = RowKey::File(files[it.idx].path);
    let dirs = dir_names(items);
    let drows = dirs_rows(dirs, items, base, depth, exp, files, (h - 1) as nat);
    let frows = file_rows(items, depth, files);
    assert(tree_level(items, base, depth, exp, files, h) == drows + frows);
    if it.segs.len() < 2 {
        lemma_file_rows_show(items, depth, files, m);
    } else {
        lemma_dir_names_contains(items, m);
        let n = choose|n: int| 0 <= n < dirs.len() && dirs[n] == it.segs[0];
        lemma_dirs_rows_show(dirs, items, base, depth, exp, files, (h - 1) as nat, m, n);
    }
    lemma_has_row_concat(drows, frows, k);
}

proof fn lemma_dirs_rows_show(
    dirs: Seq<Seq<char>>,
    items: Seq<ItemView>,
    base: Seq<Seq<char>>,
    depth: nat,
    exp: Set<Seq<char>>,
    files: Seq<FileView>,
    h: nat,
    m: int,
    n: int,
)
    requires
        0 <= m < items.len(),
        item_path_ok(items[m], base, files),
        items[m].segs.len() >= 2,
        h + 1 >= items[m].segs.len(),
        0 <= n < dirs.len(),
        dirs[n] == items[m].segs[0],
        ancestors(files[items[m].idx].path).subset_of(exp),
    ensures
        has_row(dirs_rows(dirs, items, base, depth, exp, files, h), RowKey::File(files[items[m].idx].path)),
    decreases h, dirs.len(),
{
    let it = items[m];
    let k = RowKey::File(files[it.idx].path);
    let full = split_segments(files[it.idx].path);
    let d = dirs[0];
    let c = compress(base.push(d), d, children(items, d), h);
    lemma_compress_height(base.push(d), d, children(items, d), h);
    let id = join_all(c.path);
    let open = exp.contains(id);
    let row = RowView::Directory { id: RowKey::Directory(id), depth, label: c.label + seq!['/'], expanded: open };
    let inner = if open { tree_level(c.items, c.path, depth + 1, exp, files, c.height) } else { Seq::empty() };
    let rest = dirs_rows(dirs.drop_first(), items, base, depth, exp, files, h);
    assert(dirs_rows(dirs, items, base, depth, exp, files, h) == seq![row] + inner + rest);
    if n == 0 {
        let m2 = lemma_children_contains(items, d, m);
        let sub = children(items, d);
        assert(base.push(d) + sub[m2].segs =~= base + it.segs);
        let m3 = lemma_compress_tracks(base.push(d), d, sub, h, m2, full);
        lemma_chain_dir_is_ancestor(c.path, c.items[m3].segs, full, files[it.idx].path);
        assert(open);
        lemma_level_shows(c.items, c.path, depth + 1, exp, files, c.height, m3);
        lemma_has_row_concat(seq![row], inner, k);
        lemma_has_row_concat(seq![row] + inner, rest, k);
    } else {
        assert(dirs.drop_first()[n - 1] == dirs[n]);
        lemma_dirs_rows_show(dirs.drop_first(), items, base, depth, exp, files, h, m, n - 1);
        lemma_has_row_concat(seq![row] + inner, rest, k);
    }
}

proof fn lemma_max_segs(items: Seq<ItemView>, m: int)
    requires
        0 <= m < items.len(),
    ensures
        max_segs(items) >= items[m].segs.len(),
    decreases items.len(),
{
    if m < items.len() - 1 {
        assert(items.drop_last()[m] == items[m]);
        lemma_max_segs(items.drop_last(), m);
    }
}

/// The Tree view shows the row of every listed file all of whose enclosing
/// directories are expanded.
pub proof fn lemma_tree_rows_show(files: Seq<FileView>, exp: Set<Seq<char>>, i: int)
    requires
        0 <= i < files.len(),
        ancestors(files[i].path).subset_of(exp),
    ensures
        has_row(tree_rows(files, exp), RowKey::File(files[i].path)),
{
    let items = root_items(files);
    lemma_split_nonempty(files[i].path);
    assert(Seq::<Seq<char>>::empty() + items[i].segs =~= split_segments(files[i].path));
    lemma_max_segs(items, i);
    lemma_level_shows(items, Seq::empty(), 0, exp, files, max_segs(items), i);
}

/// Joining a path that extends `base` by at least one segment gives a
/// longer string than joining `base`.
proof fn lemma_join_longer(base: Seq<Seq<char>>, p: Seq<Seq<char>>)
    requires
        base.len() >= 1,
        p.len() > base.len(),
        p.take(base.len() as int) == base,
    ensures
        join_all(p).len() > join_all(base).len(),
    decreases p.len(),
{
    let init = p.drop_last();
    assert(join_all(p) == join_all(init) + seq!['/'] + p.last());
    if init.len() == base.len() {
        assert(init =~= p.take(base.len() as int));
    } else {
        assert(init.take(base.len() as int) =~= p.take(base.len() as int));
        lemma_join_longer(base, init);
    }
}

/// Following a chain only extends the path it starts from.
proof fn lemma_compress_extends(path: Seq<Seq<char>>, label: Seq<char>, sub: Seq<ItemView>, h: nat)
    ensures
        compress(path, label, sub, h).path.len() >= path.len(),
        compress(path, label, sub, h).path.take(path.len() as int) == path,
    decreases h,
{
    if h > 0 && is_chain(sub) {
        let e = sub[0].segs[0];
        lemma_compress_extends(path.push(e), label + seq!['/'] + e, children(sub, e), (h - 1) as nat);
        let c = compress(path.push(e), label + seq!['/'] + e, children(sub, e), (h - 1) as nat);
        assert(c.path.take(path.len() as int) =~= c.path.take(path.len() + 1int).take(path.len() as int));
        assert(path.push(e).take(path.len() as int) =~= path);
    } else {
        assert(path.take(path.len() as int) =~= path);
    }
}

/// Whether every directory row of `rows` has an identity longer than `n`.
pub open spec fn dir_ids_longer(rows: Seq<RowView>, n: nat) -> bool {
    forall|j: int| 0 <= j < rows.len() && (#[trigger] rows[j]).key() is Directory ==> rows[j].key()->Directory_0.len() > n
}

proof fn lemma_dir_ids_concat(a: Seq<RowView>, b: Seq<RowView>, n: nat)
    requires
        dir_ids_longer(a, n),
        dir_ids_longer(b, n),
    ensures
        dir_ids_longer(a + b, n),
{
    assert forall|j: int| 0 <= j < (a + b).len() && (#[trigger] (a + b)[j]).key() is Directory implies (a + b)[j].key()->Directory_0.len() > n by {
        if j < a.len() {
            assert((a + b)[j] == a[j]);
        } else {
            assert((a + b)[j] == b[j - a.len()]);
        }
    }
}

proof fn lemma_file_rows_no_dirs(items: Seq<ItemView>, depth: nat, files: Seq<FileView>)
    ensures
        forall|j: int| 0 <= j < file_rows(items, depth, files).len() ==> (#[trigger] file_rows(items, depth, files)[j]).key() is File,
    decreases items.len(),
{
    if items.len() > 0 {
        lemma_file_rows_no_dirs(items.drop_last(), depth, files);
        let prev = file_rows(items.drop_last(), depth, files);
        let rows = file_rows(items, depth, files);
        assert forall|j: int| 0 <= j < rows.len() implies (#[trigger] rows[j]).key() is File by {
            if j < prev.len() {
                assert(rows[j] == prev[j]);
            }
        }
    }
}

/// Below a directory, every directory row has a longer identity than the
/// directory's own.
proof fn lemma_level_dirs_longer(
    items: Seq<ItemView>,
    base: Seq<Seq<char>>,
    depth: nat,
    exp: Set<Seq<char>>,
    files: Seq<FileView>,
    h: nat,
)
    requires
        base.len() >= 1,
    ensures
        dir_ids_longer(tree_level(items, base, depth, exp, files, h), join_all(base).len()),
    decreases h, 0nat,
{
    if h > 0 {
        let drows = dirs_rows(dir_names(items), items, base, depth, exp, files, (h - 1) as nat);
        let frows = file_rows(items, depth, files);
        lemma_dirs_longer(dir_names(items), items, base, depth, exp, files, (h - 1) as nat);
        lemma_file_rows_no_dirs(items, depth, files);
        lemma_dir_ids_concat(drows, frows, join_all(base).len());
    }
}

proof fn lemma_dirs_longer(
    dirs: Seq<Seq<char>>,
    items: Seq<ItemView>,
    base: Seq<Seq<char>>,
    depth: nat,
    exp: Set<Seq<char>>,
    files: Seq<FileView>,
    h: nat,
)
    requires
        base.len() >= 1,
    ensures
        dir_ids_longer(dirs_rows(dirs, items, base, depth, exp, files, h), join_all(base).len()),
    decreases h, dirs.len(),
{
    if dirs.len() > 0 {
        let n = join_all(base).len();
        let d = dirs[0];
        let c = compress(base.push(d), d, children(items, d), h);
        lemma_compress_height(base.push(d), d, children(items, d), h);
        lemma_compress_extends(base.push(d), d, children(items, d), h);
        let id = join_all(c.path);
        let open = exp.contains(id);
        let row = RowView::Directory { id: RowKey::Directory(id), depth, label: c.label + seq!['/'], expanded: open };
        let inner = if open { tree_level(c.items, c.path, depth + 1, exp, files, c.height) } else { Seq::empty() };
        let rest = dirs_rows(dirs.drop_first(), items, base, depth, exp, files, h);
        assert(dirs_rows(dirs, items, base, depth, exp, files, h) == seq![row] + inner + rest);
        assert(c.path.take(base.len() as int) =~= base) by {
            assert(c.path.take(base.len() as int) =~= c.path.take(base.len() + 1int).take(base.len() as int));
            assert(base.push(d).take(base.len() as int) =~= base);
        }
        lemma_join_longer(base, c.path);
        assert(dir_ids_longer(seq![row], n));
        if open {
            lemma_level_dirs_longer(c.items, c.path, depth + 1, exp, files, c.height);
        }
        lemma_dirs_longer(dirs.drop_first(), items, base, depth, exp, files, h);
        lemma_dir_ids_concat(seq![row], inner, n);
        lemma_dir_ids_concat(seq![row] + inner, rest, n);
    }
}

/// Whether `a` and `b` agree on every directory other than `d`.
pub open spec fn agree_except(a: Set<Seq<char>>, b: Set<Seq<char>>, d: Seq<char>) -> bool {
    forall|x: Seq<char>| x != d ==> (a.contains(x) == b.contains(x))
}

proof fn lemma_level_keeps_dir(
    items: Seq<ItemView>,
    base: Seq<Seq<char>>,
    depth: nat,
    exp: Set<Seq<char>>,
    exp2: Set<Seq<char>>,
    files: Seq<FileView>,
    h: nat,
    d: Seq<char>,
)
    requires
        agree_except(exp, exp2, d),
        has_row(tree_level(items, base, depth, exp, files, h), RowKey::Directory(d)),
    ensures
        has_row(tree_level(items, base, depth, exp2, files, h), RowKey::Directory(d)),
    decreases h, 0nat,
{
    let k = RowKey::Directory(d);
    let drows = dirs_rows(dir_names(items), items, base, depth, exp, files, (h - 1) as nat);
    let frows = file_rows(items, depth, files);
    assert(tree_level(items, base, depth, exp, files, h) == drows + frows);
    lemma_file_rows_no_dirs(items, depth, files);
    let all = drows + frows;
    let j = choose|j: int| 0 <= j < all.len() && (#[trigger] all[j]).key() == k;
    if j >= drows.len() {
        assert(all[j] == frows[j - drows.len()]);
        assert(false);
    }
    assert(all[j] == drows[j]);
    lemma_dirs_keeps_dir(dir_names(items), items, base, depth, exp, exp2, files, (h - 1) as nat, d);
    let drows2 = dirs_rows(dir_names(items), items, base, depth, exp2, files, (h - 1) as nat);
    let frows2 = file_rows(items, depth, files);
    assert(tree_level(items, base, depth, exp2, files, h) == drows2 + frows2);
    lemma_has_row_concat(drows2, frows2, k);
}

proof fn lemma_dirs_keeps_dir(
    dirs: Seq<Seq<char>>,
    items: Seq<ItemView>,
    base: Seq<Seq<char>>,
    depth: nat,
    exp: Set<Seq<char>>,
    exp2: Set<Seq<char>>,
    files: Seq<FileView>,
    h: nat,
    d: Seq<char>,
)
    requires
        agree_except(exp, exp2, d),
        has_row(dirs_rows(dirs, items, base, depth, exp, files, h), RowKey::Directory(d)),
    ensures
        has_row(dirs_rows(dirs, items, base, depth, exp2, files, h), RowKey::Directory(d)),
    decreases h, dirs.len(),
{
    let k = RowKey::Directory(d);
    let x = dirs[0];
    let c = compress(base.push(x), x, children(items, x), h);
    lemma_compress_height(base.push(x), x, children(items, x), h);
    lemma_compress_extends(base.push(x), x, children(items, x), h);
    let id = join_all(c.path);
    let open = exp.contains(id);
    let open2 = exp2.contains(id);
    let row = RowView::Directory { id: RowKey::Directory(id), depth, label: c.label + seq!['/'], expanded: open };
    let row2 = RowView::Directory { id: RowKey::Directory(id), depth, label: c.label + seq!['/'], expanded: open2 };
    let inner = if open { tree_level(c.items, c.path, depth + 1, exp, files, c.height) } else { Seq::empty() };
    let inner2 = if open2 { tree_level(c.items, c.path, depth + 1, exp2, files, c.height) } else { Seq::empty() };
    let rest = dirs_rows(dirs.drop_first(), items, base, depth, exp, files, h);
    let rest2 = dirs_rows(dirs.drop_first(), items, base, depth, exp2, files, h);
    assert(dirs_rows(dirs, items, base, depth, exp, files, h) == seq![row] + inner + rest);
    assert(dirs_rows(dirs, items, base, depth, exp2, files, h) == seq![row2] + inner2 + rest2);
    let all = seq![row] + inner + rest;
    let j = choose|j: int| 0 <= j < all.len() && (#[trigger] all[j]).key() == k;
    if j == 0 {
        assert(all[0] == row);
        assert((seq![row2] + inner2 + rest2)[0] == row2);
    } else if j < 1 + inner.len() {
        assert(all[j] == inner[j - 1]);
        assert(open);
        if id == d {
            lemma_level_dirs_longer(c.items, c.path, depth + 1, exp, files, c.height);
            assert(inner[j - 1].key() is Directory);
            assert(false);
        }
        assert(open2);
        lemma_level_keeps_dir(c.items, c.path, depth + 1, exp, exp2, files, c.height, d);
        lemma_has_row_concat(seq![row2], inner2, k);
        lemma_has_row_concat(seq![row2] + inner2, rest2, k);
    } else {
        assert(all[j] == rest[j - 1 - inner.len()]);
        lemma_dirs_keeps_dir(dirs.drop_first(), items, base, depth, exp, exp2, files, h, d);
        lemma_has_row_concat(seq![row2] + inner2, rest2, k);
    }
}

/// Opening or closing directory `d` keeps its own row in the Tree view:
/// the rows above it do not depend on it, and no directory below it has its
/// identity.
pub proof fn lemma_tree_keeps_dir(files: Seq<FileView>, exp: Set<Seq<char>>, exp2: Set<Seq<char>>, d: Seq<char>)
    requires
        agree_except(exp, exp2, d),
        has_row(tree_rows(files, exp), RowKey::Directory(d)),
    ensures
        has_row(tree_rows(files, exp2), RowKey::Directory(d)),
{
    let items = root_items(files);
    lemma_level_keeps_dir(items, Seq::empty(), 0, exp, exp2, files, max_segs(items), d);
}

/// Whether every file row of `rows` belongs to a listed file.
pub open spec fn file_keys_listed(rows: Seq<RowView>, files: Seq<FileView>) -> bool {
    forall|j: int| 0 <= j < rows.len() && (#[trigger] rows[j]).key() is File
        ==> exists|i: int| 0 <= i < files.len() && files[i].path == rows[j].key()->File_0
}

proof fn lemma_listed_concat(a: Seq<RowView>, b: Seq<RowView>, files: Seq<FileView>)
    requires
        file_keys_listed(a, files),
        file_keys_listed(b, files),
    ensures
        file_keys_listed(a + b, files),
{
    assert forall|j: int| 0 <= j < (a + b).len() && (#[trigger] (a + b)[j]).key() is File implies
        exists|i: int| 0 <= i < files.len() && files[i].path == (a + b)[j].key()->File_0 by {
        if j < a.len() {
            assert((a + b)[j] == a[j]);
        } else {
            assert((a + b)[j] == b[j - a.len()]);
        }
    }
}

proof fn lemma_file_rows_listed(items: Seq<ItemView>, depth: nat, files: Seq<FileView>)
    requires
        idx_ok(items, files.len() as int),
    ensures
        file_keys_listed(file_rows(items, depth, files), files),
    decreases items.len(),
{
    if items.len() > 0 {
        let init = items.drop_last();
        assert(idx_ok(init, files.len() as int)) by {
            assert forall|i: int| 0 <= i < init.len() implies 0 <= (#[trigger] init[i]).idx < files.len() by {
                assert(init[i] == items[i]);
            }
        }
        lemma_file_rows_listed(init, depth, files);
        let prev = file_rows(init, depth, files);
        let rows = file_rows(items, depth, files);
        let it = items.last();
        assert(0 <= it.idx < files.len());
        assert forall|j: int| 0 <= j < rows.len() && (#[trigger] rows[j]).key() is File implies
            exists|i: int| 0 <= i < files.len() && files[i].path == rows[j].key()->File_0 by {
            if j < prev.len() {
                assert(rows[j] == prev[j]);
            } else {
                assert(rows[j].key() == RowKey::File(files[it.idx].path));
            }
        }
    }
}

proof fn lemma_level_listed(
    items: Seq<ItemView>,
    base: Seq<Seq<char>>,
    depth: nat,
    exp: Set<Seq<char>>,
    files: Seq<FileView>,
    h: nat,
)
    requires
        idx_ok(items, files.len() as int),
    ensures
        file_keys_listed(tree_level(items, base, depth, exp, files, h), files),
    decreases h, 0nat,
{
    if h > 0 {
        let drows = dirs_rows(dir_names(items), items, base, depth, exp, files, (h - 1) as nat);
        let frows = file_rows(items, depth, files);
        lemma_dirs_listed(dir_names(items), items, base, depth, exp, files, (h - 1) as nat);
        lemma_file_rows_listed(items, depth, files);
        lemma_listed_concat(drows, frows, files);
    }
}

proof fn lemma_dirs_listed(
    dirs: Seq<Seq<char>>,
    items: Seq<ItemView>,
    base: Seq<Seq<char>>,
    depth: nat,
    exp: Set<Seq<char>>,
    files: Seq<FileView>,
    h: nat,
)
    requires
        idx_ok(items, files.len() as int),
    ensures
        file_keys_listed(dirs_rows(dirs, items, base, depth, exp, files, h), files),
    decreases h, dirs.len(),
{
    if dirs.len() > 0 {
        let d = dirs[0];
        let c = compress(base.push(d), d, children(items, d), h);
        lemma_compress_height(base.push(d), d, children(items, d), h);
        lemma_children_idx(items, d, files.len() as int);
        lemma_compress_idx(base.push(d), d, children(items, d), h, files.len() as int);
        let id = join_all(c.path);
        let open = exp.contains(id);
        let row = RowView::Directory { id: RowKey::Directory(id), depth, label: c.label + seq!['/'], expanded: open };
        let inner = if open { tree_level(c.items, c.path, depth + 1, exp, files, c.height) } else { Seq::empty() };
        let rest = dirs_rows(dirs.drop_first(), items, base, depth, exp, files, h);
        assert(dirs_rows(dirs, items, base, depth, exp, files, h) == seq![row] + inner + rest);
        assert(file_keys_listed(seq![row], files));
        if open {
            lemma_level_listed(c.items, c.path, depth + 1, exp, files, c.height);
        }
        lemma_dirs_listed(dirs.drop_first(), items, base, depth, exp, files, h);
        lemma_listed_concat(seq![row], inner, files);
        lemma_listed_concat(seq![row] + inner, rest, files);
    }
}

/// Every file row of the Tree view belongs to a listed file.
pub proof fn lemma_tree_rows_listed(files: Seq<FileView>, exp: Set<Seq<char>>)
    ensures
        file_keys_listed(tree_rows(files, exp), files),
{
    let items = root_items(files);
    lemma_level_listed(items, Seq::empty(), 0, exp, files, max_segs(items));
}

} // verus!
