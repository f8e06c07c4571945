//! Properties of the view model that hold across its operations: the
//! selection always lands on a row, refreshes and mode changes keep the
//! selected file selected where it is still shown, and cycling the view
//! comes back to where it started.
use vstd::prelude::*;
use crate::git::{ChangeGroup, FileView};
use crate::visibility::{agree_except, file_keys_listed, has_row, lemma_tree_keeps_dir, lemma_tree_rows_listed, lemma_tree_rows_show};
use crate::rows::{condensed_rows, group_files, group_rows, groups_rows, normal_file_row, normal_rows, RowKey, RowView};
use crate::state::{
    clamp_select, cycle_post, find_file, find_key, first_post, last_post, lemma_find_file_bounds,
    lemma_find_key_bounds, next_mode, next_post, page_post, previous_post, restore_by_id,
    restore_condensed, rows_for, toggle_directory_post, ancestors, expand_for, toggle_group_post, update_post,
    change_kind, flash_changes, flash_insert, flash_lookup, flash_retain, FlashKind, FlashView,
    StateView, ViewMode,
};

verus! {

/// Whether the selection of `s` sits on one of its rows with that row's
/// identity recorded, or, when there are no rows, on nothing.
pub open spec fn selection_valid(s: StateView) -> bool {
    let rows = s.rows();
    if rows.len() == 0 {
        s.selected == 0 && s.selected_row is None
    } else {
        s.selected < rows.len() && s.selected_row == Some(rows[s.selected as int].key())
    }
}

/// Whether `(selected, selected_row)` is a valid selection among `rows`.
pub open spec fn lands_on_row(rows: Seq<RowView>, sel: (usize, Option<RowKey>)) -> bool {
    if rows.len() == 0 {
        sel.0 == 0 && sel.1 is None
    } else {
        sel.0 < rows.len() && sel.1 == Some(rows[sel.0 as int].key())
    }
}

proof fn lemma_clamp_lands(rows: Seq<RowView>, target: int)
    requires
        target >= 0,
        rows.len() <= usize::MAX,
    ensures
        lands_on_row(rows, clamp_select(rows, target)),
{
}

proof fn lemma_restore_by_id_lands(rows: Seq<RowView>, snap: crate::state::Snapshot, selected: int)
    requires
        selected >= 0,
        rows.len() <= usize::MAX,
    ensures
        lands_on_row(rows, restore_by_id(rows, snap, selected)),
{
    if snap.row is Some {
        lemma_find_key_bounds(rows, snap.row->0);
    }
    if snap.path is Some {
        lemma_find_key_bounds(rows, RowKey::File(snap.path->0));
    }
    if snap.row is Some && find_key(rows, snap.row->0) >= 0 {
        lemma_clamp_lands(rows, find_key(rows, snap.row->0));
    } else if snap.path is Some && find_key(rows, RowKey::File(snap.path->0)) >= 0 {
        lemma_clamp_lands(rows, find_key(rows, RowKey::File(snap.path->0)));
    } else {
        lemma_clamp_lands(rows, selected);
    }
}

proof fn lemma_restore_condensed_lands(files: Seq<FileView>, path: Option<Seq<char>>, selected: int)
    requires
        selected >= 0,
        files.len() <= usize::MAX,
    ensures
        lands_on_row(condensed_rows(files), restore_condensed(files, path, selected)),
{
    if path is Some {
        lemma_find_file_bounds(files, path->0);
    }
}

/// Moving the selection (next, previous, first, last, a page either way)
/// keeps it on a row of the list.
pub proof fn law_navigation_keeps_selection_valid(s: StateView, delta: int)
    requires
        selection_valid(s),
        s.rows().len() <= usize::MAX,
    ensures
        selection_valid(next_post(s)),
        selection_valid(previous_post(s)),
        selection_valid(first_post(s)),
        selection_valid(last_post(s)),
        selection_valid(page_post(s, delta)),
{
    let rows = s.rows();
    if rows.len() > 0 {
        lemma_clamp_lands(rows, s.selected + 1);
        lemma_clamp_lands(rows, rows.len() - 1);
        lemma_clamp_lands(rows, if s.selected + delta < 0 { 0 } else { s.selected + delta });
    }
    lemma_clamp_lands(rows, if s.selected > 0 { s.selected - 1 } else { 0 });
    lemma_clamp_lands(rows, 0);
}

/// After a refresh of the file list the selection is on a row of the new
/// list (or on nothing when it is empty), whatever it was before.
pub proof fn law_update_selection_valid(s: StateView, new_files: Seq<FileView>, now: u128)
    requires
        update_post(s, new_files, now).rows().len() <= usize::MAX,
    ensures
        selection_valid(update_post(s, new_files, now)),
{
    let t = update_post(s, new_files, now);
    let snap = s.snapshot();
    if s.view_mode == ViewMode::Condensed {
        lemma_restore_condensed_lands(new_files, snap.path, s.selected as int);
    } else {
        lemma_restore_by_id_lands(rows_for(s.view_mode, new_files, t.expanded, s.collapsed), snap, s.selected as int);
    }
}

/// After cycling the view mode the selection is on a row of the new view.
pub proof fn law_cycle_selection_valid(s: StateView)
    requires
        cycle_post(s).rows().len() <= usize::MAX,
    ensures
        selection_valid(cycle_post(s)),
{
    let t = cycle_post(s);
    let snap = s.snapshot();
    if t.view_mode == ViewMode::Condensed {
        lemma_restore_condensed_lands(s.files, snap.path, s.selected as int);
    } else {
        lemma_restore_by_id_lands(rows_for(t.view_mode, s.files, t.expanded, s.collapsed), snap, s.selected as int);
    }
}

/// Opening or closing the selected directory, or collapsing or expanding
/// the selected group, keeps the selection on a row.
pub proof fn law_toggles_keep_selection_valid(s: StateView)
    requires
        selection_valid(s),
        toggle_directory_post(s).1.rows().len() <= usize::MAX,
        toggle_group_post(s).1.rows().len() <= usize::MAX,
    ensures
        selection_valid(toggle_directory_post(s).1),
        selection_valid(toggle_group_post(s).1),
{
    let d = toggle_directory_post(s);
    if d.0 {
        let p = s.rows()[s.selected as int].key()->Directory_0;
        let rows = d.1.rows();
        lemma_find_key_bounds(rows, RowKey::Directory(p));
        lemma_clamp_lands(rows, if find_key(rows, RowKey::Directory(p)) >= 0 { find_key(rows, RowKey::Directory(p)) } else { s.selected as int });
    }
    let g = toggle_group_post(s);
    if g.0 {
        let k = s.rows()[s.selected as int].key()->Group_0;
        let rows = g.1.rows();
        lemma_find_key_bounds(rows, RowKey::Group(k));
        lemma_clamp_lands(rows, if find_key(rows, RowKey::Group(k)) >= 0 { find_key(rows, RowKey::Group(k)) } else { s.selected as int });
    }
}

/// Cycling the view mode three times comes back to the starting mode
/// (Normal, Condensed, Tree, and round again).
pub proof fn law_cycle_three_times_restores_mode(s: StateView)
    ensures
        cycle_post(cycle_post(cycle_post(s))).view_mode == s.view_mode,
        next_mode(next_mode(next_mode(s.view_mode))) == s.view_mode,
{
}

/// The first refresh after the state was created or reset flashes nothing:
/// there is no earlier list to compare against.
pub proof fn law_first_refresh_does_not_flash(s: StateView, new_files: Seq<FileView>, now: u128)
    requires
        !s.initial_seed_done,
    ensures
        update_post(s, new_files, now).flashes == s.flashes,
        update_post(s, new_files, now).initial_seed_done,
{
}

/// Whether the Normal view of `files` with the groups `collapsed` shows a
/// row for path `p`: some file with that path is in an open group.
pub open spec fn shown_in_normal(files: Seq<FileView>, collapsed: Set<ChangeGroup>, p: Seq<char>) -> bool {
    exists|i: int| 0 <= i < files.len() && files[i].path == p && !collapsed.contains(files[i].group)
}

proof fn lemma_group_rows_show(files: Seq<FileView>, collapsed: Set<ChangeGroup>, i: int)
    requires
        0 <= i < files.len(),
        !collapsed.contains(files[i].group),
    ensures
        exists|j: int| 0 <= j < group_rows(files, files[i].group, collapsed).len()
            && (#[trigger] group_rows(files, files[i].group, collapsed)[j]).key() == RowKey::File(files[i].path),
{
    let g = files[i].group;
    let pred = |f: FileView| f.group == g;
    let members = group_files(files, g);
    files.lemma_filter_contains(pred, i);
    assert(members.contains(files[i]));
    let m = choose|m: int| 0 <= m < members.len() && members[m] == files[i];
    let rows = group_rows(files, g, collapsed);
    assert(rows[1 + m] == normal_file_row(members[m]));
    assert(rows[1 + m].key() == RowKey::File(files[i].path));
}

proof fn lemma_groups_rows_show(files: Seq<FileView>, groups: Seq<ChangeGroup>, collapsed: Set<ChangeGroup>, i: int)
    requires
        0 <= i < files.len(),
        !collapsed.contains(files[i].group),
        groups.contains(files[i].group),
    ensures
        exists|j: int| 0 <= j < groups_rows(files, groups, collapsed).len()
            && (#[trigger] groups_rows(files, groups, collapsed)[j]).key() == RowKey::File(files[i].path),
    decreases groups.len(),
{
    let g = files[i].group;
    let prev = groups_rows(files, groups.drop_last(), collapsed);
    let last = group_rows(files, groups.last(), collapsed);
    let all = groups_rows(files, groups, collapsed);
    assert(all == prev + last);
    if groups.last() == g {
        lemma_group_rows_show(files, collapsed, i);
        let j = choose|j: int| 0 <= j < last.len() && (#[trigger] last[j]).key() == RowKey::File(files[i].path);
        assert(all[prev.len() + j] == last[j]);
    } else {
        let k = choose|k: int| 0 <= k < groups.len() && groups[k] == g;
        assert(groups.drop_last()[k] == g);
        lemma_groups_rows_show(files, groups.drop_last(), collapsed, i);
        let j = choose|j: int| 0 <= j < prev.len() && (#[trigger] prev[j]).key() == RowKey::File(files[i].path);
        assert(all[j] == prev[j]);
    }
}

/// The Normal view shows a row for every file in an open group.
pub proof fn lemma_normal_rows_show(files: Seq<FileView>, collapsed: Set<ChangeGroup>, i: int)
    requires
        0 <= i < files.len(),
        !collapsed.contains(files[i].group),
    ensures
        find_key(normal_rows(files, collapsed), RowKey::File(files[i].path)) >= 0,
{
    let order = crate::git::group_order();
    let g = files[i].group;
    assert(order.contains(g)) by {
        match g {
            ChangeGroup::Committed => assert(order[0] == g),
            ChangeGroup::Staged => assert(order[1] == g),
            ChangeGroup::Changes => assert(order[2] == g),
            ChangeGroup::Untracked => assert(order[3] == g),
        }
    }
    lemma_groups_rows_show(files, order, collapsed, i);
    lemma_find_key_bounds(normal_rows(files, collapsed), RowKey::File(files[i].path));
}

proof fn lemma_found_lands(rows: Seq<RowView>, k: RowKey)
    requires
        find_key(rows, k) >= 0,
        rows.len() <= usize::MAX,
    ensures
        clamp_select(rows, find_key(rows, k)).0 == find_key(rows, k),
        rows[find_key(rows, k)].key() == k,
{
    lemma_find_key_bounds(rows, k);
}

/// Whether the view in mode `m` of `files`, with the directories `exp`
/// expanded and the groups `collapsed` collapsed, shows a row for the file
/// `p` once the directories above it are opened: always in Condensed and
/// Tree mode, and in Normal mode when a file with that path is in an open
/// group.
pub open spec fn shown_after(m: ViewMode, files: Seq<FileView>, collapsed: Set<ChangeGroup>, p: Seq<char>) -> bool {
    &&& exists|i: int| 0 <= i < files.len() && files[i].path == p
    &&& m == ViewMode::Normal ==> shown_in_normal(files, collapsed, p)
}

/// With the selection on file `p`, the rows rebuilt in mode `m` hold the
/// row of `p`, and restoring the selection puts it back on that row.
proof fn lemma_restore_keeps_file(
    m: ViewMode,
    files: Seq<FileView>,
    exp: Set<Seq<char>>,
    collapsed: Set<ChangeGroup>,
    snap: crate::state::Snapshot,
    selected: int,
    p: Seq<char>,
)
    requires
        snap.path == Some(p),
        snap.row == Some(RowKey::File(p)),
        shown_after(m, files, collapsed, p),
        m == ViewMode::Tree ==> ancestors(p).subset_of(exp),
        rows_for(m, files, exp, collapsed).len() <= usize::MAX,
        selected >= 0,
    ensures
        ({
            let rows = rows_for(m, files, exp, collapsed);
            let sel = crate::state::restore_for(m, rows, files, snap, selected);
            &&& sel.0 < rows.len()
            &&& rows[sel.0 as int].key() == RowKey::File(p)
            &&& sel.1 == Some(RowKey::File(p))
        }),
{
    let rows = rows_for(m, files, exp, collapsed);
    if m == ViewMode::Condensed {
        lemma_find_file_bounds(files, p);
        let k = find_file(files, p);
        assert(rows[k].key() == RowKey::File(p));
    } else {
        let k = RowKey::File(p);
        if m == ViewMode::Normal {
            let i = choose|i: int| 0 <= i < files.len() && files[i].path == p && !collapsed.contains(files[i].group);
            lemma_normal_rows_show(files, collapsed, i);
        } else {
            let i = choose|i: int| 0 <= i < files.len() && files[i].path == p;
            lemma_tree_rows_show(files, exp, i);
            lemma_find_key_bounds(rows, k);
            if find_key(rows, k) < 0 {
                let j = choose|j: int| 0 <= j < rows.len() && (#[trigger] rows[j]).key() == k;
                assert(rows[j].key() != k);
            }
        }
        lemma_found_lands(rows, k);
    }
}

proof fn lemma_selected_file_key(s: StateView, p: Seq<char>)
    requires
        s.snapshot().path == Some(p),
    ensures
        s.snapshot().row == Some(RowKey::File(p)),
{
}

/// A refresh keeps the selected file selected whenever the new list still
/// shows it: in Condensed and Tree mode when the new list holds its path
/// (in Tree mode the directories above it are opened), in Normal mode when
/// a file with that path is in a group that is not collapsed.
pub proof fn law_update_keeps_selected_file(s: StateView, new_files: Seq<FileView>, now: u128, p: Seq<char>)
    requires
        s.snapshot().path == Some(p),
        shown_after(s.view_mode, new_files, s.collapsed, p),
        update_post(s, new_files, now).rows().len() <= usize::MAX,
    ensures
        update_post(s, new_files, now).snapshot().path == Some(p),
        update_post(s, new_files, now).selected_row == Some(RowKey::File(p)),
{
    let t = update_post(s, new_files, now);
    lemma_selected_file_key(s, p);
    lemma_restore_keeps_file(s.view_mode, new_files, t.expanded, s.collapsed, s.snapshot(), s.selected as int, p);
}

proof fn lemma_group_rows_listed(files: Seq<FileView>, g: ChangeGroup, collapsed: Set<ChangeGroup>)
    ensures
        file_keys_listed(group_rows(files, g, collapsed), files),
{
    let pred = |f: FileView| f.group == g;
    let members = group_files(files, g);
    let rows = group_rows(files, g, collapsed);
    assert forall|j: int| 0 <= j < rows.len() && (#[trigger] rows[j]).key() is File implies
        exists|i: int| 0 <= i < files.len() && files[i].path == rows[j].key()->File_0 by {
        let m = j - 1;
        assert(rows[j] == normal_file_row(members[m]));
        assert(members.contains(members[m]));
        files.lemma_filter_contains_rev(pred, members[m]);
        let i = choose|i: int| 0 <= i < files.len() && files[i] == members[m];
        assert(files[i].path == rows[j].key()->File_0);
    }
}

proof fn lemma_groups_rows_listed(files: Seq<FileView>, groups: Seq<ChangeGroup>, collapsed: Set<ChangeGroup>)
    ensures
        file_keys_listed(groups_rows(files, groups, collapsed), files),
    decreases groups.len(),
{
    if groups.len() > 0 {
        let prev = groups_rows(files, groups.drop_last(), collapsed);
        let last = group_rows(files, groups.last(), collapsed);
        lemma_groups_rows_listed(files, groups.drop_last(), collapsed);
        lemma_group_rows_listed(files, groups.last(), collapsed);
        let all = prev + last;
        assert forall|j: int| 0 <= j < all.len() && (#[trigger] all[j]).key() is File implies
            exists|i: int| 0 <= i < files.len() && files[i].path == all[j].key()->File_0 by {
            if j < prev.len() {
                assert(all[j] == prev[j]);
            } else {
                assert(all[j] == last[j - prev.len()]);
            }
        }
    }
}

/// The file selected in any view is a listed file.
proof fn lemma_selected_file_listed(s: StateView, p: Seq<char>)
    requires
        s.snapshot().path == Some(p),
    ensures
        exists|i: int| 0 <= i < s.files.len() && s.files[i].path == p,
{
    let rows = s.rows();
    let j = s.selected as int;
    match s.view_mode {
        ViewMode::Condensed => {
            assert(rows[j].key() == RowKey::File(s.files[j].path));
        },
        ViewMode::Tree => {
            lemma_tree_rows_listed(s.files, s.expanded);
            assert(rows[j].key() is File);
        },
        ViewMode::Normal => {
            lemma_groups_rows_listed(s.files, crate::git::group_order(), s.collapsed);
            assert(rows[j].key() is File);
        },
    }
}

/// Cycling the view mode keeps the selected file selected whenever the
/// next view shows it: always when entering Condensed or Tree mode (the
/// directories above it are opened), and when entering Normal mode if a
/// file with that path is in a group that is not collapsed.
pub proof fn law_cycle_keeps_selected_file(s: StateView, p: Seq<char>)
    requires
        s.snapshot().path == Some(p),
        next_mode(s.view_mode) == ViewMode::Normal ==> shown_in_normal(s.files, s.collapsed, p),
        cycle_post(s).rows().len() <= usize::MAX,
    ensures
        cycle_post(s).snapshot().path == Some(p),
        cycle_post(s).selected_row == Some(RowKey::File(p)),
{
    let t = cycle_post(s);
    lemma_selected_file_key(s, p);
    lemma_selected_file_listed(s, p);
    lemma_restore_keeps_file(t.view_mode, s.files, t.expanded, s.collapsed, s.snapshot(), s.selected as int, p);
}

proof fn lemma_lookup_drop_other(recs: Seq<FlashView>, q: Seq<char>, p: Seq<char>)
    requires
        p != q,
    ensures
        flash_lookup(recs.filter(|r: FlashView| r.path != q), p) == flash_lookup(recs, p),
    decreases recs.len(),
{
    let pred = |r: FlashView| r.path != q;
    if recs.len() > 0 {
        let init = recs.drop_last();
        lemma_lookup_drop_other(init, q, p);
        init.lemma_filter_push(recs.last(), pred);
        assert(init.push(recs.last()) =~= recs);
        if pred(recs.last()) {
            assert(recs.filter(pred).drop_last() =~= init.filter(pred));
        }
    } else {
        reveal(Seq::filter);
    }
}

/// Recording a change of `q` leaves what is recorded for any other path.
proof fn lemma_lookup_insert(recs: Seq<FlashView>, q: Seq<char>, at: u128, k: FlashKind, p: Seq<char>)
    ensures
        flash_lookup(flash_insert(recs, q, at, k), p)
            == if p == q { Some(FlashView { path: q, at, kind: k }) } else { flash_lookup(recs, p) },
{
    if p != q {
        lemma_lookup_drop_other(recs, q, p);
        let f = recs.filter(|r: FlashView| r.path != q);
        assert(f.push(FlashView { path: q, at, kind: k }).drop_last() =~= f);
    }
}

/// After the changes of `new` are recorded, the record for the path of the
/// last entry `new[i]` with that path is the one made for it, when it
/// changed.
proof fn lemma_lookup_changes(recs: Seq<FlashView>, old: Seq<FileView>, new: Seq<FileView>, now: u128, i: int, k: FlashKind)
    requires
        0 <= i < new.len(),
        forall|j: int| i < j < new.len() ==> (#[trigger] new[j]).path != new[i].path,
        change_kind(old, new[i]) == Some(k),
    ensures
        flash_lookup(flash_changes(recs, old, new, now), new[i].path) == Some(FlashView { path: new[i].path, at: now, kind: k }),
    decreases new.len(),
{
    let init = new.drop_last();
    let f = new.last();
    let prev = flash_changes(recs, old, init, now);
    if i == new.len() - 1 {
        lemma_lookup_insert(prev, f.path, now, k, f.path);
    } else {
        assert forall|j: int| i < j < init.len() implies (#[trigger] init[j]).path != init[i].path by {
            assert(init[j] == new[j]);
        }
        assert(init[i] == new[i]);
        lemma_lookup_changes(recs, old, init, now, i, k);
        match change_kind(old, f) {
            Some(k2) => lemma_lookup_insert(prev, f.path, now, k2, new[i].path),
            None => {},
        }
    }
}

/// A record that has not expired survives the pruning.
proof fn lemma_lookup_retain(recs: Seq<FlashView>, now: u128, dur: u128, p: Seq<char>)
    requires
        flash_lookup(recs, p) is Some,
        crate::clock::elapsed(now, flash_lookup(recs, p)->0.at) < dur,
    ensures
        flash_lookup(flash_retain(recs, now, dur), p) == flash_lookup(recs, p),
    decreases recs.len(),
{
    let pred = |r: FlashView| crate::clock::elapsed(now, r.at) < dur;
    let init = recs.drop_last();
    init.lemma_filter_push(recs.last(), pred);
    assert(init.push(recs.last()) =~= recs);
    if recs.last().path == p {
        assert(flash_retain(recs, now, dur) == init.filter(pred).push(recs.last()));
    } else {
        lemma_lookup_retain(init, now, dur, p);
        if pred(recs.last()) {
            assert(flash_retain(recs, now, dur).drop_last() =~= init.filter(pred));
        }
    }
}

/// After the first refresh, a file whose statistics changed flashes at
/// once, in the direction of the change of its net line count (a new file
/// counts as a change from nothing). When a path is listed twice, its last
/// entry decides.
pub proof fn law_changed_file_flashes(s: StateView, new_files: Seq<FileView>, now: u128, i: int, k: FlashKind)
    requires
        s.initial_seed_done,
        s.flash_duration > 0,
        0 <= i < new_files.len(),
        forall|j: int| i < j < new_files.len() ==> (#[trigger] new_files[j]).path != new_files[i].path,
        change_kind(s.files, new_files[i]) == Some(k),
    ensures
        update_post(s, new_files, now).flash_kind_at(new_files[i].path, now) == Some(k),
{
    let p = new_files[i].path;
    let recs = flash_changes(s.flashes, s.files, new_files, now);
    lemma_lookup_changes(s.flashes, s.files, new_files, now, i, k);
    lemma_lookup_retain(recs, now, s.flash_duration, p);
}

proof fn lemma_lookup_unchanged(recs: Seq<FlashView>, old: Seq<FileView>, new: Seq<FileView>, now: u128, p: Seq<char>)
    requires
        forall|j: int| 0 <= j < new.len() && (#[trigger] new[j]).path == p ==> change_kind(old, new[j]) is None,
    ensures
        flash_lookup(flash_changes(recs, old, new, now), p) == flash_lookup(recs, p),
    decreases new.len(),
{
    if new.len() > 0 {
        let init = new.drop_last();
        assert forall|j: int| 0 <= j < init.len() && (#[trigger] init[j]).path == p implies change_kind(old, init[j]) is None by {
            assert(init[j] == new[j]);
        }
        lemma_lookup_unchanged(recs, old, init, now, p);
        let f = new.last();
        match change_kind(old, f) {
            Some(k2) => lemma_lookup_insert(flash_changes(recs, old, init, now), f.path, now, k2, p),
            None => {},
        }
    }
}

proof fn lemma_lookup_retain_none(recs: Seq<FlashView>, now: u128, dur: u128, p: Seq<char>)
    requires
        flash_lookup(recs, p) is None,
    ensures
        flash_lookup(flash_retain(recs, now, dur), p) is None,
    decreases recs.len(),
{
    let pred = |r: FlashView| crate::clock::elapsed(now, r.at) < dur;
    if recs.len() > 0 {
        let init = recs.drop_last();
        init.lemma_filter_push(recs.last(), pred);
        assert(init.push(recs.last()) =~= recs);
        lemma_lookup_retain_none(init, now, dur, p);
        if pred(recs.last()) {
            assert(flash_retain(recs, now, dur).drop_last() =~= init.filter(pred));
        }
    } else {
        reveal(Seq::filter);
        assert(flash_retain(recs, now, dur) =~= recs);
    }
}

/// A refresh that leaves a path's statistics as they were does not make it
/// flash: a path that was not flashing is still not flashing.
pub proof fn law_unchanged_file_does_not_flash(s: StateView, new_files: Seq<FileView>, now: u128, p: Seq<char>)
    requires
        flash_lookup(s.flashes, p) is None,
        forall|j: int| 0 <= j < new_files.len() && (#[trigger] new_files[j]).path == p ==> change_kind(s.files, new_files[j]) is None,
    ensures
        update_post(s, new_files, now).flash_kind_at(p, now) is None,
{
    if s.initial_seed_done {
        lemma_lookup_unchanged(s.flashes, s.files, new_files, now, p);
        lemma_lookup_retain_none(flash_changes(s.flashes, s.files, new_files, now), now, s.flash_duration, p);
    }
}

/// A group's heading is a row of the Normal view exactly when the group
/// has files, whatever is collapsed.
proof fn lemma_group_row_iff(files: Seq<FileView>, groups: Seq<ChangeGroup>, collapsed: Set<ChangeGroup>, g: ChangeGroup)
    ensures
        has_row(groups_rows(files, groups, collapsed), RowKey::Group(g)) == (groups.contains(g) && group_files(files, g).len() > 0),
    decreases groups.len(),
{
    if groups.len() > 0 {
        let prev = groups_rows(files, groups.drop_last(), collapsed);
        let last = group_rows(files, groups.last(), collapsed);
        let all = groups_rows(files, groups, collapsed);
        lemma_group_row_iff(files, groups.drop_last(), collapsed, g);
        assert(all == prev + last);
        let members = group_files(files, groups.last());
        assert forall|j: int| 1 <= j < last.len() implies !((#[trigger] last[j]).key() is Group) by {
            assert(last[j] == normal_file_row(members[j - 1]));
        }
        if has_row(all, RowKey::Group(g)) {
            let j = choose|j: int| 0 <= j < all.len() && (#[trigger] all[j]).key() == RowKey::Group(g);
            if j < prev.len() {
                assert(prev[j] == all[j]);
                let n = choose|n: int| 0 <= n < groups.drop_last().len() && groups.drop_last()[n] == g;
                assert(groups[n] == g);
            } else {
                assert(last[j - prev.len()] == all[j]);
                assert(groups[groups.len() - 1] == g);
            }
        }
        if groups.contains(g) && group_files(files, g).len() > 0 {
            let n = choose|n: int| 0 <= n < groups.len() && groups[n] == g;
            if n == groups.len() - 1 {
                assert(all[prev.len() as int] == last[0]);
            } else {
                assert(groups.drop_last()[n] == g);
                let j = choose|j: int| 0 <= j < prev.len() && (#[trigger] prev[j]).key() == RowKey::Group(g);
                assert(all[j] == prev[j]);
            }
        }
    }
}

/// In the Normal view, the selected group heading toggles and keeps the
/// selection; toggling it again restores the collapsed groups and so the
/// rows. When the selection is not on a heading nothing changes.
pub proof fn law_toggle_group_twice_restores(s: StateView)
    requires
        s.view_mode == ViewMode::Normal,
        toggle_group_post(s).1.rows().len() <= usize::MAX,
    ensures
        toggle_group_post(s).0 == (crate::state::selected_key(s) matches Some(RowKey::Group(_))),
        !toggle_group_post(s).0 ==> toggle_group_post(s).1 == s,
        toggle_group_post(s).0 ==> {
            let t = toggle_group_post(s).1;
            let u = toggle_group_post(t);
            &&& crate::state::selected_key(t) == crate::state::selected_key(s)
            &&& u.0
            &&& u.1.collapsed == s.collapsed
            &&& u.1.rows() == s.rows()
        },
{
    if toggle_group_post(s).0 {
        let g = s.rows()[s.selected as int].key()->Group_0;
        let k = RowKey::Group(g);
        let t = toggle_group_post(s).1;
        let order = crate::git::group_order();
        assert(has_row(s.rows(), k));
        lemma_group_row_iff(s.files, order, s.collapsed, g);
        lemma_group_row_iff(s.files, order, t.collapsed, g);
        let rows = t.rows();
        lemma_find_key_bounds(rows, k);
        if find_key(rows, k) < 0 {
            let j = choose|j: int| 0 <= j < rows.len() && (#[trigger] rows[j]).key() == k;
            assert(rows[j].key() != k);
        }
        lemma_found_lands(rows, k);
        assert(t.collapsed.contains(g) != s.collapsed.contains(g));
        let u = toggle_group_post(t).1;
        assert(u.collapsed =~= s.collapsed);
    }
}

/// After a worktree switch the first refresh flashes nothing: the switch
/// clears the flashes and the comparison baseline.
pub proof fn law_refresh_after_switch_does_not_flash(
    s: StateView,
    files: Seq<FileView>,
    branch: Seq<char>,
    repo_name: Seq<char>,
    worktree_name: Seq<char>,
    at: u128,
    new_files: Seq<FileView>,
    now: u128,
)
    ensures
        update_post(crate::state::reset_post(s, files, branch, repo_name, worktree_name, at), new_files, now).flashes
            == Seq::<FlashView>::empty(),
{
}

/// Each diff request carries a token different from the one before it, so
/// the reply to an earlier request never matches the pending token.
pub proof fn law_new_token_differs(t: u64)
    ensures
        t.wrapping_add(1) != t,
        t < u64::MAX ==> t.wrapping_add(1) == t + 1,
{
}

/// In the Tree view, the selected directory opens or closes and keeps the
/// selection; toggling it again restores the expanded directories and so
/// the rows. When the selection is not on a directory nothing changes.
pub proof fn law_toggle_directory_twice_restores(s: StateView)
    requires
        s.view_mode == ViewMode::Tree,
        toggle_directory_post(s).1.rows().len() <= usize::MAX,
    ensures
        toggle_directory_post(s).0 == (crate::state::selected_key(s) matches Some(RowKey::Directory(_))),
        !toggle_directory_post(s).0 ==> toggle_directory_post(s).1 == s,
        toggle_directory_post(s).0 ==> {
            let t = toggle_directory_post(s).1;
            let u = toggle_directory_post(t);
            &&& crate::state::selected_key(t) == crate::state::selected_key(s)
            &&& u.0
            &&& u.1.expanded == s.expanded
            &&& u.1.rows() == s.rows()
        },
{
    if toggle_directory_post(s).0 {
        let d = s.rows()[s.selected as int].key()->Directory_0;
        let k = RowKey::Directory(d);
        let t = toggle_directory_post(s).1;
        assert(has_row(s.rows(), k));
        assert(agree_except(s.expanded, t.expanded, d));
        lemma_tree_keeps_dir(s.files, s.expanded, t.expanded, d);
        let rows = t.rows();
        lemma_find_key_bounds(rows, k);
        if find_key(rows, k) < 0 {
            let j = choose|j: int| 0 <= j < rows.len() && (#[trigger] rows[j]).key() == k;
            assert(rows[j].key() != k);
        }
        lemma_found_lands(rows, k);
        assert(t.expanded.contains(d) != s.expanded.contains(d));
        let u = toggle_directory_post(t).1;
        assert(u.expanded =~= s.expanded);
    }
}

/// In the Tree and Normal views a refresh keeps the selection on the same
/// row (a file, a directory or a group heading) whenever a row with that
/// identity is still shown.
pub proof fn law_update_keeps_selected_row(s: StateView, new_files: Seq<FileView>, now: u128, k: RowKey)
    requires
        s.view_mode != ViewMode::Condensed,
        s.snapshot().row == Some(k),
        has_row(update_post(s, new_files, now).rows(), k),
        update_post(s, new_files, now).rows().len() <= usize::MAX,
    ensures
        update_post(s, new_files, now).selected_row == Some(k),
        update_post(s, new_files, now).selected < update_post(s, new_files, now).rows().len(),
        update_post(s, new_files, now).rows()[update_post(s, new_files, now).selected as int].key() == k,
{
    let t = update_post(s, new_files, now);
    let rows = t.rows();
    assert(rows == rows_for(s.view_mode, new_files, t.expanded, s.collapsed));
    lemma_find_key_bounds(rows, k);
    if find_key(rows, k) < 0 {
        let j = choose|j: int| 0 <= j < rows.len() && (#[trigger] rows[j]).key() == k;
        assert(rows[j].key() != k);
    }
    lemma_found_lands(rows, k);
}

/// Cycling into the Tree or Normal view keeps the selection on the same row
/// whenever a row with that identity is shown there.
pub proof fn law_cycle_keeps_selected_row(s: StateView, k: RowKey)
    requires
        next_mode(s.view_mode) != ViewMode::Condensed,
        s.snapshot().row == Some(k),
        has_row(cycle_post(s).rows(), k),
        cycle_post(s).rows().len() <= usize::MAX,
    ensures
        cycle_post(s).selected_row == Some(k),
        cycle_post(s).selected < cycle_post(s).rows().len(),
        cycle_post(s).rows()[cycle_post(s).selected as int].key() == k,
{
    let t = cycle_post(s);
    let rows = t.rows();
    lemma_find_key_bounds(rows, k);
    if find_key(rows, k) < 0 {
        let j = choose|j: int| 0 <= j < rows.len() && (#[trigger] rows[j]).key() == k;
        assert(rows[j].key() != k);
    }
    lemma_found_lands(rows, k);
}

} // verus!
