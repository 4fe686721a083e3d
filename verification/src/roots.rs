//! Root-folder bookkeeping: cleaning stored root paths and the root set to keep
//! when settings are saved.

use vstd::prelude::*;

use crate::content_extract::{str_eq, views};
use crate::dto::RootConfig;
use crate::path_norm::{normalize_root_path, normalized_root_path};

verus! {

/// One fix to a stored root row.
#[derive(Debug, Clone)]
pub enum RootPathFix {
    /// Another row already holds this normalized path: remove the row.
    Delete { id: i64 },
    /// Store the normalized path in place of the stored one.
    Update { id: i64, path: String },
}

/// Whether an earlier row than `k` has the same normalized path as row `k`.
pub open spec fn has_earlier_duplicate(rows: Seq<(i64, Seq<char>)>, k: int) -> bool {
    exists|j: int|
        0 <= j < k && normalized_root_path((#[trigger] rows[j]).1) == normalized_root_path(rows[k].1)
}

/// The fix for row `k`, as (is_delete, id, new path); `None` when the row stays.
pub open spec fn fix_for_row(rows: Seq<(i64, Seq<char>)>, k: int) -> Option<(bool, i64, Seq<char>)> {
    let n = normalized_root_path(rows[k].1);
    if has_earlier_duplicate(rows, k) {
        Some((true, rows[k].0, seq![]))
    } else if n != rows[k].1 {
        Some((false, rows[k].0, n))
    } else {
        None
    }
}

/// The fixes for all rows, in row order.
/// The fixes of one kind (deletes when `delete`, updates otherwise), in row order.
pub open spec fn fixes_of_kind(rows: Seq<(i64, Seq<char>)>, delete: bool) -> Seq<(bool, i64, Seq<char>)>
    decreases rows.len(),
{
    if rows.len() == 0 {
        seq![]
    } else {
        fixes_of_kind(rows.drop_last(), delete) + match fix_for_row(rows, rows.len() - 1) {
            Some(f) => if f.0 == delete {
                seq![f]
            } else {
                seq![]
            },
            None => seq![],
        }
    }
}

/// All fixes: first every delete, then every update, each group in row order, so
/// that a duplicate is gone before another row takes its path.
pub open spec fn root_fixes(rows: Seq<(i64, Seq<char>)>) -> Seq<(bool, i64, Seq<char>)> {
    fixes_of_kind(rows, true) + fixes_of_kind(rows, false)
}

/// A fix as (is_delete, id, new path), the form `root_fixes` lists.
pub open spec fn fix_view(f: RootPathFix) -> (bool, i64, Seq<char>) {
    match f {
        RootPathFix::Delete { id } => (true, id, seq![]),
        RootPathFix::Update { id, path } => (false, id, path@),
    }
}

/// Stored rows with their paths taken as character sequences.
pub open spec fn row_views(rows: Seq<(i64, String)>) -> Seq<(i64, Seq<char>)> {
    rows.map_values(|r: (i64, String)| (r.0, r.1@))
}

proof fn lemma_fix_prefix(rows: Seq<(i64, Seq<char>)>, k: int)
    requires
        0 <= k < rows.len(),
    ensures
        fix_for_row(rows.take(k + 1), k) == fix_for_row(rows, k),
{
    let p = rows.take(k + 1);
    assert forall|j: int| 0 <= j < k implies p[j] == rows[j] by {}
    assert(p[k] == rows[k]);
    if has_earlier_duplicate(rows, k) {
        let j = choose|j: int|
            0 <= j < k && normalized_root_path((#[trigger] rows[j]).1) == normalized_root_path(
                rows[k].1,
            );
        assert(p[j] == rows[j]);
    }
    if has_earlier_duplicate(p, k) {
        let j = choose|j: int|
            0 <= j < k && normalized_root_path((#[trigger] p[j]).1) == normalized_root_path(p[k].1);
        assert(p[j] == rows[j]);
    }
}

/// Plan the cleanup of stored root paths: a row whose normalized path repeats an
/// earlier row's is deleted; another whose path changes under normalization is
/// updated. Returns the deletes, then the updates, each in row order.
pub fn plan_root_path_migration(rows: &Vec<(i64, String)>) -> (fixes: Vec<RootPathFix>)
    ensures
        fixes@.map_values(|f: RootPathFix| fix_view(f)) == root_fixes(row_views(rows@)),
{
    let ghost rv = row_views(rows@);
    let mut seen: Vec<String> = Vec::new();
    let mut fixes: Vec<RootPathFix> = Vec::new();
    let mut updates: Vec<RootPathFix> = Vec::new();
    let mut i: usize = 0;
    assert(fixes@.map_values(|f: RootPathFix| fix_view(f)) =~= fixes_of_kind(rv.take(0), true));
    assert(updates@.map_values(|f: RootPathFix| fix_view(f)) =~= fixes_of_kind(rv.take(0), false));
    while i < rows.len()
        invariant
            i <= rows.len(),
            rv == row_views(rows@),
            fixes@.map_values(|f: RootPathFix| fix_view(f)) == fixes_of_kind(rv.take(i as int), true),
            updates@.map_values(|f: RootPathFix| fix_view(f)) == fixes_of_kind(rv.take(i as int), false),
            forall|n: Seq<char>|
                views(seen@).contains(n) <==> exists|j: int|
                    0 <= j < i && normalized_root_path((#[trigger] rv[j]).1) == n,
        decreases rows.len() - i,
    {
        let id = rows[i].0;
        let n = normalize_root_path(rows[i].1.as_str());
        let ghost before = fixes@.map_values(|f: RootPathFix| fix_view(f));
        let ghost before_u = updates@.map_values(|f: RootPathFix| fix_view(f));
        let ghost pre = rv.take(i + 1);
        proof {
            assert(rv[i as int] == (id, rows@[i as int].1@));
            assert(pre.drop_last() =~= rv.take(i as int));
            lemma_fix_prefix(rv, i as int);
        }
        let dup = crate::content_extract::contains_str(&seen, n.as_str());
        if dup {
            fixes.push(RootPathFix::Delete { id });
            proof {
                let j = choose|j: int|
                    0 <= j < i && normalized_root_path((#[trigger] rv[j]).1) == n@;
                assert(has_earlier_duplicate(rv, i as int));
            }
            assert(fixes@.map_values(|f: RootPathFix| fix_view(f)) =~= before + seq![
                (true, id, Seq::<char>::empty()),
            ]);
            assert(before_u =~= before_u + Seq::<(bool, i64, Seq<char>)>::empty());
        } else {
            assert(!has_earlier_duplicate(rv, i as int));
            let changed = !str_eq(n.as_str(), rows[i].1.as_str());
            let n2 = n.clone();
            let ghost old_seen = seen@;
            seen.push(n2);
            assert(views(seen@) =~= views(old_seen).push(n@));
            if changed {
                updates.push(RootPathFix::Update { id, path: n });
                assert(updates@.map_values(|f: RootPathFix| fix_view(f)) =~= before_u + seq![
                    (false, id, normalized_root_path(rv[i as int].1)),
                ]);
            } else {
                assert(before_u =~= before_u + Seq::<(bool, i64, Seq<char>)>::empty());
            }
            assert(before =~= before + Seq::<(bool, i64, Seq<char>)>::empty());
            assert forall|m: Seq<char>|
                views(seen@).contains(m) <==> exists|j: int|
                    0 <= j < i + 1 && normalized_root_path((#[trigger] rv[j]).1) == m by {
                if views(seen@).contains(m) {
                    let k = choose|k: int| 0 <= k < views(seen@).len() && views(seen@)[k] == m;
                    if k == seen.len() - 1 {
                        assert(normalized_root_path(rv[i as int].1) == m);
                    } else {
                        assert(views(old_seen)[k] == m);
                        assert(views(old_seen).contains(m));
                        let j = choose|j: int|
                            0 <= j < i && normalized_root_path((#[trigger] rv[j]).1) == m;
                        assert(0 <= j < i + 1 && normalized_root_path(rv[j].1) == m);
                    }
                }
                if exists|j: int| 0 <= j < i + 1 && normalized_root_path((#[trigger] rv[j]).1) == m {
                    let j = choose|j: int|
                        0 <= j < i + 1 && normalized_root_path((#[trigger] rv[j]).1) == m;
                    if j == i {
                        assert(views(seen@)[seen.len() - 1] == m);
                    } else {
                        assert(views(old_seen).contains(m));
                        let k = choose|k: int|
                            0 <= k < views(old_seen).len() && views(old_seen)[k] == m;
                        assert(views(seen@)[k] == m);
                    }
                }
            }
        }
        i = i + 1;
    }
    assert(rv.take(rows.len() as int) =~= rv);
    let ghost d = fixes@;
    let ghost u = updates@;
    fixes.append(&mut updates);
    assert(fixes@ =~= d + u);
    assert(fixes@.map_values(|f: RootPathFix| fix_view(f)) =~= d.map_values(|f: RootPathFix| fix_view(f)) + u.map_values(|f: RootPathFix| fix_view(f)));
    fixes
}

/// The roots as stored on save: paths normalized, other fields kept.
pub fn normalized_root_configs(roots: &Vec<RootConfig>) -> (r: Vec<RootConfig>)
    ensures
        r.len() == roots.len(),
        forall|i: int|
            0 <= i < roots.len() ==> {
                &&& (#[trigger] r@[i]).path@ == normalized_root_path(roots@[i].path@)
                &&& r@[i].display_name == roots@[i].display_name
                &&& r@[i].enabled == roots@[i].enabled
                &&& r@[i].read_only == roots@[i].read_only
            },
{
    let mut r: Vec<RootConfig> = Vec::new();
    let mut i: usize = 0;
    while i < roots.len()
        invariant
            i <= roots.len(),
            r.len() == i,
            forall|k: int|
                0 <= k < i ==> {
                    &&& (#[trigger] r@[k]).path@ == normalized_root_path(roots@[k].path@)
                    &&& r@[k].display_name == roots@[k].display_name
                    &&& r@[k].enabled == roots@[k].enabled
                    &&& r@[k].read_only == roots@[k].read_only
                },
        decreases roots.len() - i,
    {
        let rc = &roots[i];
        r.push(
            RootConfig {
                path: normalize_root_path(rc.path.as_str()),
                display_name: rc.display_name.clone(),
                enabled: rc.enabled,
                read_only: rc.read_only,
            },
        );
        i = i + 1;
    }
    r
}

/// The distinct paths of `roots`, each once, in first-seen order: the set of roots
/// that survive a save.
pub fn distinct_root_paths(roots: &Vec<RootConfig>) -> (r: Vec<String>)
    ensures
        forall|p: Seq<char>|
            views(r@).contains(p) <==> exists|i: int| 0 <= i < roots.len() && (#[trigger] roots@[i]).path@ == p,
        forall|a: int, b: int| 0 <= a < b < r.len() ==> r@[a]@ != r@[b]@,
{
    let mut r: Vec<String> = Vec::new();
    let mut i: usize = 0;
    while i < roots.len()
        invariant
            i <= roots.len(),
            forall|p: Seq<char>|
                views(r@).contains(p) <==> exists|k: int| 0 <= k < i && (#[trigger] roots@[k]).path@ == p,
            forall|a: int, b: int| 0 <= a < b < r.len() ==> r@[a]@ != r@[b]@,
        decreases roots.len() - i,
    {
        let p = &roots[i].path;
        if !crate::content_extract::contains_str(&r, p.as_str()) {
            let ghost before = r@;
            r.push(p.clone());
            assert(views(r@) =~= views(before).push(p@));
            assert forall|a: int, b: int| 0 <= a < b < r.len() implies r@[a]@ != r@[b]@ by {
                if b == r.len() - 1 {
                    assert(views(before)[a] == r@[a]@);
                }
            }
            assert forall|q: Seq<char>|
                views(r@).contains(q) <==> exists|k: int| 0 <= k < i + 1 && (#[trigger] roots@[k]).path@ == q by {
                if views(r@).contains(q) {
                    let k = choose|k: int| 0 <= k < views(r@).len() && views(r@)[k] == q;
                    if k < before.len() {
                        assert(views(before)[k] == q);
                        assert(views(before).contains(q));
                        let k2 = choose|k2: int| 0 <= k2 < i && (#[trigger] roots@[k2]).path@ == q;
                        assert(0 <= k2 < i + 1 && roots@[k2].path@ == q);
                    } else {
                        assert(roots@[i as int].path@ == q);
                    }
                }
                if exists|k: int| 0 <= k < i + 1 && (#[trigger] roots@[k]).path@ == q {
                    let k = choose|k: int| 0 <= k < i + 1 && (#[trigger] roots@[k]).path@ == q;
                    if k == i {
                        assert(views(r@)[r.len() - 1] == q);
                    } else {
                        assert(views(before).contains(q));
                        let m = choose|m: int| 0 <= m < views(before).len() && views(before)[m] == q;
                        assert(views(r@)[m] == q);
                    }
                }
            }
        } else {
            assert forall|q: Seq<char>|
                views(r@).contains(q) <==> exists|k: int| 0 <= k < i + 1 && (#[trigger] roots@[k]).path@ == q by {
                if exists|k: int| 0 <= k < i + 1 && (#[trigger] roots@[k]).path@ == q {
                    let k = choose|k: int| 0 <= k < i + 1 && (#[trigger] roots@[k]).path@ == q;
                    if k == i {
                        assert(views(r@).contains(q));
                    }
                }
            }
        }
        i = i + 1;
    }
    r
}

/// What saving a root list writes: the normalized roots to upsert and the
/// distinct normalized paths to keep (all others are deleted; none kept when the
/// list is empty).
pub fn plan_root_sync(roots: &Vec<RootConfig>) -> (r: (Vec<RootConfig>, Vec<String>))
    ensures
        r.0.len() == roots.len(),
        forall|i: int|
            0 <= i < roots.len() ==> {
                &&& (#[trigger] r.0@[i]).path@ == normalized_root_path(roots@[i].path@)
                &&& r.0@[i].display_name == roots@[i].display_name
                &&& r.0@[i].enabled == roots@[i].enabled
                &&& r.0@[i].read_only == roots@[i].read_only
            },
        forall|p: Seq<char>|
            views(r.1@).contains(p) <==> exists|i: int| 0 <= i < roots.len() && normalized_root_path((#[trigger] roots@[i]).path@) == p,
        forall|a: int, b: int| 0 <= a < b < r.1.len() ==> r.1@[a]@ != r.1@[b]@,
{
    let upserts = normalized_root_configs(roots);
    let keep = distinct_root_paths(&upserts);
    assert forall|p: Seq<char>|
        views(keep@).contains(p) <==> exists|i: int| 0 <= i < roots.len() && normalized_root_path((#[trigger] roots@[i]).path@) == p by {
        if exists|i: int| 0 <= i < roots.len() && normalized_root_path((#[trigger] roots@[i]).path@) == p {
            let i = choose|i: int| 0 <= i < roots.len() && normalized_root_path((#[trigger] roots@[i]).path@) == p;
            assert(upserts@[i].path@ == p);
        }
        if views(keep@).contains(p) {
            let i = choose|i: int| 0 <= i < upserts.len() && (#[trigger] upserts@[i]).path@ == p;
            assert(normalized_root_path(roots@[i].path@) == p);
        }
    }
    (upserts, keep)
}

} // verus!
