//! Deciding how each scanned file updates the catalog.

use vstd::prelude::*;

use crate::content_extract::{opt_view, quick_sig, signature, str_eq};
use crate::scan::{ScannedFile, WalkSummary};

verus! {

/// What the catalog holds for a path already indexed under a root.
#[derive(Debug, Clone)]
pub struct ExistingFile {
    pub id: i64,
    pub quick_sig: Option<String>,
}

/// How one scanned file changes the catalog.
#[derive(Debug, Clone)]
pub enum UpsertAction {
    /// Same signature as stored: nothing to write.
    Unchanged,
    /// Known path with new metadata: rewrite the row `id` and its full-text entry.
    Update { id: i64, sig: String },
    /// New path: insert a row and its full-text entry.
    Insert { sig: String },
}

/// The action for a file of `size` and `mtime_ns` given what is stored for its path.
pub open spec fn upsert_matches(a: UpsertAction, existing: Option<ExistingFile>, size: i64, mtime_ns: i64) -> bool {
    let sig = signature(size, mtime_ns);
    match existing {
        None => a matches UpsertAction::Insert { sig: s } && s@ == sig,
        Some(e) => if opt_view(e.quick_sig) == Some(sig) {
            a is Unchanged
        } else {
            a matches UpsertAction::Update { id, sig: s } && id == e.id && s@ == sig
        },
    }
}

/// Decide how a scanned file is written: insert when new, update when its
/// signature changed, nothing when it is the same.
pub fn plan_upsert(existing: Option<ExistingFile>, size: i64, mtime_ns: i64) -> (a: UpsertAction)
    ensures
        upsert_matches(a, existing, size, mtime_ns),
{
    let sig = quick_sig(size, mtime_ns);
    match existing {
        None => UpsertAction::Insert { sig },
        Some(e) => {
            let same = match &e.quick_sig {
                Some(prev) => str_eq(prev.as_str(), sig.as_str()),
                None => false,
            };
            if same {
                UpsertAction::Unchanged
            } else {
                UpsertAction::Update { id: e.id, sig }
            }
        },
    }
}

/// Running count of rows written while applying one batch.
#[derive(Debug, Clone, Copy)]
pub struct BatchApply {
    pub upserted: u64,
}

impl BatchApply {
    /// A batch with nothing written yet.
    pub fn new() -> (b: BatchApply)
        ensures
            b.upserted == 0,
    {
        BatchApply { upserted: 0 }
    }

    /// Plan one file of the batch and count it when it writes a row.
    pub fn step(&mut self, existing: Option<ExistingFile>, size: i64, mtime_ns: i64) -> (a: UpsertAction)
        requires
            old(self).upserted < u64::MAX,
        ensures
            upsert_matches(a, existing, size, mtime_ns),
            final(self).upserted == old(self).upserted + if a is Unchanged {
                0int
            } else {
                1int
            },
    {
        let a = plan_upsert(existing, size, mtime_ns);
        match a {
            UpsertAction::Unchanged => {},
            _ => {
                self.upserted = self.upserted + 1;
            },
        }
        a
    }
}

/// A file indexed by a scan is left alone by the next scan when its size and time
/// are unchanged.
pub proof fn rescan_of_unchanged_file_writes_nothing(id: i64, size: i64, mtime_ns: i64, stored: String, a: UpsertAction)
    requires
        stored@ == signature(size, mtime_ns),
        upsert_matches(a, Some(ExistingFile { id, quick_sig: Some(stored) }), size, mtime_ns),
    ensures
        a is Unchanged,
{
}

/// A file whose size or time differs from what was indexed is always rewritten.
pub proof fn changed_file_is_rewritten(
    id: i64,
    old_size: i64,
    old_mtime: i64,
    stored: String,
    size: i64,
    mtime_ns: i64,
    a: UpsertAction,
)
    requires
        stored@ == signature(old_size, old_mtime),
        old_size != size || old_mtime != mtime_ns,
        upsert_matches(a, Some(ExistingFile { id, quick_sig: Some(stored) }), size, mtime_ns),
    ensures
        a matches UpsertAction::Update { id: i, .. } && i == id,
{
    if signature(old_size, old_mtime) == signature(size, mtime_ns) {
        crate::content_extract::signature_injective(old_size, old_mtime, size, mtime_ns);
    }
}


/// The signature stored for a file after its action is applied: the action's own
/// for an insert or update, the unchanged stored one otherwise.
pub open spec fn stored_after_action(a: UpsertAction, existing: Option<ExistingFile>) -> Option<Seq<char>> {
    match a {
        UpsertAction::Insert { sig } => Some(sig@),
        UpsertAction::Update { sig, .. } => Some(sig@),
        UpsertAction::Unchanged => match existing {
            Some(e) => opt_view(e.quick_sig),
            None => None,
        },
    }
}

/// Whatever the action, once applied the file's stored signature is its current one.
pub proof fn applied_action_stores_signature(
    a: UpsertAction,
    existing: Option<ExistingFile>,
    size: i64,
    mtime_ns: i64,
)
    requires
        upsert_matches(a, existing, size, mtime_ns),
    ensures
        stored_after_action(a, existing) == Some(signature(size, mtime_ns)),
{
}

/// Stored signatures by relative path after a batch is applied to `cat`, each file
/// storing its current signature (as `applied_action_stores_signature` shows).
pub open spec fn stored_after_batch(cat: Map<Seq<char>, Seq<char>>, files: Seq<ScannedFile>) -> Map<Seq<char>, Seq<char>>
    decreases files.len(),
{
    if files.len() == 0 {
        cat
    } else {
        stored_after_batch(cat, files.drop_last()).insert(
            files.last().rel_path@,
            signature(files.last().size, files.last().mtime_ns),
        )
    }
}

/// No relative path occurs twice in the batch.
pub open spec fn distinct_paths(files: Seq<ScannedFile>) -> bool {
    forall|a: int, b: int| 0 <= a < b < files.len() ==> files[a].rel_path@ != files[b].rel_path@
}

proof fn lemma_stored_after_batch(cat: Map<Seq<char>, Seq<char>>, files: Seq<ScannedFile>, k: int)
    requires
        distinct_paths(files),
        0 <= k < files.len(),
    ensures
        stored_after_batch(cat, files).contains_key(files[k].rel_path@),
        stored_after_batch(cat, files)[files[k].rel_path@] == signature(files[k].size, files[k].mtime_ns),
    decreases files.len(),
{
    if k < files.len() - 1 {
        let prev = files.drop_last();
        assert(prev[k] == files[k]);
        assert forall|a: int, b: int| 0 <= a < b < prev.len() implies prev[a].rel_path@ != prev[b].rel_path@ by {
            assert(prev[a] == files[a] && prev[b] == files[b]);
        }
        lemma_stored_after_batch(cat, prev, k);
        assert(files[k].rel_path@ != files.last().rel_path@);
    }
}

/// Scanning a batch again right after applying it writes nothing: against the
/// stored signatures, every file of a batch (paths distinct) is unchanged.
pub proof fn rescan_of_batch_writes_nothing(
    cat: Map<Seq<char>, Seq<char>>,
    files: Seq<ScannedFile>,
    k: int,
    id: i64,
    stored: String,
    a: UpsertAction,
)
    requires
        distinct_paths(files),
        0 <= k < files.len(),
        stored@ == stored_after_batch(cat, files)[files[k].rel_path@],
        upsert_matches(a, Some(ExistingFile { id, quick_sig: Some(stored) }), files[k].size, files[k].mtime_ns),
    ensures
        a is Unchanged,
        stored_after_batch(cat, files).contains_key(files[k].rel_path@),
{
    lemma_stored_after_batch(cat, files, k);
}

/// The rows of a root not seen by its last walk: `(id, seen)` pairs in, the ids of
/// unseen rows out, in order.
pub open spec fn unseen_ids(rows: Seq<(i64, bool)>) -> Seq<i64>
    decreases rows.len(),
{
    if rows.len() == 0 {
        seq![]
    } else {
        unseen_ids(rows.drop_last()) + if rows.last().1 {
            seq![]
        } else {
            seq![rows.last().0]
        }
    }
}

/// A walk after which unseen rows may be removed: it was not cancelled, ran to the
/// end, and read every entry and every file's metadata. After any error or a
/// cancellation an unseen row may still exist on disk, so none is removed.
pub open spec fn removal_allowed(summary: WalkSummary, cancelled: bool) -> bool {
    &&& !cancelled
    &&& summary.completed
    &&& summary.walk_errors == 0
    &&& summary.metadata_errors == 0
}

/// Rows to delete after walking a root: those the walk did not see, and only after
/// a clean walk (a cancelled, unfinished or erroring walk deletes nothing).
pub fn plan_stale_removal(rows: &Vec<(i64, bool)>, summary: &WalkSummary, cancelled: bool) -> (r: Vec<i64>)
    ensures
        !removal_allowed(*summary, cancelled) ==> r@.len() == 0,
        removal_allowed(*summary, cancelled) ==> r@ == unseen_ids(rows@),
{
    let mut r: Vec<i64> = Vec::new();
    if cancelled || !summary.completed || summary.walk_errors != 0 || summary.metadata_errors != 0 {
        return r;
    }
    let mut i: usize = 0;
    assert(rows@.take(0) =~= Seq::<(i64, bool)>::empty());
    while i < rows.len()
        invariant
            i <= rows.len(),
            r@ == unseen_ids(rows@.take(i as int)),
        decreases rows.len() - i,
    {
        let (id, seen) = rows[i];
        assert(rows@.take(i + 1).drop_last() =~= rows@.take(i as int));
        if !seen {
            r.push(id);
        } else {
            assert(r@ =~= r@ + Seq::<i64>::empty());
        }
        i = i + 1;
    }
    assert(rows@.take(rows.len() as int) =~= rows@);
    r
}

/// A file seen by the walk is never among the removed rows (ids being distinct).
pub proof fn seen_file_is_kept(rows: Seq<(i64, bool)>, k: int)
    requires
        0 <= k < rows.len(),
        rows[k].1,
        forall|a: int, b: int| 0 <= a < b < rows.len() ==> rows[a].0 != rows[b].0,
    ensures
        !unseen_ids(rows).contains(rows[k].0),
    decreases rows.len(),
{
    let prev = rows.drop_last();
    if rows.len() > 0 {
        if k < rows.len() - 1 {
            assert(prev[k] == rows[k]);
            assert forall|a: int, b: int| 0 <= a < b < prev.len() implies prev[a].0 != prev[b].0 by {
                assert(prev[a] == rows[a] && prev[b] == rows[b]);
            }
            seen_file_is_kept(prev, k);
            if unseen_ids(rows).contains(rows[k].0) {
                let j = choose|j: int| 0 <= j < unseen_ids(rows).len() && unseen_ids(rows)[j] == rows[k].0;
                if j < unseen_ids(prev).len() {
                    assert(unseen_ids(prev)[j] == rows[k].0);
                } else {
                    assert(rows.last().0 == rows[k].0);
                }
            }
        } else {
            if unseen_ids(rows).contains(rows[k].0) {
                let j = choose|j: int| 0 <= j < unseen_ids(rows).len() && unseen_ids(rows)[j] == rows[k].0;
                assert(unseen_ids(rows) == unseen_ids(prev));
                lemma_unseen_ids_from_rows(prev, j);
            }
        }
    }
}

proof fn lemma_unseen_ids_from_rows(rows: Seq<(i64, bool)>, j: int)
    requires
        0 <= j < unseen_ids(rows).len(),
    ensures
        exists|i: int| 0 <= i < rows.len() && !rows[i].1 && rows[i].0 == unseen_ids(rows)[j],
    decreases rows.len(),
{
    let prev = rows.drop_last();
    if j < unseen_ids(prev).len() {
        lemma_unseen_ids_from_rows(prev, j);
        let i = choose|i: int| 0 <= i < prev.len() && prev[i].0 == unseen_ids(prev)[j];
        assert(rows[i] == prev[i]);
    } else {
        assert(rows[rows.len() - 1].0 == unseen_ids(rows)[j]);
    }
}

/// After a clean walk every row the walk did not see is removed, wherever it
/// stands among the root's rows.
pub proof fn unseen_rows_are_removed(rows: Seq<(i64, bool)>, k: int)
    requires
        0 <= k < rows.len(),
        !rows[k].1,
    ensures
        unseen_ids(rows).contains(rows[k].0),
    decreases rows.len(),
{
    let prev = rows.drop_last();
    if k < rows.len() - 1 {
        assert(prev[k] == rows[k]);
        unseen_rows_are_removed(prev, k);
        let j = choose|j: int| 0 <= j < unseen_ids(prev).len() && unseen_ids(prev)[j] == rows[k].0;
        assert(unseen_ids(rows)[j] == rows[k].0);
    } else {
        assert(unseen_ids(rows)[unseen_ids(prev).len() as int] == rows[k].0);
    }
}

/// Only rows the walk did not see are removed: each removed id is the id of such a
/// row, and as many ids are removed as there are unseen rows.
pub proof fn removed_rows_are_unseen(rows: Seq<(i64, bool)>, j: int)
    requires
        0 <= j < unseen_ids(rows).len(),
    ensures
        exists|i: int| 0 <= i < rows.len() && !rows[i].1 && rows[i].0 == unseen_ids(rows)[j],
        unseen_ids(rows).len() <= rows.len(),
{
    lemma_unseen_ids_from_rows(rows, j);
    lemma_unseen_len(rows);
}

proof fn lemma_unseen_len(rows: Seq<(i64, bool)>)
    ensures
        unseen_ids(rows).len() <= rows.len(),
        (forall|i: int| 0 <= i < rows.len() ==> !rows[i].1) ==> unseen_ids(rows).len() == rows.len(),
    decreases rows.len(),
{
    if rows.len() > 0 {
        let prev = rows.drop_last();
        lemma_unseen_len(prev);
        if forall|i: int| 0 <= i < rows.len() ==> !rows[i].1 {
            assert forall|i: int| 0 <= i < prev.len() implies !prev[i].1 by {
                assert(prev[i] == rows[i]);
            }
            assert(!rows[rows.len() - 1].1);
        }
    }
}

/// Stale rows are removed exactly after a walk that was not cancelled, ran to its
/// end and met no unreadable entry or metadata: one error or a cancellation keeps
/// every row.
pub proof fn only_clean_walks_remove_rows(summary: WalkSummary, cancelled: bool)
    ensures
        (cancelled || !summary.completed || summary.walk_errors > 0 || summary.metadata_errors > 0)
            ==> !removal_allowed(summary, cancelled),
        (!cancelled && summary.completed && summary.walk_errors == 0 && summary.metadata_errors == 0)
            ==> removal_allowed(summary, cancelled),
{
}

} // verus!
