//! Bookkeeping of scan jobs: cancellation tokens, worker handles, the active scan
//! and its progress, and the progress reports of a scan run.

use vstd::prelude::*;

use crate::dto::JobProgress;
use crate::text::{chars_of, string_from_chars};

verus! {

#[verifier::external_type_specification]
#[verifier::external_body]
pub struct ExCancellationToken(tokio_util::sync::CancellationToken);

/// `CancellationToken::new`: a token not yet cancelled (its state is not modeled).
#[verifier::external_body]
pub(crate) fn new_cancellation_token() -> tokio_util::sync::CancellationToken {
    tokio_util::sync::CancellationToken::new()
}

/// `CancellationToken::clone`: a token that shares the cancellation state.
#[verifier::external_body]
pub(crate) fn clone_token(t: &tokio_util::sync::CancellationToken) -> tokio_util::sync::CancellationToken {
    t.clone()
}

/// `CancellationToken::cancel`: signals every clone of the token.
#[verifier::external_body]
fn cancel_token(t: &tokio_util::sync::CancellationToken) {
    t.cancel();
}

/// `uuid::Uuid::new_v4().to_string()`: a random UUID in hyphenated form, 36
/// characters long. Which UUID is left unsaid.
#[verifier::external_body]
fn new_job_id() -> (r: String)
    ensures
        r@.len() == 36,
{
    uuid::Uuid::new_v4().to_string()
}

impl JobProgress {
    /// A copy of the progress.
    pub fn duplicate(&self) -> (r: JobProgress)
        ensures
            r == *self,
    {
        JobProgress {
            phase: self.phase.clone(),
            files_seen: self.files_seen,
            files_upserted: self.files_upserted,
            files_deleted: self.files_deleted,
            current_path: self.current_path.clone(),
            roots_total: self.roots_total,
            roots_done: self.roots_done,
            content_indexing_enabled: self.content_indexing_enabled,
        }
    }
}

/// The scan shown as running, with its latest progress.
pub struct ActiveScan {
    pub job_id: String,
    pub progress: JobProgress,
}

/// The job identifiers of a keyed list.
pub open spec fn ids<T>(v: Seq<(String, T)>) -> Seq<Seq<char>> {
    v.map_values(|e: (String, T)| e.0@)
}

/// No identifier occurs twice.
pub open spec fn distinct_ids(s: Seq<Seq<char>>) -> bool {
    forall|a: int, b: int| 0 <= a < b < s.len() ==> s[a] != s[b]
}

/// In-memory registry of scan jobs. `H` is the worker handle type of the runtime.
/// `ended` lists the jobs whose worker ended before its handle was kept, so that a
/// handle arriving late is not kept forever.
pub struct JobManager<H> {
    cancel: Vec<(String, tokio_util::sync::CancellationToken)>,
    handles: Vec<(String, H)>,
    ended: Vec<(String, ())>,
    active_scan: Option<ActiveScan>,
}

/// Index of the entry with identifier `id`, if any.
fn find_id<T>(v: &Vec<(String, T)>, id: &str) -> (r: Option<usize>)
    ensures
        r is None <==> !ids(v@).contains(id@),
        r matches Some(i) ==> i < v.len() && v@[i as int].0@ == id@,
{
    let mut i: usize = 0;
    while i < v.len()
        invariant
            i <= v.len(),
            forall|k: int| 0 <= k < i ==> v@[k].0@ != id@,
        decreases v.len() - i,
    {
        if crate::content_extract::str_eq(v[i].0.as_str(), id) {
            assert(ids(v@)[i as int] == id@);
            return Some(i);
        }
        i = i + 1;
    }
    proof {
        if ids(v@).contains(id@) {
            let k = choose|k: int| 0 <= k < ids(v@).len() && ids(v@)[k] == id@;
            assert(v@[k].0@ == id@);
        }
    }
    None
}

proof fn lemma_ids_remove<T>(v: Seq<(String, T)>, i: int)
    requires
        0 <= i < v.len(),
        distinct_ids(ids(v)),
    ensures
        ids(v.remove(i)) == ids(v).remove(i),
        distinct_ids(ids(v.remove(i))),
        !ids(v.remove(i)).contains(v[i].0@),
{
    assert(ids(v.remove(i)) =~= ids(v).remove(i));
    let r = ids(v).remove(i);
    assert forall|a: int, b: int| 0 <= a < b < r.len() implies r[a] != r[b] by {
        let a2 = if a < i { a } else { a + 1 };
        let b2 = if b < i { b } else { b + 1 };
        assert(r[a] == ids(v)[a2] && r[b] == ids(v)[b2]);
    }
    if r.contains(v[i].0@) {
        let k = choose|k: int| 0 <= k < r.len() && r[k] == v[i].0@;
        let k2 = if k < i { k } else { k + 1 };
        assert(r[k] == ids(v)[k2]);
        assert(ids(v)[i] == v[i].0@);
    }
}

/// `after` is `before` with `key` present: every other key keeps its presence.
pub open spec fn key_added(before: Seq<Seq<char>>, after: Seq<Seq<char>>, key: Seq<char>) -> bool {
    forall|id: Seq<char>| after.contains(id) <==> (before.contains(id) || id == key)
}

/// `after` is `before` with `key` absent: every other key keeps its presence.
pub open spec fn key_removed(before: Seq<Seq<char>>, after: Seq<Seq<char>>, key: Seq<char>) -> bool {
    forall|id: Seq<char>| after.contains(id) <==> (before.contains(id) && id != key)
}

/// Keep `val` under `key`, replacing an earlier entry with that key.
fn insert_keyed<T>(v: &mut Vec<(String, T)>, key: String, val: T)
    requires
        distinct_ids(ids(old(v)@)),
    ensures
        distinct_ids(ids(final(v)@)),
        key_added(ids(old(v)@), ids(final(v)@), key@),
{
    let ghost old_ids = ids(v@);
    let ghost k = key@;
    match find_id(v, key.as_str()) {
        Some(i) => {
            v.set(i, (key, val));
            assert(ids(v@) =~= old_ids.update(i as int, k));
            assert(old_ids[i as int] == k);
            assert(ids(v@) =~= old_ids);
        },
        None => {
            v.push((key, val));
            assert(ids(v@) =~= old_ids.push(k));
            assert forall|id: Seq<char>| ids(v@).contains(id) <==> (old_ids.contains(id) || id == k) by {
                if ids(v@).contains(id) {
                    let j = choose|j: int| 0 <= j < ids(v@).len() && ids(v@)[j] == id;
                    if j < old_ids.len() {
                        assert(old_ids[j] == id);
                    }
                }
                if old_ids.contains(id) {
                    let j = choose|j: int| 0 <= j < old_ids.len() && old_ids[j] == id;
                    assert(ids(v@)[j] == id);
                }
                if id == k {
                    assert(ids(v@)[old_ids.len() as int] == id);
                }
            }
            assert forall|a: int, b: int| 0 <= a < b < ids(v@).len() implies ids(v@)[a] != ids(v@)[b] by {
                if b == old_ids.len() {
                    assert(ids(v@)[a] == old_ids[a]);
                }
            }
        },
    }
}

/// Drop the entry with key `key`, if any; returns whether there was one.
fn remove_keyed<T>(v: &mut Vec<(String, T)>, key: &str) -> (found: bool)
    requires
        distinct_ids(ids(old(v)@)),
    ensures
        distinct_ids(ids(final(v)@)),
        found == ids(old(v)@).contains(key@),
        key_removed(ids(old(v)@), ids(final(v)@), key@),
{
    let ghost w = v@;
    match find_id(v, key) {
        Some(i) => {
            proof {
                lemma_ids_remove(w, i as int);
            }
            v.remove(i);
            assert(ids(v@) =~= ids(w).remove(i as int));
            assert forall|id: Seq<char>| ids(v@).contains(id) <==> (ids(w).contains(id) && id != key@) by {
                if ids(w).contains(id) && id != key@ {
                    let k = choose|k: int| 0 <= k < ids(w).len() && ids(w)[k] == id;
                    assert(k != i);
                    let k2 = if k < i { k } else { k - 1 };
                    assert(ids(v@)[k2] == id);
                }
                if ids(v@).contains(id) {
                    let k = choose|k: int| 0 <= k < ids(v@).len() && ids(v@)[k] == id;
                    let k2 = if k < i { k } else { k + 1 };
                    assert(ids(w)[k2] == id);
                }
            }
            true
        },
        None => {
            assert forall|id: Seq<char>| ids(v@).contains(id) <==> (ids(w).contains(id) && id != key@) by {}
            false
        },
    }
}

/// What `finish_job(id)` does: the token and the handle of `id` are gone, and when
/// no handle was kept yet `id` is remembered as ended; nothing else changes.
pub open spec fn finish_job_step<H>(before: JobManager<H>, after: JobManager<H>, id: Seq<char>) -> bool {
    &&& after.wf()
    &&& key_removed(before.cancel_ids(), after.cancel_ids(), id)
    &&& key_removed(before.handle_ids(), after.handle_ids(), id)
    &&& before.handle_ids().contains(id) ==> (forall|x: Seq<char>|
        after.ended_ids().contains(x) <==> before.ended_ids().contains(x))
    &&& !before.handle_ids().contains(id) ==> key_added(before.ended_ids(), after.ended_ids(), id)
    &&& after.active() == before.active()
}

/// What `add_handle(id, ..)` returning `kept` does: a job that already ended has its
/// handle dropped and is forgotten as ended; any other job has its handle kept.
pub open spec fn add_handle_step<H>(before: JobManager<H>, after: JobManager<H>, id: Seq<char>, kept: bool) -> bool {
    &&& after.wf()
    &&& kept == !before.ended_ids().contains(id)
    &&& kept ==> key_added(before.handle_ids(), after.handle_ids(), id)
    &&& kept ==> (forall|x: Seq<char>| after.ended_ids().contains(x) <==> before.ended_ids().contains(x))
    &&& !kept ==> (forall|x: Seq<char>| after.handle_ids().contains(x) <==> before.handle_ids().contains(x))
    &&& !kept ==> key_removed(before.ended_ids(), after.ended_ids(), id)
    &&& after.cancel_ids() == before.cancel_ids()
    &&& after.active() == before.active()
}

impl<H> JobManager<H> {
    /// Identifiers of the jobs that can be cancelled.
    pub closed spec fn cancel_ids(&self) -> Seq<Seq<char>> {
        ids(self.cancel@)
    }

    /// Identifiers of the jobs with a running worker.
    pub closed spec fn handle_ids(&self) -> Seq<Seq<char>> {
        ids(self.handles@)
    }

    /// Identifiers of the jobs whose worker ended before its handle was kept.
    pub closed spec fn ended_ids(&self) -> Seq<Seq<char>> {
        ids(self.ended@)
    }

    /// The active scan: its job identifier and progress.
    pub closed spec fn active(&self) -> Option<(Seq<char>, JobProgress)> {
        match self.active_scan {
            Some(a) => Some((a.job_id@, a.progress)),
            None => None,
        }
    }

    /// Each job identifier is registered at most once in each list.
    pub closed spec fn wf(&self) -> bool {
        &&& distinct_ids(ids(self.cancel@))
        &&& distinct_ids(ids(self.handles@))
        &&& distinct_ids(ids(self.ended@))
    }

    /// What `has_active_scan` reports.
    pub open spec fn is_busy(&self) -> bool {
        self.active() is Some || self.handle_ids().len() > 0
    }

    /// A registry with no jobs.
    pub fn new() -> (m: Self)
        ensures
            m.wf(),
            m.cancel_ids().len() == 0,
            m.handle_ids().len() == 0,
            m.ended_ids().len() == 0,
            m.active() is None,
    {
        let m = JobManager { cancel: Vec::new(), handles: Vec::new(), ended: Vec::new(), active_scan: None };
        assert(ids(m.cancel@) =~= Seq::<Seq<char>>::empty());
        assert(ids(m.handles@) =~= Seq::<Seq<char>>::empty());
        assert(ids(m.ended@) =~= Seq::<Seq<char>>::empty());
        m
    }

    /// True while a scan is registered as active or a worker is still running.
    pub fn has_active_scan(&self) -> (r: bool)
        ensures
            r == self.is_busy(),
    {
        self.active_scan.is_some() || self.handles.len() > 0
    }

    /// Show `job_id` as the running scan with `progress`.
    pub fn register_active_scan(&mut self, job_id: &str, progress: JobProgress)
        requires
            old(self).wf(),
        ensures
            final(self).wf(),
            final(self).active() == Some((job_id@, progress)),
            final(self).cancel_ids() == old(self).cancel_ids(),
            final(self).handle_ids() == old(self).handle_ids(),
            final(self).ended_ids() == old(self).ended_ids(),
    {
        self.active_scan = Some(ActiveScan { job_id: String::from_str(job_id), progress });
    }

    /// Record new progress for `job_id` if it is the active scan; otherwise nothing.
    pub fn set_scan_progress(&mut self, job_id: &str, progress: JobProgress)
        requires
            old(self).wf(),
        ensures
            final(self).wf(),
            final(self).cancel_ids() == old(self).cancel_ids(),
            final(self).handle_ids() == old(self).handle_ids(),
            final(self).ended_ids() == old(self).ended_ids(),
            (old(self).active() matches Some(a) && a.0 == job_id@) ==> final(self).active() == Some(
                (job_id@, progress),
            ),
            !(old(self).active() matches Some(a) && a.0 == job_id@) ==> final(self).active()
                == old(self).active(),
    {
        let matches = match &self.active_scan {
            Some(a) => crate::content_extract::str_eq(a.job_id.as_str(), job_id),
            None => false,
        };
        if matches {
            let a = self.active_scan.take().unwrap();
            self.active_scan = Some(ActiveScan { job_id: a.job_id, progress });
        }
    }

    /// Stop showing `job_id` as running, if it is the active scan.
    pub fn clear_active_scan(&mut self, job_id: &str)
        requires
            old(self).wf(),
        ensures
            final(self).wf(),
            final(self).cancel_ids() == old(self).cancel_ids(),
            final(self).handle_ids() == old(self).handle_ids(),
            final(self).ended_ids() == old(self).ended_ids(),
            (old(self).active() matches Some(a) && a.0 == job_id@) ==> final(self).active() is None,
            !(old(self).active() matches Some(a) && a.0 == job_id@) ==> final(self).active()
                == old(self).active(),
    {
        let matches = match &self.active_scan {
            Some(a) => crate::content_extract::str_eq(a.job_id.as_str(), job_id),
            None => false,
        };
        if matches {
            self.active_scan = None;
        }
    }

    /// The active scan's identifier and progress, if any.
    pub fn get_scan_snapshot(&self) -> (r: Option<(String, JobProgress)>)
        ensures
            self.active() is None ==> r is None,
            self.active() matches Some(a) ==> (r matches Some(s) && s.0@ == a.0 && s.1 == a.1),
    {
        match &self.active_scan {
            Some(a) => Some((a.job_id.clone(), a.progress.duplicate())),
            None => None,
        }
    }

    /// Signal cancellation to the job `job_id`; returns whether it has a token.
    pub fn cancel(&self, job_id: &str) -> (found: bool)
        ensures
            found == self.cancel_ids().contains(job_id@),
    {
        match find_id(&self.cancel, job_id) {
            Some(i) => {
                cancel_token(&self.cancel[i].1);
                true
            },
            None => false,
        }
    }

    /// Register a new scan: a fresh identifier with a cancellation token, shown as
    /// the active scan in phase `queued`. Returns the identifier and a clone of the
    /// token for the worker.
    pub fn begin_scan(&mut self, content_indexing_enabled: bool) -> (r: (
        String,
        tokio_util::sync::CancellationToken,
    ))
        requires
            old(self).wf(),
        ensures
            final(self).wf(),
            final(self).cancel_ids().contains(r.0@),
            key_added(old(self).cancel_ids(), final(self).cancel_ids(), r.0@),
            final(self).handle_ids() == old(self).handle_ids(),
            final(self).ended_ids() == old(self).ended_ids(),
            final(self).active() matches Some(a) && a.0 == r.0@ && is_queued_progress(
                a.1,
                content_indexing_enabled,
            ),
    {
        let job_id = new_job_id();
        let token = new_cancellation_token();
        let worker_token = clone_token(&token);
        insert_keyed(&mut self.cancel, job_id.clone(), token);
        let p = queued_progress(content_indexing_enabled);
        self.register_active_scan(job_id.as_str(), p);
        (job_id, worker_token)
    }

    /// Keep `h` as the worker handle of `job_id` (replacing an earlier one), unless
    /// the worker already ended: then the handle is dropped and the job forgotten.
    /// Returns whether the handle was kept.
    pub fn add_handle(&mut self, job_id: String, h: H) -> (kept: bool)
        requires
            old(self).wf(),
        ensures
            add_handle_step(*old(self), *final(self), job_id@, kept),
    {
        let ghost before = *self;
        let ghost k = job_id@;
        let ended_before = remove_keyed(&mut self.ended, job_id.as_str());
        if ended_before {
            assert forall|x: Seq<char>| ids(self.handles@).contains(x) <==> before.handle_ids().contains(x) by {}
            false
        } else {
            assert forall|x: Seq<char>| ids(self.ended@).contains(x) <==> before.ended_ids().contains(x) by {
                if x == k {
                    assert(!before.ended_ids().contains(x));
                }
            }
            insert_keyed(&mut self.handles, job_id, h);
            true
        }
    }

    /// The worker of `job_id` ended: forget its token and its handle; if no handle
    /// was kept yet, remember the job as ended.
    pub fn finish_job(&mut self, job_id: &str)
        requires
            old(self).wf(),
        ensures
            finish_job_step(*old(self), *final(self), job_id@),
    {
        let ghost before = *self;
        remove_keyed(&mut self.cancel, job_id);
        let had_handle = remove_keyed(&mut self.handles, job_id);
        if !had_handle {
            insert_keyed(&mut self.ended, String::from_str(job_id), ());
        } else {
            assert forall|x: Seq<char>| ids(self.ended@).contains(x) <==> before.ended_ids().contains(x) by {}
        }
    }
}

/// A job's worker handle never outlives the job, whichever comes first: keeping
/// the handle or the worker ending. When the job was the only one with a handle
/// and its scan is no longer shown as active, the registry is idle afterwards.
pub proof fn finished_job_leaves_no_handle<H>(
    m0: JobManager<H>,
    m1: JobManager<H>,
    m2: JobManager<H>,
    id: Seq<char>,
    kept: bool,
    handle_first: bool,
)
    requires
        !m0.handle_ids().contains(id),
        !m0.ended_ids().contains(id),
        handle_first ==> add_handle_step(m0, m1, id, kept) && finish_job_step(m1, m2, id),
        !handle_first ==> finish_job_step(m0, m1, id) && add_handle_step(m1, m2, id, kept),
    ensures
        !m2.handle_ids().contains(id),
        !m2.ended_ids().contains(id),
        (m0.active() is None && forall|x: Seq<char>| m0.handle_ids().contains(x) ==> x == id)
            ==> !m2.is_busy(),
{
    if handle_first {
        assert(kept);
    } else {
        assert(m1.ended_ids().contains(id));
        assert(!kept);
    }
    if m0.active() is None && forall|x: Seq<char>| m0.handle_ids().contains(x) ==> x == id {
        if m2.handle_ids().len() > 0 {
            assert(m2.handle_ids().contains(m2.handle_ids()[0]));
        }
    }
}

/// A progress report with zero counts and no current path in phase `phase`.
pub open spec fn is_fresh_progress(p: JobProgress, phase: Seq<char>, content: bool) -> bool {
    &&& p.phase@ == phase
    &&& p.files_seen == 0
    &&& p.files_upserted == 0
    &&& p.files_deleted == 0
    &&& p.current_path is None
    &&& p.roots_total == 0
    &&& p.roots_done == 0
    &&& p.content_indexing_enabled == content
}

/// A fresh report in phase `queued`.
pub open spec fn is_queued_progress(p: JobProgress, content: bool) -> bool {
    is_fresh_progress(p, "queued"@, content)
}

/// A fresh report in phase `phase`.
fn fresh_progress(phase: &str, content: bool) -> (p: JobProgress)
    ensures
        is_fresh_progress(p, phase@, content),
{
    JobProgress {
        phase: String::from_str(phase),
        files_seen: 0,
        files_upserted: 0,
        files_deleted: 0,
        current_path: None,
        roots_total: 0,
        roots_done: 0,
        content_indexing_enabled: content,
    }
}

/// Progress of a scan that is enqueued but not started.
pub fn queued_progress(content_indexing_enabled: bool) -> (p: JobProgress)
    ensures
        is_queued_progress(p, content_indexing_enabled),
{
    fresh_progress("queued", content_indexing_enabled)
}

/// Progress of a scan that loaded its settings and is about to walk.
pub fn starting_progress(content_indexing_enabled: bool) -> (p: JobProgress)
    ensures
        is_fresh_progress(p, "starting"@, content_indexing_enabled),
{
    fresh_progress("starting", content_indexing_enabled)
}

/// Progress of a scan that had no enabled root to walk.
pub fn completed_without_roots_progress(content_indexing_enabled: bool) -> (p: JobProgress)
    ensures
        is_fresh_progress(p, "completed"@, content_indexing_enabled),
{
    fresh_progress("completed", content_indexing_enabled)
}

/// At most the first `n` characters of `s`.
pub fn truncate_chars(s: &str, n: usize) -> (r: String)
    ensures
        r@ == s@.take(if s@.len() < n {
            s@.len() as int
        } else {
            n as int
        }),
{
    let v = chars_of(s);
    let k = if v.len() < n {
        v.len()
    } else {
        n
    };
    let r = string_from_chars(&v.as_slice()[0..k]);
    assert(r@ =~= s@.take(k as int));
    r
}

/// Counts of a running scan over all its roots.
#[derive(Debug, Clone, Copy)]
pub struct ScanTally {
    pub files_seen: u64,
    pub files_upserted: u64,
    pub files_deleted: u64,
    pub roots_total: u32,
    pub content_indexing_enabled: bool,
}

impl ScanTally {
    /// Nothing counted yet for a scan over `roots_total` roots.
    pub fn new(roots_total: u32, content_indexing_enabled: bool) -> (t: ScanTally)
        ensures
            t.files_seen == 0,
            t.files_upserted == 0,
            t.files_deleted == 0,
            t.roots_total == roots_total,
            t.content_indexing_enabled == content_indexing_enabled,
    {
        ScanTally { files_seen: 0, files_upserted: 0, files_deleted: 0, roots_total, content_indexing_enabled }
    }

    /// A batch of `batch_len` files was written, `upserted` of them changed; the
    /// report names the last file (first 200 characters) and the roots done so far.
    pub fn after_batch(&mut self, upserted: u64, batch_len: u64, last_rel: Option<&str>, roots_done: u32) -> (p: JobProgress)
        requires
            old(self).files_upserted + upserted <= u64::MAX,
            old(self).files_seen + batch_len <= u64::MAX,
        ensures
            final(self).files_upserted == old(self).files_upserted + upserted,
            final(self).files_seen == old(self).files_seen + batch_len,
            final(self).files_deleted == old(self).files_deleted,
            final(self).roots_total == old(self).roots_total,
            final(self).content_indexing_enabled == old(self).content_indexing_enabled,
            p.phase@ == "indexing"@,
            p.files_seen == final(self).files_seen,
            p.files_upserted == final(self).files_upserted,
            p.files_deleted == final(self).files_deleted,
            p.roots_total == old(self).roots_total,
            p.roots_done == roots_done,
            p.content_indexing_enabled == old(self).content_indexing_enabled,
            last_rel is None ==> p.current_path is None,
            last_rel matches Some(l) ==> (p.current_path matches Some(c) && c@ == l@.take(
                if l@.len() < 200 {
                    l@.len() as int
                } else {
                    200
                },
            )),
    {
        self.files_upserted = self.files_upserted + upserted;
        self.files_seen = self.files_seen + batch_len;
        let current_path = match last_rel {
            Some(l) => Some(truncate_chars(l, 200)),
            None => None,
        };
        JobProgress {
            phase: String::from_str("indexing"),
            files_seen: self.files_seen,
            files_upserted: self.files_upserted,
            files_deleted: self.files_deleted,
            current_path,
            roots_total: self.roots_total,
            roots_done,
            content_indexing_enabled: self.content_indexing_enabled,
        }
    }

    /// A root was walked and reconciled, `removed` stale files were deleted.
    pub fn after_root(&mut self, removed: u64, roots_done: u32) -> (p: JobProgress)
        requires
            old(self).files_deleted + removed <= u64::MAX,
        ensures
            final(self).files_deleted == old(self).files_deleted + removed,
            final(self).files_seen == old(self).files_seen,
            final(self).files_upserted == old(self).files_upserted,
            final(self).roots_total == old(self).roots_total,
            final(self).content_indexing_enabled == old(self).content_indexing_enabled,
            p.phase@ == "indexing"@,
            p.files_seen == final(self).files_seen,
            p.files_upserted == final(self).files_upserted,
            p.files_deleted == final(self).files_deleted,
            p.current_path is None,
            p.roots_total == old(self).roots_total,
            p.roots_done == roots_done,
            p.content_indexing_enabled == old(self).content_indexing_enabled,
    {
        self.files_deleted = self.files_deleted + removed;
        JobProgress {
            phase: String::from_str("indexing"),
            files_seen: self.files_seen,
            files_upserted: self.files_upserted,
            files_deleted: self.files_deleted,
            current_path: None,
            roots_total: self.roots_total,
            roots_done,
            content_indexing_enabled: self.content_indexing_enabled,
        }
    }

    /// The report of a scan that walked every root.
    pub fn completed(&self) -> (p: JobProgress)
        ensures
            p.phase@ == "completed"@,
            p.files_seen == self.files_seen,
            p.files_upserted == self.files_upserted,
            p.files_deleted == self.files_deleted,
            p.current_path is None,
            p.roots_total == self.roots_total,
            p.roots_done == self.roots_total,
            p.content_indexing_enabled == self.content_indexing_enabled,
    {
        JobProgress {
            phase: String::from_str("completed"),
            files_seen: self.files_seen,
            files_upserted: self.files_upserted,
            files_deleted: self.files_deleted,
            current_path: None,
            roots_total: self.roots_total,
            roots_done: self.roots_total,
            content_indexing_enabled: self.content_indexing_enabled,
        }
    }
}

/// How a scan run ended.
#[derive(Debug, Clone, Copy)]
pub enum ScanOutcome {
    Completed,
    Failed,
    Cancelled,
}

/// The status word of an outcome, as reported to the user and stored.
pub open spec fn outcome_label(o: ScanOutcome) -> Seq<char> {
    match o {
        ScanOutcome::Completed => "completed"@,
        ScanOutcome::Failed => "failed"@,
        ScanOutcome::Cancelled => "cancelled"@,
    }
}

impl ScanOutcome {
    /// `completed`, `failed` or `cancelled`.
    pub fn label(&self) -> (r: String)
        ensures
            r@ == outcome_label(*self),
    {
        match self {
            ScanOutcome::Completed => String::from_str("completed"),
            ScanOutcome::Failed => String::from_str("failed"),
            ScanOutcome::Cancelled => String::from_str("cancelled"),
        }
    }
}

/// Where a scan run stands: which outside step it waits for.
#[derive(Debug, Clone, Copy)]
pub enum ScanStage {
    /// Not begun.
    NotStarted,
    /// Waiting for the settings to be loaded.
    LoadingSettings,
    /// Waiting for the `starting` report to be delivered.
    ReportingStart,
    /// Waiting for the enabled roots to be listed.
    ListingRoots,
    /// Walking root `roots_done`.
    Walking,
    /// Removing the rows that the walk of root `roots_done` did not see.
    Reconciling,
    /// Waiting for the report after a root to be delivered.
    ReportingRoot,
    /// A terminal outcome was decided.
    Finished,
}

/// What the outside world reports back to a scan run.
#[derive(Debug, Clone)]
pub enum ScanEvent {
    /// The worker started.
    Begin,
    /// The settings were loaded.
    SettingsLoaded { content_indexing_enabled: bool },
    /// The last `Report` action was delivered.
    Reported,
    /// The enabled roots were listed; there are `count` of them.
    RootsListed { count: u32 },
    /// The walk produced a batch of files.
    BatchReady,
    /// A batch of `len` files was written, `upserted` of them changed; `last_rel` is
    /// the last file's path and `report_due` whether enough time passed to report.
    BatchWritten { upserted: u64, len: u64, last_rel: Option<String>, report_due: bool },
    /// The walk of the current root ended.
    RootWalked,
    /// Stale rows of the current root were removed, `removed` of them.
    RootReconciled { removed: u64 },
    /// An outside step failed.
    Failed,
}

/// What a scan run asks the outside world to do next.
#[derive(Debug, Clone)]
pub enum ScanAction {
    /// Load the settings; answer `SettingsLoaded`.
    LoadSettings,
    /// Deliver the progress report; answer `Reported`.
    Report { progress: JobProgress },
    /// List the enabled roots; answer `RootsListed`.
    ListRoots,
    /// Walk the root at `index`; answer `BatchReady`/`BatchWritten` per batch, then `RootWalked`.
    WalkRoot { index: u32 },
    /// Write the batch; answer `BatchWritten`.
    WriteBatch,
    /// Drop the batch and go on walking (the run was cancelled).
    SkipBatch,
    /// Deliver the progress report and go on walking.
    EmitProgress { progress: JobProgress },
    /// Go on walking.
    Continue,
    /// Remove the stale rows of the root at `index`; answer `RootReconciled`.
    Reconcile { index: u32 },
    /// End the run: deliver `progress` if any, record the outcome and stop.
    Finish { outcome: ScanOutcome, progress: Option<JobProgress> },
}

/// The state of one scan run.
#[derive(Debug, Clone, Copy)]
pub struct ScanRun {
    pub stage: ScanStage,
    /// Whether the settings turn file-text indexing on.
    pub content_indexing_enabled: bool,
    pub tally: ScanTally,
    /// Roots walked and reconciled so far.
    pub roots_done: u32,
}

/// `p` reports the counts of `t` in phase `phase` with `roots_done` roots done.
pub open spec fn reports_tally(p: JobProgress, t: ScanTally, phase: Seq<char>, roots_done: u32) -> bool {
    &&& p.phase@ == phase
    &&& p.files_seen == t.files_seen
    &&& p.files_upserted == t.files_upserted
    &&& p.files_deleted == t.files_deleted
    &&& p.roots_total == t.roots_total
    &&& p.roots_done == roots_done
    &&& p.content_indexing_enabled == t.content_indexing_enabled
}

/// Ending with `outcome` and nothing to report.
pub open spec fn is_bare_finish(a: ScanAction, outcome: ScanOutcome) -> bool {
    a matches ScanAction::Finish { outcome: o, progress: None } && o == outcome
}

impl ScanRun {
    /// Roots done never exceed the roots listed; while a root is walked or
    /// reconciled, it is one of them.
    pub open spec fn wf(&self) -> bool {
        &&& self.roots_done <= self.tally.roots_total
        &&& (self.stage is Walking || self.stage is Reconciling) ==> self.roots_done < self.tally.roots_total
    }

    /// Whether `event` is an answer the run waits for (and its counts fit).
    pub open spec fn accepts_spec(&self, event: ScanEvent) -> bool {
        match event {
            ScanEvent::Failed => !(self.stage is Finished),
            ScanEvent::Begin => self.stage is NotStarted,
            ScanEvent::SettingsLoaded { .. } => self.stage is LoadingSettings,
            ScanEvent::Reported => self.stage is ReportingStart || self.stage is ReportingRoot,
            ScanEvent::RootsListed { .. } => self.stage is ListingRoots,
            ScanEvent::BatchReady => self.stage is Walking,
            ScanEvent::BatchWritten { upserted, len, .. } => self.stage is Walking
                && self.tally.files_upserted + upserted <= u64::MAX && self.tally.files_seen + len
                <= u64::MAX,
            ScanEvent::RootWalked => self.stage is Walking,
            ScanEvent::RootReconciled { removed } => self.stage is Reconciling
                && self.tally.files_deleted + removed <= u64::MAX,
        }
    }

    /// A run about to begin.
    pub fn new() -> (r: ScanRun)
        ensures
            r.wf(),
            r.stage is NotStarted,
            r.roots_done == 0,
    {
        ScanRun {
            stage: ScanStage::NotStarted,
            content_indexing_enabled: false,
            tally: ScanTally::new(0, false),
            roots_done: 0,
        }
    }

    /// Whether `event` is an answer the run waits for (and its counts fit).
    pub fn accepts(&self, event: &ScanEvent) -> (r: bool)
        ensures
            r == self.accepts_spec(*event),
    {
        match event {
            ScanEvent::Failed => !matches!(self.stage, ScanStage::Finished),
            ScanEvent::Begin => matches!(self.stage, ScanStage::NotStarted),
            ScanEvent::SettingsLoaded { .. } => matches!(self.stage, ScanStage::LoadingSettings),
            ScanEvent::Reported => matches!(self.stage, ScanStage::ReportingStart) || matches!(
                self.stage,
                ScanStage::ReportingRoot
            ),
            ScanEvent::RootsListed { .. } => matches!(self.stage, ScanStage::ListingRoots),
            ScanEvent::BatchReady => matches!(self.stage, ScanStage::Walking),
            ScanEvent::BatchWritten { upserted, len, .. } => matches!(self.stage, ScanStage::Walking)
                && *upserted <= u64::MAX - self.tally.files_upserted && *len <= u64::MAX
                - self.tally.files_seen,
            ScanEvent::RootWalked => matches!(self.stage, ScanStage::Walking),
            ScanEvent::RootReconciled { removed } => matches!(self.stage, ScanStage::Reconciling)
                && *removed <= u64::MAX - self.tally.files_deleted,
        }
    }
}

/// The decisions of a scan run: given what the last outside step reported and
/// whether cancellation was requested, the next step. Cancellation is honoured
/// before the settings are loaded, after the start is reported, before each root
/// and after each walk; a batch found after cancellation is not written. A run
/// with no enabled root completes at once; after the last root it completes
/// with the final counts; an outside failure ends it as failed.
pub fn next_scan_action(run: &mut ScanRun, event: ScanEvent, cancelled: bool) -> (a: ScanAction)
    requires
        old(run).wf(),
        old(run).accepts_spec(event),
    ensures
        final(run).wf(),
        (a is Finish) <==> (final(run).stage is Finished),
        event is Failed ==> is_bare_finish(a, ScanOutcome::Failed),
        event is Begin ==> (if cancelled {
            is_bare_finish(a, ScanOutcome::Cancelled)
        } else {
            a is LoadSettings && final(run).stage is LoadingSettings
        }),
        event matches ScanEvent::SettingsLoaded { content_indexing_enabled: c } ==> ({
            &&& a matches ScanAction::Report { progress } && is_fresh_progress(progress, "starting"@, c)
            &&& final(run).stage is ReportingStart
            &&& final(run).content_indexing_enabled == c
        }),
        (event is Reported && old(run).stage is ReportingStart) ==> (if cancelled {
            is_bare_finish(a, ScanOutcome::Cancelled)
        } else {
            a is ListRoots && final(run).stage is ListingRoots
        }),
        event matches ScanEvent::RootsListed { count } ==> (if count == 0 {
            a matches ScanAction::Finish { outcome: ScanOutcome::Completed, progress: Some(p) }
                && is_fresh_progress(p, "completed"@, old(run).content_indexing_enabled)
        } else {
            &&& final(run).roots_done == 0
            &&& final(run).tally == (ScanTally {
                files_seen: 0,
                files_upserted: 0,
                files_deleted: 0,
                roots_total: count,
                content_indexing_enabled: old(run).content_indexing_enabled,
            })
            &&& cancelled ==> is_bare_finish(a, ScanOutcome::Cancelled)
            &&& !cancelled ==> (a matches ScanAction::WalkRoot { index } && index == 0
                && final(run).stage is Walking)
        }),
        event is BatchReady ==> (*final(run) == *old(run) && if cancelled {
            a is SkipBatch
        } else {
            a is WriteBatch
        }),
        event matches ScanEvent::BatchWritten { upserted, len, last_rel, report_due } ==> ({
            &&& final(run).stage == old(run).stage
            &&& final(run).roots_done == old(run).roots_done
            &&& final(run).tally == (ScanTally {
                files_seen: (old(run).tally.files_seen + len) as u64,
                files_upserted: (old(run).tally.files_upserted + upserted) as u64,
                ..old(run).tally
            })
            &&& !report_due ==> a is Continue
            &&& report_due ==> (a matches ScanAction::EmitProgress { progress: p } && reports_tally(
                p,
                final(run).tally,
                "indexing"@,
                old(run).roots_done,
            ) && (last_rel is None ==> p.current_path is None) && (last_rel matches Some(l)
                ==> (p.current_path matches Some(c) && c@ == l@.take(
                if l@.len() < 200 {
                    l@.len() as int
                } else {
                    200
                },
            ))))
        }),
        event is RootWalked ==> (if cancelled {
            is_bare_finish(a, ScanOutcome::Cancelled)
        } else {
            a matches ScanAction::Reconcile { index } && index == old(run).roots_done
                && final(run).stage is Reconciling && final(run).roots_done == old(run).roots_done
        }),
        event matches ScanEvent::RootReconciled { removed } ==> ({
            &&& final(run).stage is ReportingRoot
            &&& final(run).roots_done == old(run).roots_done + 1
            &&& final(run).tally == (ScanTally {
                files_deleted: (old(run).tally.files_deleted + removed) as u64,
                ..old(run).tally
            })
            &&& a matches ScanAction::Report { progress: p } && reports_tally(
                p,
                final(run).tally,
                "indexing"@,
                final(run).roots_done,
            ) && p.current_path is None
        }),
        (event is Reported && old(run).stage is ReportingRoot) ==> (if old(run).roots_done
            == old(run).tally.roots_total {
            a matches ScanAction::Finish { outcome: ScanOutcome::Completed, progress: Some(p) }
                && reports_tally(p, old(run).tally, "completed"@, old(run).tally.roots_total)
                && p.current_path is None
        } else if cancelled {
            is_bare_finish(a, ScanOutcome::Cancelled)
        } else {
            a matches ScanAction::WalkRoot { index } && index == old(run).roots_done
                && final(run).stage is Walking && final(run).roots_done == old(run).roots_done
        }),
{
    let cancel_now = ScanAction::Finish { outcome: ScanOutcome::Cancelled, progress: None };
    match event {
        ScanEvent::Failed => {
            run.stage = ScanStage::Finished;
            ScanAction::Finish { outcome: ScanOutcome::Failed, progress: None }
        },
        ScanEvent::Begin => {
            if cancelled {
                run.stage = ScanStage::Finished;
                cancel_now
            } else {
                run.stage = ScanStage::LoadingSettings;
                ScanAction::LoadSettings
            }
        },
        ScanEvent::SettingsLoaded { content_indexing_enabled } => {
            run.content_indexing_enabled = content_indexing_enabled;
            run.stage = ScanStage::ReportingStart;
            ScanAction::Report { progress: starting_progress(content_indexing_enabled) }
        },
        ScanEvent::Reported => {
            if matches!(run.stage, ScanStage::ReportingStart) {
                if cancelled {
                    run.stage = ScanStage::Finished;
                    cancel_now
                } else {
                    run.stage = ScanStage::ListingRoots;
                    ScanAction::ListRoots
                }
            } else if run.roots_done == run.tally.roots_total {
                run.stage = ScanStage::Finished;
                ScanAction::Finish { outcome: ScanOutcome::Completed, progress: Some(run.tally.completed()) }
            } else if cancelled {
                run.stage = ScanStage::Finished;
                cancel_now
            } else {
                run.stage = ScanStage::Walking;
                ScanAction::WalkRoot { index: run.roots_done }
            }
        },
        ScanEvent::RootsListed { count } => {
            if count == 0 {
                run.stage = ScanStage::Finished;
                ScanAction::Finish {
                    outcome: ScanOutcome::Completed,
                    progress: Some(completed_without_roots_progress(run.content_indexing_enabled)),
                }
            } else {
                run.tally = ScanTally::new(count, run.content_indexing_enabled);
                run.roots_done = 0;
                if cancelled {
                    run.stage = ScanStage::Finished;
                    cancel_now
                } else {
                    run.stage = ScanStage::Walking;
                    ScanAction::WalkRoot { index: 0 }
                }
            }
        },
        ScanEvent::BatchReady => {
            if cancelled {
                ScanAction::SkipBatch
            } else {
                ScanAction::WriteBatch
            }
        },
        ScanEvent::BatchWritten { upserted, len, last_rel, report_due } => {
            let roots_done = run.roots_done;
            let p = match &last_rel {
                Some(l) => run.tally.after_batch(upserted, len, Some(l.as_str()), roots_done),
                None => run.tally.after_batch(upserted, len, None, roots_done),
            };
            if report_due {
                ScanAction::EmitProgress { progress: p }
            } else {
                ScanAction::Continue
            }
        },
        ScanEvent::RootWalked => {
            if cancelled {
                run.stage = ScanStage::Finished;
                cancel_now
            } else {
                run.stage = ScanStage::Reconciling;
                ScanAction::Reconcile { index: run.roots_done }
            }
        },
        ScanEvent::RootReconciled { removed } => {
            let done = run.roots_done + 1;
            let p = run.tally.after_root(removed, done);
            run.roots_done = done;
            run.stage = ScanStage::ReportingRoot;
            ScanAction::Report { progress: p }
        },
    }
}

/// A run takes every answer it waits for: in each stage, the event that stage asks
/// for is accepted whatever its data, bounded only by the counters fitting in
/// `u64` (so, for instance, any number of removed stale rows is accepted after a
/// walk, however few files the walk saw). A finished run accepts nothing.
pub proof fn scan_run_accepts_awaited_answers(
    run: ScanRun,
    content_indexing_enabled: bool,
    count: u32,
    upserted: u64,
    len: u64,
    last_rel: Option<String>,
    report_due: bool,
    removed: u64,
    any: ScanEvent,
)
    requires
        run.wf(),
    ensures
        run.stage is NotStarted ==> run.accepts_spec(ScanEvent::Begin),
        run.stage is LoadingSettings ==> run.accepts_spec(
            ScanEvent::SettingsLoaded { content_indexing_enabled },
        ),
        (run.stage is ReportingStart || run.stage is ReportingRoot) ==> run.accepts_spec(
            ScanEvent::Reported,
        ),
        run.stage is ListingRoots ==> run.accepts_spec(ScanEvent::RootsListed { count }),
        run.stage is Walking ==> run.accepts_spec(ScanEvent::BatchReady) && run.accepts_spec(
            ScanEvent::RootWalked,
        ),
        (run.stage is Walking && run.tally.files_upserted + upserted <= u64::MAX
            && run.tally.files_seen + len <= u64::MAX) ==> run.accepts_spec(
            ScanEvent::BatchWritten { upserted, len, last_rel, report_due },
        ),
        (run.stage is Reconciling && run.tally.files_deleted + removed <= u64::MAX)
            ==> run.accepts_spec(ScanEvent::RootReconciled { removed }),
        !(run.stage is Finished) ==> run.accepts_spec(ScanEvent::Failed),
        run.stage is Finished ==> !run.accepts_spec(any),
{
}

/// Batch size used while walking: the configured size clamped to 200..=20000,
/// then to 256..=4096.
pub fn walk_batch_size(batch_size: usize) -> (r: usize)
    ensures
        r == ({
            let b = if batch_size < 200 {
                200
            } else if batch_size > 20_000 {
                20_000
            } else {
                batch_size
            };
            let m = if b < 4096 {
                b
            } else {
                4096
            };
            if m > 256 {
                m
            } else {
                256
            }
        }),
        256 <= r <= 4096,
{
    let b = if batch_size < 200 {
        200
    } else if batch_size > 20_000 {
        20_000
    } else {
        batch_size
    };
    let m = if b < 4096 {
        b
    } else {
        4096
    };
    if m > 256 {
        m
    } else {
        256
    }
}

/// The outcome recorded in the index metadata for a terminal job status:
/// `completed`, `failed` and `cancelled` are kept, anything else becomes `idle`.
pub open spec fn meta_status_for(status: Seq<char>) -> Seq<char> {
    if status == "completed"@ || status == "failed"@ || status == "cancelled"@ {
        status
    } else {
        "idle"@
    }
}

/// The index-metadata outcome for a terminal job status.
pub fn terminal_meta_status(status: &str) -> (r: String)
    ensures
        r@ == meta_status_for(status@),
{
    if crate::content_extract::str_eq(status, "completed") || crate::content_extract::str_eq(
        status,
        "failed",
    ) || crate::content_extract::str_eq(status, "cancelled") {
        String::from_str(status)
    } else {
        String::from_str("idle")
    }
}

} // verus!
