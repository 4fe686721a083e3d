//! Exclusion globs and the batching of files found by a directory walk.

use vstd::prelude::*;

use crate::content_extract::views;
use crate::text::{push_char, replace_char, replace_char_str};

verus! {

/// A file found by a walk, relative to its root.
#[derive(Debug, Clone)]
pub struct ScannedFile {
    pub rel_path: String,
    pub size: i64,
    pub mtime_ns: i64,
}

/// Counts kept while walking one root.
#[derive(Debug, Clone, Copy, Default)]
pub struct WalkSummary {
    pub seen: u64,
    pub completed: bool,
    pub walk_errors: u64,
    pub metadata_errors: u64,
}

/// A path with every `\` turned into `/`, as glob patterns are written.
pub fn path_for_glob(p: &str) -> (r: String)
    ensures
        r@ == replace_char(p@, '\\', '/'),
{
    replace_char_str(p, '\\', '/')
}

/// The path that exclusion globs are matched against for an entry: the root
/// itself when `rel` is empty, otherwise `root/rel`.
pub fn glob_candidate_path(root_norm: &str, rel: &str) -> (r: String)
    ensures
        rel@.len() == 0 ==> r@ == root_norm@,
        rel@.len() > 0 ==> r@ == root_norm@ + seq!['/'] + rel@,
{
    let mut r = String::from_str(root_norm);
    if !rel.is_empty() {
        push_char(&mut r, '/');
        r.append(rel);
    }
    r
}

#[verifier::external_type_specification]
#[verifier::external_body]
pub struct ExGlobSet(globset::GlobSet);

/// Whether `globset::Glob::new` accepts `pattern`.
pub uninterp spec fn glob_is_valid(pattern: Seq<char>) -> bool;

/// Whether the glob `pattern` (default options) matches `path`.
pub uninterp spec fn glob_matches(pattern: Seq<char>, path: Seq<char>) -> bool;

/// The patterns a `GlobSet` was built from, in order.
pub uninterp spec fn globset_patterns(set: globset::GlobSet) -> Seq<Seq<char>>;

/// `globset::Glob::new(pattern)`: `None` when the pattern parses, otherwise the
/// error's message. The message text is left unsaid.
#[verifier::external_body]
fn glob_parse_error(pattern: &str) -> (r: Option<String>)
    ensures
        r is None <==> glob_is_valid(pattern@),
{
    match globset::Glob::new(pattern) {
        Ok(_) => None,
        Err(e) => Some(e.to_string()),
    }
}

/// Whether `globset::GlobSet::new` builds the combined matcher of the (valid)
/// `patterns`; it fails only when a compiled matcher exceeds its size limit.
pub uninterp spec fn globset_builds(patterns: Seq<Seq<char>>) -> bool;

/// `globset::GlobSet::new` over `Glob::new` of each pattern. A set comes back
/// exactly when every pattern parses and the combined matcher builds; it holds the
/// patterns in order.
#[verifier::external_body]
fn compile_globset(patterns: &Vec<String>) -> (r: Option<globset::GlobSet>)
    ensures
        r is Some <==> ((forall|i: int| 0 <= i < patterns.len() ==> glob_is_valid(#[trigger] patterns@[i]@)) && globset_builds(views(patterns@))),
        r matches Some(set) ==> globset_patterns(set) == views(patterns@),
{
    let globs = patterns.iter().map(|p| globset::Glob::new(p)).collect::<Result<Vec<_>, _>>();
    globs.and_then(|g| globset::GlobSet::new(g)).ok()
}

/// Whether any pattern of `set` matches `path` (`GlobSet::is_match`).
pub open spec fn set_matches(set: globset::GlobSet, path: Seq<char>) -> bool {
    exists|i: int|
        0 <= i < globset_patterns(set).len() && glob_matches(
            #[trigger] globset_patterns(set)[i],
            path,
        )
}

/// `GlobSet::is_match`: true if any glob in the set matches the path.
#[verifier::external_body]
pub(crate) fn globset_is_match(set: &globset::GlobSet, path: &str) -> (r: bool)
    ensures
        r == (exists|i: int| 0 <= i < globset_patterns(*set).len() && glob_matches(globset_patterns(*set)[i], path@)),
{
    set.is_match(path)
}

/// Why exclusion globs could not be used.
#[derive(Debug, Clone)]
pub enum GlobError {
    /// `pattern` does not parse; `reason` is the parser's message.
    Invalid { pattern: String, reason: String },
    /// The patterns parse but the combined matcher could not be built (too large).
    Build,
}

/// Index of the first pattern that does not parse, with its message.
fn first_invalid_glob(patterns: &Vec<String>) -> (r: Option<(usize, String)>)
    ensures
        r is None <==> forall|i: int| 0 <= i < patterns.len() ==> glob_is_valid(
            #[trigger] patterns@[i]@,
        ),
        r matches Some(p) ==> p.0 < patterns.len() && !glob_is_valid(patterns@[p.0 as int]@)
            && forall|i: int| 0 <= i < p.0 ==> glob_is_valid(#[trigger] patterns@[i]@),
{
    let mut i: usize = 0;
    while i < patterns.len()
        invariant
            i <= patterns.len(),
            forall|k: int| 0 <= k < i ==> glob_is_valid(#[trigger] patterns@[k]@),
        decreases patterns.len() - i,
    {
        match glob_parse_error(patterns[i].as_str()) {
            Some(reason) => {
                return Some((i, reason));
            },
            None => {},
        }
        i = i + 1;
    }
    None
}

/// Check that every pattern parses; the error names the first one that does not.
pub fn validate_globs(patterns: &Vec<String>) -> (r: Result<(), GlobError>)
    ensures
        r is Ok <==> forall|i: int| 0 <= i < patterns.len() ==> glob_is_valid(
            #[trigger] patterns@[i]@,
        ),
        r matches Err(e) ==> (e matches GlobError::Invalid { pattern, .. } && exists|i: int|
            0 <= i < patterns.len() && patterns@[i]@ == pattern@ && !glob_is_valid(pattern@)
                && forall|k: int| 0 <= k < i ==> glob_is_valid(#[trigger] patterns@[k]@)),
{
    match first_invalid_glob(patterns) {
        None => Ok(()),
        Some((i, reason)) => {
            let pattern = patterns[i].clone();
            Err(GlobError::Invalid { pattern, reason })
        },
    }
}

/// Build the exclusion matcher; fails on the first pattern that does not parse, or
/// when the combined matcher cannot be built.
pub fn build_globset(patterns: &Vec<String>) -> (r: Result<globset::GlobSet, GlobError>)
    ensures
        ((forall|i: int| 0 <= i < patterns.len() ==> glob_is_valid(#[trigger] patterns@[i]@))
            && globset_builds(views(patterns@))) ==> r is Ok,
        r matches Err(GlobError::Build) ==> ((forall|i: int| 0 <= i < patterns.len() ==> glob_is_valid(#[trigger] patterns@[i]@))
            && !globset_builds(views(patterns@))),
        r matches Ok(set) ==> globset_patterns(set) == views(patterns@) && forall|i: int|
            0 <= i < patterns.len() ==> glob_is_valid(#[trigger] patterns@[i]@),
        (exists|i: int| 0 <= i < patterns.len() && !glob_is_valid(#[trigger] patterns@[i]@))
            ==> (r matches Err(e) && e matches GlobError::Invalid { pattern, .. } && exists|i: int|
            0 <= i < patterns.len() && patterns@[i]@ == pattern@ && !glob_is_valid(pattern@)
                && forall|k: int| 0 <= k < i ==> glob_is_valid(#[trigger] patterns@[k]@)),
{
    match validate_globs(patterns) {
        Err(e) => Err(e),
        Ok(()) => match compile_globset(patterns) {
            Some(set) => Ok(set),
            None => Err(GlobError::Build),
        },
    }
}

/// Whether the walk skips the entry at `rel` under the normalized root.
pub fn is_excluded(set: &globset::GlobSet, root_norm: &str, rel: &str) -> (r: bool)
    ensures
        rel@.len() == 0 ==> r == set_matches(*set, root_norm@),
        rel@.len() > 0 ==> r == set_matches(*set, root_norm@ + seq!['/'] + rel@),
{
    let candidate = glob_candidate_path(root_norm, rel);
    globset_is_match(set, candidate.as_str())
}

/// Files collected by a walk between flushes, with the walk's counts. Besides the
/// pending batch it keeps, as ghost state, every file found so far and every file
/// already handed out, in order.
pub struct WalkBatcher {
    batch: Vec<ScannedFile>,
    batch_max: usize,
    summary: WalkSummary,
    found: Ghost<Seq<ScannedFile>>,
    handed_out: Ghost<Seq<ScannedFile>>,
}

impl WalkBatcher {
    /// Files found and not yet handed out, in order.
    pub closed spec fn pending(&self) -> Seq<ScannedFile> {
        self.batch@
    }

    /// Every file found so far, in order.
    pub closed spec fn found(&self) -> Seq<ScannedFile> {
        self.found@
    }

    /// Every file handed out in a full batch so far, in order.
    pub closed spec fn handed_out(&self) -> Seq<ScannedFile> {
        self.handed_out@
    }

    /// The batch size at which files are handed out.
    pub closed spec fn max(&self) -> usize {
        self.batch_max
    }

    /// The walk's counts so far.
    pub closed spec fn counts(&self) -> WalkSummary {
        self.summary
    }

    /// The files handed out followed by the pending ones are exactly the files
    /// found; `seen` counts them; a pending batch is never full.
    pub closed spec fn wf(&self) -> bool {
        &&& self.handed_out@ + self.batch@ == self.found@
        &&& self.summary.seen == self.found@.len()
        &&& (self.batch.len() == 0 || self.batch.len() < self.batch_max)
    }

    /// A walk about to start: nothing found, completed until cancelled.
    pub fn new(batch_max: usize) -> (w: WalkBatcher)
        ensures
            w.wf(),
            w.found().len() == 0,
            w.handed_out().len() == 0,
            w.pending().len() == 0,
            w.max() == batch_max,
            w.counts() == (WalkSummary { seen: 0, completed: true, walk_errors: 0, metadata_errors: 0 }),
    {
        let w = WalkBatcher {
            batch: Vec::new(),
            batch_max,
            summary: WalkSummary { seen: 0, completed: true, walk_errors: 0, metadata_errors: 0 },
            found: Ghost(Seq::empty()),
            handed_out: Ghost(Seq::empty()),
        };
        assert(w.handed_out@ + w.batch@ =~= w.found@);
        w
    }

    /// Number of files found and not yet handed out.
    pub fn pending_len(&self) -> (n: usize)
        ensures
            n == self.pending().len(),
    {
        self.batch.len()
    }

    /// The walk's counts so far.
    pub fn summary(&self) -> (r: WalkSummary)
        ensures
            r == self.counts(),
    {
        self.summary
    }

    /// Cancellation was observed: the walk will not complete.
    pub fn mark_cancelled(&mut self)
        requires
            old(self).wf(),
        ensures
            final(self).wf(),
            final(self).counts() == (WalkSummary { completed: false, ..old(self).counts() }),
            final(self).found() == old(self).found(),
            final(self).handed_out() == old(self).handed_out(),
            final(self).pending() == old(self).pending(),
            final(self).max() == old(self).max(),
    {
        self.summary.completed = false;
    }

    /// An entry could not be read.
    pub fn walk_error(&mut self)
        requires
            old(self).wf(),
            old(self).counts().walk_errors < u64::MAX,
        ensures
            final(self).wf(),
            final(self).counts() == (WalkSummary {
                walk_errors: (old(self).counts().walk_errors + 1) as u64,
                ..old(self).counts()
            }),
            final(self).found() == old(self).found(),
            final(self).handed_out() == old(self).handed_out(),
            final(self).pending() == old(self).pending(),
            final(self).max() == old(self).max(),
    {
        self.summary.walk_errors = self.summary.walk_errors + 1;
    }

    /// A file's metadata could not be read.
    pub fn metadata_error(&mut self)
        requires
            old(self).wf(),
            old(self).counts().metadata_errors < u64::MAX,
        ensures
            final(self).wf(),
            final(self).counts() == (WalkSummary {
                metadata_errors: (old(self).counts().metadata_errors + 1) as u64,
                ..old(self).counts()
            }),
            final(self).found() == old(self).found(),
            final(self).handed_out() == old(self).handed_out(),
            final(self).pending() == old(self).pending(),
            final(self).max() == old(self).max(),
    {
        self.summary.metadata_errors = self.summary.metadata_errors + 1;
    }

    /// A file was found. When the pending batch reaches `batch_max` files it is
    /// handed out (to be written) and a new one is started.
    pub fn add_file(&mut self, f: ScannedFile) -> (full: Option<Vec<ScannedFile>>)
        requires
            old(self).wf(),
            old(self).counts().seen < u64::MAX,
        ensures
            final(self).wf(),
            final(self).found() == old(self).found().push(f),
            final(self).counts() == (WalkSummary {
                seen: (old(self).counts().seen + 1) as u64,
                ..old(self).counts()
            }),
            final(self).max() == old(self).max(),
            full is Some <==> old(self).pending().len() + 1 >= old(self).max(),
            full matches Some(b) ==> ({
                &&& b@ == old(self).pending().push(f)
                &&& b@.len() == if old(self).max() == 0 {
                    1
                } else {
                    old(self).max() as int
                }
                &&& final(self).handed_out() == old(self).handed_out() + b@
                &&& final(self).pending().len() == 0
            }),
            full is None ==> ({
                &&& final(self).pending() == old(self).pending().push(f)
                &&& final(self).handed_out() == old(self).handed_out()
            }),
    {
        let ghost fv = f;
        let ghost before = self.batch@;
        self.batch.push(f);
        self.summary.seen = self.summary.seen + 1;
        self.found = Ghost(self.found@.push(fv));
        if self.batch.len() >= self.batch_max {
            let mut full: Vec<ScannedFile> = Vec::new();
            std::mem::swap(&mut full, &mut self.batch);
            self.handed_out = Ghost(self.handed_out@ + full@);
            assert(self.handed_out@ + self.batch@ =~= self.found@);
            Some(full)
        } else {
            assert(self.handed_out@ + self.batch@ =~= self.found@);
            None
        }
    }

    /// The walk ended. When it completed, the files still pending are handed out
    /// (if any), so that every file found has been handed out exactly once, in the
    /// order found; after a cancellation the pending files are dropped.
    pub fn finish(self) -> (r: (Option<Vec<ScannedFile>>, WalkSummary))
        requires
            self.wf(),
        ensures
            r.1 == self.counts(),
            (self.pending().len() > 0 && self.counts().completed) ==> (r.0 matches Some(b) && b@
                == self.pending()),
            !(self.pending().len() > 0 && self.counts().completed) ==> r.0 is None,
            r.0 matches Some(b) ==> b@.len() < self.max(),
            self.counts().completed ==> self.handed_out() + (match r.0 {
                Some(b) => b@,
                None => Seq::empty(),
            }) == self.found(),
    {
        let WalkBatcher { batch, batch_max: _, summary, found: _, handed_out: _ } = self;
        if batch.len() > 0 && summary.completed {
            (Some(batch), summary)
        } else {
            assert(batch.len() == 0 || !summary.completed);
            proof {
                if summary.completed {
                    assert(self.handed_out() + Seq::<ScannedFile>::empty() =~= self.found());
                }
            }
            (None, summary)
        }
    }
}

} // verus!
