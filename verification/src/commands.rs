//! Decisions behind the user-facing commands: validating settings on save,
//! checking that a scan may start, and composing the indexing status.

use vstd::prelude::*;

use crate::content_extract::{str_eq, views};
use crate::dto::{AppSettings, IndexingStatus, JobProgress, RootConfig};
use crate::path_norm::{normalize_app_settings, normalized_root_path, settings_normalized_from};
use crate::scan::{glob_is_valid, validate_globs, GlobError};
use crate::text::{chars_of, has_prefix, starts_with_chars, trim, trim_str};

verus! {

/// Why settings were refused on save.
#[derive(Debug, Clone)]
pub enum SettingsError {
    /// The vessel name is blank.
    EmptyVesselName,
    /// The vessel name has more than 120 characters.
    VesselNameTooLong,
    /// The batch size is outside 200..=20000.
    BatchSizeOutOfRange,
    /// A root path is blank.
    EmptyRootPath,
    /// An exclusion glob does not parse.
    InvalidGlob { pattern: String, reason: String },
    /// The theme is neither `light` nor `dark`.
    InvalidTheme,
}

/// Smallest accepted read cap per file: 256 KiB.
pub const MIN_CONTENT_BYTES: u32 = 256 * 1024;

/// Largest accepted read cap per file: 100 MiB.
pub const MAX_CONTENT_BYTES: u32 = 100 * 1024 * 1024;

/// Which check refuses `s` first (1 to 6, in the order the checks run), or 0.
pub open spec fn save_check(s: AppSettings) -> int {
    let name = trim(s.vessel_name@);
    if name.len() == 0 {
        1
    } else if name.len() > 120 {
        2
    } else if s.batch_size < 200 || s.batch_size > 20_000 {
        3
    } else if exists|i: int|
        0 <= i < s.roots.len() && trim(normalized_root_path((#[trigger] s.roots@[i]).path@)).len()
            == 0 {
        4
    } else if exists|i: int|
        0 <= i < s.exclusion_globs.len() && !glob_is_valid(#[trigger] s.exclusion_globs@[i]@) {
        5
    } else if trim(s.theme@) != "light"@ && trim(s.theme@) != "dark"@ {
        6
    } else {
        0
    }
}

/// The check, numbered as in `save_check`, that refuses with `e`.
pub open spec fn settings_error_check(e: SettingsError) -> int {
    match e {
        SettingsError::EmptyVesselName => 1,
        SettingsError::VesselNameTooLong => 2,
        SettingsError::BatchSizeOutOfRange => 3,
        SettingsError::EmptyRootPath => 4,
        SettingsError::InvalidGlob { .. } => 5,
        SettingsError::InvalidTheme => 6,
    }
}

/// `x` clamped to `lo..=hi`.
pub open spec fn clamp(x: int, lo: int, hi: int) -> int {
    if x < lo {
        lo
    } else if x > hi {
        hi
    } else {
        x
    }
}

/// Normalize and check settings before they are saved. On success the theme is
/// trimmed and the read cap clamped to 256 KiB..=100 MiB.
pub fn prepare_settings_for_save(input: AppSettings) -> (r: Result<AppSettings, SettingsError>)
    ensures
        save_check(input) == 0 <==> r is Ok,
        r matches Err(e) ==> settings_error_check(e) == save_check(input),
        r matches Err(e) ==> (e matches SettingsError::InvalidGlob { pattern, .. } ==> exists|i: int|
            0 <= i < input.exclusion_globs.len() && input.exclusion_globs@[i]@ == pattern@
                && !glob_is_valid(pattern@) && forall|k: int|
                0 <= k < i ==> glob_is_valid(#[trigger] input.exclusion_globs@[k]@)),
        r matches Ok(s) ==> ({
            &&& s.vessel_name@ == trim(input.vessel_name@)
            &&& s.roots.len() == input.roots.len()
            &&& forall|i: int|
                0 <= i < input.roots.len() ==> {
                    &&& (#[trigger] s.roots@[i]).path@ == normalized_root_path(
                        input.roots@[i].path@,
                    )
                    &&& s.roots@[i].display_name == input.roots@[i].display_name
                    &&& s.roots@[i].enabled == input.roots@[i].enabled
                    &&& s.roots@[i].read_only == input.roots@[i].read_only
                }
            &&& s.exclusion_globs == input.exclusion_globs
            &&& s.batch_size == input.batch_size
            &&& s.onboarding_completed == input.onboarding_completed
            &&& s.theme@ == trim(input.theme@)
            &&& s.content_indexing_enabled == input.content_indexing_enabled
            &&& s.content_index_extensions == input.content_index_extensions
            &&& s.content_max_bytes_per_file == clamp(
                input.content_max_bytes_per_file as int,
                MIN_CONTENT_BYTES as int,
                MAX_CONTENT_BYTES as int,
            )
        }),
{
    let ghost orig = input;
    let mut settings = input;
    normalize_app_settings(&mut settings);
    assert(settings_normalized_from(settings, orig));
    let name = chars_of(settings.vessel_name.as_str());
    proof {
        crate::text::lemma_trim_idempotent(orig.vessel_name@);
    }
    let name_trimmed = trim_str(settings.vessel_name.as_str());
    if name_trimmed.as_str().is_empty() {
        return Err(SettingsError::EmptyVesselName);
    }
    if name.len() > 120 {
        return Err(SettingsError::VesselNameTooLong);
    }
    if settings.batch_size < 200 || settings.batch_size > 20_000 {
        return Err(SettingsError::BatchSizeOutOfRange);
    }
    let mut i: usize = 0;
    while i < settings.roots.len()
        invariant
            i <= settings.roots.len(),
            settings_normalized_from(settings, orig),
            orig == input,
            trim(orig.vessel_name@).len() > 0,
            trim(orig.vessel_name@).len() <= 120,
            200 <= orig.batch_size <= 20_000,
            forall|k: int|
                0 <= k < i ==> trim((#[trigger] settings.roots@[k]).path@).len() > 0,
        decreases settings.roots.len() - i,
    {
        let t = trim_str(settings.roots[i].path.as_str());
        if t.as_str().is_empty() {
            assert(settings.roots@[i as int].path@ == normalized_root_path(orig.roots@[i as int].path@));
            assert(trim(normalized_root_path(orig.roots@[i as int].path@)).len() == 0);
            assert(save_check(orig) == 4);
            return Err(SettingsError::EmptyRootPath);
        }
        i = i + 1;
    }
    assert(!exists|i: int|
        0 <= i < orig.roots.len() && trim(normalized_root_path((#[trigger] orig.roots@[i]).path@)).len()
            == 0) by {
        assert forall|i: int| 0 <= i < orig.roots.len() implies trim(
            normalized_root_path((#[trigger] orig.roots@[i]).path@),
        ).len() > 0 by {
            assert(settings.roots@[i].path@ == normalized_root_path(orig.roots@[i].path@));
        }
    }
    match validate_globs(&settings.exclusion_globs) {
        Ok(()) => {},
        Err(e) => {
            let (pattern, reason) = match e {
                GlobError::Invalid { pattern, reason } => (pattern, reason),
                GlobError::Build => {
                    assert(false);
                    (String::new(), String::new())
                },
            };
            return Err(SettingsError::InvalidGlob { pattern, reason });
        },
    }
    let th = trim_str(settings.theme.as_str());
    proof {
        reveal_strlit("light");
        reveal_strlit("dark");
    }
    if !str_eq(th.as_str(), "light") && !str_eq(th.as_str(), "dark") {
        return Err(SettingsError::InvalidTheme);
    }
    settings.theme = th;
    let c = settings.content_max_bytes_per_file;
    settings.content_max_bytes_per_file = if c < MIN_CONTENT_BYTES {
        MIN_CONTENT_BYTES
    } else if c > MAX_CONTENT_BYTES {
        MAX_CONTENT_BYTES
    } else {
        c
    };
    Ok(settings)
}

/// Stored file text must be cleared when the content-indexing switch changes (or
/// no earlier setting could be read).
pub fn content_reset_needed(previous: Option<bool>, now: bool) -> (r: bool)
    ensures
        r == (previous != Some(now)),
{
    match previous {
        Some(p) => p != now,
        None => true,
    }
}

/// Why a scan cannot start.
#[derive(Debug, Clone)]
pub enum StartScanError {
    /// A scan is already queued or running.
    AlreadyRunning,
    /// Settings list enabled folders but none are stored yet (settings not saved).
    RootsNotSaved,
    /// No indexed folder is enabled.
    NoEnabledRoots,
    /// The folder at `path` does not exist or cannot be read.
    Inaccessible { path: String },
}

/// Whether a configured root counts as enabled: enabled and with a non-blank path.
pub open spec fn counts_as_enabled(r: RootConfig) -> bool {
    r.enabled && trim(r.path@).len() > 0
}

/// Number of configured roots that count as enabled among the first `n`.
pub open spec fn enabled_count(roots: Seq<RootConfig>, n: int) -> nat
    decreases n,
{
    if n <= 0 {
        0
    } else {
        enabled_count(roots, n - 1) + if counts_as_enabled(roots[n - 1]) {
            1nat
        } else {
            0nat
        }
    }
}

/// Number of configured roots that are enabled and have a non-blank path.
pub fn count_enabled_roots(roots: &Vec<RootConfig>) -> (n: usize)
    ensures
        n == enabled_count(roots@, roots.len() as int),
{
    let mut n: usize = 0;
    let mut i: usize = 0;
    while i < roots.len()
        invariant
            i <= roots.len(),
            n == enabled_count(roots@, i as int),
            n <= i,
        decreases roots.len() - i,
    {
        if roots[i].enabled && !trim_str(roots[i].path.as_str()).as_str().is_empty() {
            n = n + 1;
        }
        i = i + 1;
    }
    n
}

/// The checks before a scan is enqueued that need no disk access: no scan may be
/// running, and the stored enabled roots must not be empty.
pub fn check_start_scan(
    has_active_scan: bool,
    settings_roots: &Vec<RootConfig>,
    stored_enabled_roots: usize,
) -> (r: Result<(), StartScanError>)
    ensures
        has_active_scan ==> r matches Err(StartScanError::AlreadyRunning),
        !has_active_scan && stored_enabled_roots == 0 && enabled_count(
            settings_roots@,
            settings_roots.len() as int,
        ) > 0 ==> r matches Err(StartScanError::RootsNotSaved),
        !has_active_scan && stored_enabled_roots == 0 && enabled_count(
            settings_roots@,
            settings_roots.len() as int,
        ) == 0 ==> r matches Err(StartScanError::NoEnabledRoots),
        !has_active_scan && stored_enabled_roots > 0 ==> r is Ok,
{
    if has_active_scan {
        return Err(StartScanError::AlreadyRunning);
    }
    if stored_enabled_roots == 0 {
        if count_enabled_roots(settings_roots) > 0 {
            return Err(StartScanError::RootsNotSaved);
        }
        return Err(StartScanError::NoEnabledRoots);
    }
    Ok(())
}

/// The stored root paths as they are checked for access before a scan: normalized.
pub fn roots_to_probe(paths: &Vec<String>) -> (r: Vec<String>)
    ensures
        r.len() == paths.len(),
        forall|i: int| 0 <= i < paths.len() ==> (#[trigger] r@[i])@ == normalized_root_path(paths@[i]@),
{
    let mut r: Vec<String> = Vec::new();
    let mut i: usize = 0;
    while i < paths.len()
        invariant
            i <= paths.len(),
            r.len() == i,
            forall|k: int| 0 <= k < i ==> (#[trigger] r@[k])@ == normalized_root_path(paths@[k]@),
        decreases paths.len() - i,
    {
        r.push(crate::path_norm::normalize_root_path(paths[i].as_str()));
        i = i + 1;
    }
    r
}

/// The indexing status shown to the user: `scanning` with the running job's
/// progress while a scan is active; otherwise `error` after a failed scan and
/// `idle` after any other outcome, with the last error.
pub fn indexing_status(
    content_indexing_enabled: bool,
    files_indexed: i64,
    last_scan_at: Option<String>,
    last_scan_status: String,
    last_scan_error: Option<String>,
    snapshot: Option<(String, JobProgress)>,
) -> (st: IndexingStatus)
    ensures
        st.files_indexed == files_indexed,
        st.content_indexing_enabled == content_indexing_enabled,
        st.last_scan_at == last_scan_at,
        st.last_scan_status == last_scan_status,
        snapshot matches Some(s) ==> ({
            &&& st.state@ == "scanning"@
            &&& st.progress == Some(s.1)
            &&& st.last_error is None
            &&& st.active_job_id == Some(s.0)
        }),
        snapshot is None ==> ({
            &&& st.state@ == if last_scan_status@ == "failed"@ {
                "error"@
            } else {
                "idle"@
            }
            &&& st.progress is None
            &&& st.last_error == last_scan_error
            &&& st.active_job_id is None
        }),
{
    match snapshot {
        Some((job_id, progress)) => IndexingStatus {
            state: String::from_str("scanning"),
            progress: Some(progress),
            last_scan_at,
            last_scan_status,
            last_error: None,
            files_indexed,
            active_job_id: Some(job_id),
            content_indexing_enabled,
        },
        None => {
            proof {
                reveal_strlit("failed");
            }
            let failed = str_eq(last_scan_status.as_str(), "failed");
            let state = if failed {
                String::from_str("error")
            } else {
                String::from_str("idle")
            };
            IndexingStatus {
                state,
                progress: None,
                last_scan_at,
                last_scan_status,
                last_error: last_scan_error,
                files_indexed,
                active_job_id: None,
                content_indexing_enabled,
            }
        },
    }
}

/// The path of a file to open or reveal, trimmed; `None` when it is blank.
pub fn requested_file_path(path: &str) -> (r: Option<String>)
    ensures
        trim(path@).len() == 0 ==> r is None,
        trim(path@).len() > 0 ==> (r matches Some(p) && p@ == trim(path@)),
{
    let t = trim_str(path);
    if t.as_str().is_empty() {
        None
    } else {
        Some(t)
    }
}


/// A path separator on either platform.
pub open spec fn is_sep(c: char) -> bool {
    c == '/' || c == '\\'
}

/// `p` is the root folder `root` itself or lies below it.
pub open spec fn within_root(p: Seq<char>, root: Seq<char>) -> bool {
    &&& root.len() > 0
    &&& has_prefix(p, root)
    &&& (p.len() == root.len() || is_sep(root.last()) || is_sep(p[root.len() as int]))
}

/// Whether `path` is `root` or below it.
pub fn is_within_root(path: &str, root: &str) -> (r: bool)
    ensures
        r == within_root(path@, root@),
{
    let p = chars_of(path);
    let rv = chars_of(root);
    if rv.len() == 0 || !starts_with_chars(&p, root) {
        return false;
    }
    if p.len() == rv.len() {
        return true;
    }
    let last = rv[rv.len() - 1];
    let next = p[rv.len()];
    last == '/' || last == '\\' || next == '/' || next == '\\'
}

/// Whether `path` lies in one of the `roots`: open and reveal act only on such files.
pub fn is_within_roots(path: &str, roots: &Vec<String>) -> (r: bool)
    ensures
        r == exists|i: int| 0 <= i < roots.len() && within_root(path@, (#[trigger] roots@[i])@),
{
    let mut i: usize = 0;
    while i < roots.len()
        invariant
            i <= roots.len(),
            forall|k: int| 0 <= k < i ==> !within_root(path@, (#[trigger] roots@[k])@),
        decreases roots.len() - i,
    {
        if is_within_root(path, roots[i].as_str()) {
            return true;
        }
        i = i + 1;
    }
    false
}

} // verus!
