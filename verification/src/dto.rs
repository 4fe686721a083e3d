//! Plain data carried between the library and the application shell.

use vstd::prelude::*;

verus! {

/// One indexed folder as configured by the user.
#[derive(Debug, Clone)]
pub struct RootConfig {
    pub path: String,
    pub display_name: Option<String>,
    pub enabled: bool,
    /// When true, file actions should not create, upload or delete under this root.
    pub read_only: bool,
}

/// User settings as shown in the settings screen.
#[derive(Debug, Clone)]
pub struct AppSettings {
    pub roots: Vec<RootConfig>,
    pub exclusion_globs: Vec<String>,
    pub batch_size: usize,
    /// Display name for this install (sidebar branding).
    pub vessel_name: String,
    /// When false, the app shows first-run setup.
    pub onboarding_completed: bool,
    /// UI theme: `light` or `dark`.
    pub theme: String,
    /// When true, scans read text from supported file types into the index.
    pub content_indexing_enabled: bool,
    /// If empty, built-in defaults apply; otherwise only these extensions.
    pub content_index_extensions: Vec<String>,
    /// Max bytes read from disk per file for body extraction.
    pub content_max_bytes_per_file: u32,
}

/// Progress of a running scan.
#[derive(Debug, Clone)]
pub struct JobProgress {
    pub phase: String,
    pub files_seen: u64,
    pub files_upserted: u64,
    /// Files removed from the index during a scan (paths no longer on disk).
    pub files_deleted: u64,
    pub current_path: Option<String>,
    pub roots_total: u32,
    pub roots_done: u32,
    /// Whether the active run is indexing file bodies.
    pub content_indexing_enabled: bool,
}

/// Current indexing state for the UI: idle, scanning, or error.
#[derive(Debug, Clone)]
pub struct IndexingStatus {
    pub state: String,
    pub progress: Option<JobProgress>,
    pub last_scan_at: Option<String>,
    /// Last terminal outcome: `idle`, `completed`, `failed`, or `cancelled`.
    pub last_scan_status: String,
    pub last_error: Option<String>,
    /// Live count of indexed file rows.
    pub files_indexed: i64,
    pub active_job_id: Option<String>,
    /// Whether content (body) indexing is enabled for the next scan / search.
    pub content_indexing_enabled: bool,
}

/// One search result row.
#[derive(Debug, Clone)]
pub struct SearchHit {
    pub id: i64,
    pub path: String,
    /// Absolute path to the file (separators for the OS).
    pub full_path: String,
    pub size: i64,
    pub mtime_ns: i64,
    pub root_path: String,
}

/// Progress notification for a running job.
#[derive(Debug, Clone)]
pub struct JobProgressEvent {
    pub job_id: String,
    pub progress: JobProgress,
}

/// Notification that a job reached a terminal status (completed, failed, cancelled).
#[derive(Debug, Clone)]
pub struct JobTerminalEvent {
    pub job_id: String,
    pub status: String,
    pub progress: Option<JobProgress>,
}

/// Default of `RootConfig::read_only`.
pub fn default_root_read_only() -> (r: bool)
    ensures
        r == false,
{
    false
}

/// Default display name of an install.
pub fn default_vessel_name() -> (r: String)
    ensures
        r@ == "Vessel"@,
{
    String::from_str("Vessel")
}

/// Default of `AppSettings::onboarding_completed` when an older file lacks it.
pub fn default_onboarding_completed_true() -> (r: bool)
    ensures
        r == true,
{
    true
}

/// Default UI theme.
pub fn default_theme() -> (r: String)
    ensures
        r@ == "dark"@,
{
    String::from_str("dark")
}

/// Content indexing is off unless the user turns it on.
pub fn default_content_indexing_enabled() -> (r: bool)
    ensures
        r == false,
{
    false
}

/// Default read cap per file for body extraction: 10 MiB.
pub fn default_content_max_bytes_per_file() -> (r: u32)
    ensures
        r == 10 * 1024 * 1024,
{
    10 * 1024 * 1024
}

} // verus!
