//! The stored form of the settings (`config.json`) and its conversions.

use vstd::prelude::*;

use crate::content_extract::views;
use crate::dto::{
    default_content_max_bytes_per_file, default_theme, default_vessel_name, AppSettings,
    RootConfig,
};
use crate::text::{trim, trim_str};

verus! {

/// The settings file as stored on disk.
#[derive(Debug, Clone)]
pub struct ConfigFile {
    pub roots: Vec<RootConfig>,
    pub exclusion_globs: Vec<String>,
    pub batch_size: usize,
    pub vessel_name: String,
    pub onboarding_completed: bool,
    pub theme: String,
    pub content_indexing_enabled: bool,
    pub content_index_extensions: Vec<String>,
    pub content_max_bytes_per_file: u32,
}

/// Default scan batch size.
pub fn default_batch() -> (r: usize)
    ensures
        r == 2000,
{
    2000
}

/// The exclusion globs used when none are configured.
pub open spec fn default_exclusions_spec() -> Seq<Seq<char>> {
    seq!["**/node_modules/**"@, "**/.git/**"@, "**/target/**"@]
}

/// The exclusion globs used when none are configured.
pub fn default_exclusions() -> (r: Vec<String>)
    ensures
        views(r@) == default_exclusions_spec(),
{
    let mut r: Vec<String> = Vec::new();
    r.push(String::from_str("**/node_modules/**"));
    r.push(String::from_str("**/.git/**"));
    r.push(String::from_str("**/target/**"));
    assert(views(r@) =~= default_exclusions_spec());
    r
}

impl Default for ConfigFile {
    /// A fresh install: no roots, the default exclusions, onboarding not done.
    fn default() -> (c: ConfigFile)
        ensures
            c.roots.len() == 0,
            views(c.exclusion_globs@) == default_exclusions_spec(),
            c.batch_size == 2000,
            c.vessel_name@ == "Vessel"@,
            c.onboarding_completed == false,
            c.theme@ == "dark"@,
            c.content_indexing_enabled == false,
            c.content_index_extensions.len() == 0,
            c.content_max_bytes_per_file == 10 * 1024 * 1024,
    {
        ConfigFile {
            roots: Vec::new(),
            exclusion_globs: default_exclusions(),
            batch_size: default_batch(),
            vessel_name: default_vessel_name(),
            onboarding_completed: false,
            theme: default_theme(),
            content_indexing_enabled: false,
            content_index_extensions: Vec::new(),
            content_max_bytes_per_file: default_content_max_bytes_per_file(),
        }
    }
}

/// `s` is what reading the stored file `c` gives: a blank vessel name becomes the
/// default, an empty glob list becomes the default globs, the rest is kept.
pub open spec fn settings_read_from(s: AppSettings, c: ConfigFile) -> bool {
    &&& s.vessel_name@ == if trim(c.vessel_name@).len() == 0 {
        "Vessel"@
    } else {
        trim(c.vessel_name@)
    }
    &&& views(s.exclusion_globs@) == if c.exclusion_globs.len() == 0 {
        default_exclusions_spec()
    } else {
        views(c.exclusion_globs@)
    }
    &&& s.roots == c.roots
    &&& s.batch_size == c.batch_size
    &&& s.onboarding_completed == c.onboarding_completed
    &&& s.theme == c.theme
    &&& s.content_indexing_enabled == c.content_indexing_enabled
    &&& s.content_index_extensions == c.content_index_extensions
    &&& s.content_max_bytes_per_file == c.content_max_bytes_per_file
}

/// `c` is what writing `s` stores: every field as it is.
pub open spec fn config_written_from(c: ConfigFile, s: AppSettings) -> bool {
    &&& c.roots == s.roots
    &&& c.exclusion_globs == s.exclusion_globs
    &&& c.batch_size == s.batch_size
    &&& c.vessel_name == s.vessel_name
    &&& c.onboarding_completed == s.onboarding_completed
    &&& c.theme == s.theme
    &&& c.content_indexing_enabled == s.content_indexing_enabled
    &&& c.content_index_extensions == s.content_index_extensions
    &&& c.content_max_bytes_per_file == s.content_max_bytes_per_file
}

impl AppSettings {
    /// The settings that a stored file describes.
    pub fn from_config(c: ConfigFile) -> (s: AppSettings)
        ensures
            settings_read_from(s, c),
    {
        let t = trim_str(c.vessel_name.as_str());
        let vessel_name = if t.as_str().is_empty() {
            default_vessel_name()
        } else {
            t
        };
        let exclusion_globs = if c.exclusion_globs.len() == 0 {
            default_exclusions()
        } else {
            c.exclusion_globs
        };
        AppSettings {
            roots: c.roots,
            exclusion_globs,
            batch_size: c.batch_size,
            vessel_name,
            onboarding_completed: c.onboarding_completed,
            theme: c.theme,
            content_indexing_enabled: c.content_indexing_enabled,
            content_index_extensions: c.content_index_extensions,
            content_max_bytes_per_file: c.content_max_bytes_per_file,
        }
    }
}

impl ConfigFile {
    /// The stored form of `s`.
    pub fn from_settings(s: AppSettings) -> (c: ConfigFile)
        ensures
            config_written_from(c, s),
    {
        ConfigFile {
            roots: s.roots,
            exclusion_globs: s.exclusion_globs,
            batch_size: s.batch_size,
            vessel_name: s.vessel_name,
            onboarding_completed: s.onboarding_completed,
            theme: s.theme,
            content_indexing_enabled: s.content_indexing_enabled,
            content_index_extensions: s.content_index_extensions,
            content_max_bytes_per_file: s.content_max_bytes_per_file,
        }
    }
}

/// Saving settings and reading them back gives the same settings, when the vessel
/// name is trimmed and not empty and at least one exclusion glob is set (otherwise
/// reading fills in the defaults).
pub proof fn save_then_load_gives_back(s: AppSettings, c: ConfigFile, s2: AppSettings)
    requires
        trim(s.vessel_name@) == s.vessel_name@,
        s.vessel_name@.len() > 0,
        s.exclusion_globs.len() > 0,
        config_written_from(c, s),
        settings_read_from(s2, c),
    ensures
        s2.vessel_name@ == s.vessel_name@,
        views(s2.exclusion_globs@) == views(s.exclusion_globs@),
        s2.roots == s.roots,
        s2.batch_size == s.batch_size,
        s2.onboarding_completed == s.onboarding_completed,
        s2.theme == s.theme,
        s2.content_indexing_enabled == s.content_indexing_enabled,
        s2.content_index_extensions == s.content_index_extensions,
        s2.content_max_bytes_per_file == s.content_max_bytes_per_file,
{
}

/// Reading a stored file, writing the settings back, and reading again gives what
/// the first read gave: after one read the stored form is stable.
pub proof fn load_save_load_is_stable(c: ConfigFile, s: AppSettings, c2: ConfigFile, s2: AppSettings)
    requires
        settings_read_from(s, c),
        config_written_from(c2, s),
        settings_read_from(s2, c2),
    ensures
        s2.vessel_name@ == s.vessel_name@,
        views(s2.exclusion_globs@) == views(s.exclusion_globs@),
        s2.roots == s.roots,
        s2.batch_size == s.batch_size,
        s2.onboarding_completed == s.onboarding_completed,
        s2.theme == s.theme,
        s2.content_indexing_enabled == s.content_indexing_enabled,
        s2.content_index_extensions == s.content_index_extensions,
        s2.content_max_bytes_per_file == s.content_max_bytes_per_file,
{
    crate::text::lemma_trim_is_trimmed(c.vessel_name@);
    crate::text::lemma_trim_idempotent(c.vessel_name@);
    reveal_strlit("Vessel");
    assert(crate::text::is_trimmed("Vessel"@));
    crate::text::lemma_trim_of_trimmed("Vessel"@);
    if c.exclusion_globs.len() == 0 {
        reveal_strlit("**/node_modules/**");
        assert(views(s.exclusion_globs@).len() == 3);
        assert(s.exclusion_globs@.len() == 3);
    }
}

} // verus!
