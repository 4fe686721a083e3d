//! Trim and strip accidental wrapping quotes from user-entered paths.

use vstd::prelude::*;

use crate::dto::{AppSettings, RootConfig};
use crate::text::{
    chars_of, is_trimmed, replace_char, replace_char_str, lemma_trim_is_trimmed, lemma_trim_of_trimmed, string_from_chars, trim,
    trim_bounds, trim_str,
};

verus! {

/// `std::path::MAIN_SEPARATOR`: `/` on Unix, `\` on Windows.
#[verifier::external_body]
pub(crate) fn main_separator() -> (c: char)
    ensures
        c == '/' || c == '\\',
{
    std::path::MAIN_SEPARATOR
}

/// The case in which `Path::join` appends `rel` after one separator: `base` is
/// non-empty, starts with no backslash and ends with no separator or drive colon;
/// `rel` is non-empty, starts with no separator and holds no colon.
pub open spec fn plain_join_case(base: Seq<char>, rel: Seq<char>) -> bool {
    &&& base.len() > 0
    &&& base[0] != '\\'
    &&& base.last() != '/' && base.last() != '\\' && base.last() != ':'
    &&& rel.len() > 0
    &&& rel[0] != '/' && rel[0] != '\\'
    &&& !rel.contains(':')
}

/// `sep` is a separator, and in the plain case `r` is `base`, `sep`, `rel`.
pub open spec fn plain_join_with(base: Seq<char>, rel: Seq<char>, sep: char, r: Seq<char>) -> bool {
    &&& sep == '/' || sep == '\\'
    &&& plain_join_case(base, rel) ==> r == base + seq![sep] + rel
}

/// `Path::new(base).join(rel)`, rendered with `to_string_lossy`. Its contract states
/// only the plain case of `PathBuf::push`: a relative path is appended after one
/// separator (the platform's, `/` or `\`). Absolute, prefixed and verbatim paths
/// are left unsaid.
#[verifier::external_body]
fn path_join(base: &str, rel: &str) -> (r: String)
    ensures
        exists|sep: char| plain_join_with(base@, rel@, sep, r@),
{
    std::path::Path::new(base).join(rel).to_string_lossy().to_string()
}

/// What `join_root_rel` gives in the plain case, with `rel_sep` put in place of
/// `/` in `rel_path` and `join_sep` between the two parts.
pub open spec fn joined_root_rel(
    root: Seq<char>,
    rel_path: Seq<char>,
    rel_sep: char,
    join_sep: char,
    r: Seq<char>,
) -> bool {
    &&& rel_sep == '/' || rel_sep == '\\'
    &&& join_sep == '/' || join_sep == '\\'
    &&& plain_join_case(root, replace_char(rel_path, '/', rel_sep)) ==> r == root + seq![join_sep]
        + replace_char(rel_path, '/', rel_sep)
}

/// Absolute path string for the full-text `full_path` column and search display:
/// `root` joined with `rel_path` whose `/` are turned into the platform separator.
pub fn join_root_rel(root: &str, rel_path: &str) -> (r: String)
    ensures
        exists|rel_sep: char, join_sep: char| joined_root_rel(root@, rel_path@, rel_sep, join_sep, r@),
{
    let sep = main_separator();
    let rel = replace_char_str(rel_path, '/', sep);
    let r = path_join(root, rel.as_str());
    let ghost js = choose|js: char| plain_join_with(root@, rel@, js, r@);
    assert(joined_root_rel(root@, rel_path@, sep, js, r@));
    r
}

pub open spec fn is_quote(c: char) -> bool {
    c == '"' || c == '\''
}

/// Non-empty, at least two characters, and enclosed in a matching pair of quotes.
pub open spec fn is_quote_wrapped(t: Seq<char>) -> bool {
    t.len() >= 2 && is_quote(t[0]) && t[0] == t.last()
}

/// Up to `rounds` more rounds of trimming and unwrapping one pair of quotes.
pub open spec fn unwrap_rounds(t: Seq<char>, rounds: nat) -> Seq<char>
    decreases rounds,
{
    if rounds == 0 {
        t
    } else {
        let tr = trim(t);
        if tr.len() < 2 {
            tr
        } else if is_quote_wrapped(tr) {
            unwrap_rounds(trim(tr.subrange(1, tr.len() - 1)), (rounds - 1) as nat)
        } else {
            tr
        }
    }
}

/// What `normalize_root_path` returns: trimmed, with at most four layers of
/// matching quotes removed.
pub open spec fn normalized_root_path(s: Seq<char>) -> Seq<char> {
    unwrap_rounds(trim(s), 4)
}

proof fn lemma_unwrap_rounds_trimmed(t: Seq<char>, rounds: nat)
    requires
        is_trimmed(t),
    ensures
        is_trimmed(unwrap_rounds(t, rounds)),
        !is_quote_wrapped(unwrap_rounds(t, rounds)) ==> unwrap_rounds(unwrap_rounds(t, rounds), 4)
            == unwrap_rounds(t, rounds),
    decreases rounds,
{
    lemma_trim_of_trimmed(t);
    if rounds > 0 && t.len() >= 2 && is_quote_wrapped(t) {
        let inner = trim(t.subrange(1, t.len() - 1));
        lemma_trim_is_trimmed(t.subrange(1, t.len() - 1));
        lemma_unwrap_rounds_trimmed(inner, (rounds - 1) as nat);
    }
    let r = unwrap_rounds(t, rounds);
    if !is_quote_wrapped(r) {
        lemma_trim_of_trimmed(r);
    }
}

/// The result of normalizing never starts or ends with whitespace.
pub proof fn lemma_normalized_root_path_trimmed(s: Seq<char>)
    ensures
        is_trimmed(normalized_root_path(s)),
{
    lemma_trim_is_trimmed(s);
    lemma_unwrap_rounds_trimmed(trim(s), 4);
}

/// Normalizing a path twice gives what normalizing once gave, unless the first
/// result still holds a pair of wrapping quotes (more than four layers were given).
pub proof fn normalize_root_path_idempotent(s: Seq<char>)
    requires
        !is_quote_wrapped(normalized_root_path(s)),
    ensures
        normalized_root_path(normalized_root_path(s)) == normalized_root_path(s),
{
    lemma_trim_is_trimmed(s);
    lemma_unwrap_rounds_trimmed(trim(s), 4);
    lemma_trim_of_trimmed(normalized_root_path(s));
}

/// Trim `s` and strip matching wrapping quotes, at most four times.
pub fn normalize_root_path(s: &str) -> (r: String)
    ensures
        r@ == normalized_root_path(s@),
{
    let mut t = trim_str(s);
    let mut i: usize = 0;
    while i < 4
        invariant
            i <= 4,
            unwrap_rounds(t@, (4 - i) as nat) == normalized_root_path(s@),
        decreases 4 - i,
    {
        let v = chars_of(t.as_str());
        let (a, b) = trim_bounds(&v);
        let ghost tr = trim(t@);
        assert(v@.subrange(a as int, b as int) == tr);
        if b - a < 2 {
            return string_from_chars(&v.as_slice()[a..b]);
        }
        let first = v[a];
        let last = v[b - 1];
        assert(first == tr[0] && last == tr.last());
        if (first == '"' || first == '\'') && first == last {
            let inner = string_from_chars(&v.as_slice()[a + 1..b - 1]);
            assert(inner@ =~= tr.subrange(1, tr.len() - 1));
            t = trim_str(inner.as_str());
        } else {
            return string_from_chars(&v.as_slice()[a..b]);
        }
        i = i + 1;
    }
    t
}

/// `settings` after normalization: vessel name trimmed, root paths normalized,
/// everything else unchanged.
pub open spec fn settings_normalized_from(after: AppSettings, before: AppSettings) -> bool {
    &&& after.vessel_name@ == trim(before.vessel_name@)
    &&& after.roots.len() == before.roots.len()
    &&& forall|i: int|
        0 <= i < before.roots.len() ==> {
            &&& (#[trigger] after.roots@[i]).path@ == normalized_root_path(before.roots@[i].path@)
            &&& after.roots@[i].display_name == before.roots@[i].display_name
            &&& after.roots@[i].enabled == before.roots@[i].enabled
            &&& after.roots@[i].read_only == before.roots@[i].read_only
        }
    &&& after.exclusion_globs == before.exclusion_globs
    &&& after.batch_size == before.batch_size
    &&& after.onboarding_completed == before.onboarding_completed
    &&& after.theme == before.theme
    &&& after.content_indexing_enabled == before.content_indexing_enabled
    &&& after.content_index_extensions == before.content_index_extensions
    &&& after.content_max_bytes_per_file == before.content_max_bytes_per_file
}

/// Whether normalization changes any root path of `s`.
pub open spec fn roots_need_normalization(s: AppSettings) -> bool {
    exists|i: int|
        0 <= i < s.roots.len() && normalized_root_path((#[trigger] s.roots@[i]).path@)
            != s.roots@[i].path@
}

/// Trim the vessel name and normalize every root path; returns true if any root
/// path changed (a trimmed vessel name alone does not count).
pub fn normalize_app_settings(settings: &mut AppSettings) -> (changed: bool)
    ensures
        settings_normalized_from(*final(settings), *old(settings)),
        changed == roots_need_normalization(*old(settings)),
{
    let mut changed = false;
    let vn = trim_str(settings.vessel_name.as_str());
    if !(vn == settings.vessel_name) {
        settings.vessel_name = vn;
    }
    let ghost orig = *old(settings);
    let n = settings.roots.len();
    let mut i: usize = 0;
    while i < n
        invariant
            n == settings.roots.len() == orig.roots.len(),
            0 <= i <= n,
            settings.vessel_name@ == trim(orig.vessel_name@),
            forall|k: int|
                0 <= k < n ==> {
                    &&& (#[trigger] settings.roots@[k]).display_name == orig.roots@[k].display_name
                    &&& settings.roots@[k].enabled == orig.roots@[k].enabled
                    &&& settings.roots@[k].read_only == orig.roots@[k].read_only
                    &&& k < i ==> settings.roots@[k].path@ == normalized_root_path(
                        orig.roots@[k].path@,
                    )
                    &&& k >= i ==> settings.roots@[k].path == orig.roots@[k].path
                },
            settings.exclusion_globs == orig.exclusion_globs,
            settings.batch_size == orig.batch_size,
            settings.onboarding_completed == orig.onboarding_completed,
            settings.theme == orig.theme,
            settings.content_indexing_enabled == orig.content_indexing_enabled,
            settings.content_index_extensions == orig.content_index_extensions,
            settings.content_max_bytes_per_file == orig.content_max_bytes_per_file,
            changed == exists|k: int|
                0 <= k < i && normalized_root_path((#[trigger] orig.roots@[k]).path@)
                    != orig.roots@[k].path@,
        decreases n - i,
    {
        let p = normalize_root_path(settings.roots[i].path.as_str());
        if !(p == settings.roots[i].path) {
            let r = RootConfig {
                path: p,
                display_name: settings.roots[i].display_name.clone(),
                enabled: settings.roots[i].enabled,
                read_only: settings.roots[i].read_only,
            };
            settings.roots.set(i, r);
            changed = true;
        }
        i = i + 1;
    }
    changed
}


/// Settings read back after normalization need no further normalization: the
/// vessel name is trimmed and no root path changes again, provided no root path
/// still holds a pair of wrapping quotes (more than four layers given).
pub proof fn normalized_settings_are_stable(before: AppSettings, after: AppSettings)
    requires
        settings_normalized_from(after, before),
        forall|i: int|
            0 <= i < after.roots.len() ==> !is_quote_wrapped(#[trigger] after.roots@[i].path@),
    ensures
        trim(after.vessel_name@) == after.vessel_name@,
        !roots_need_normalization(after),
{
    crate::text::lemma_trim_idempotent(before.vessel_name@);
    assert forall|i: int|
        0 <= i < after.roots.len() implies normalized_root_path((#[trigger] after.roots@[i]).path@)
        == after.roots@[i].path@ by {
        normalize_root_path_idempotent(before.roots@[i].path@);
    }
}

} // verus!
