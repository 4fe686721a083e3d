//! Checks on the SQLite catalog schema that need no database access.

use vstd::prelude::*;

use crate::content_extract::{str_eq, views};
use crate::text::chars_of;

verus! {

/// `needle` occurs in `s` as a contiguous run.
pub open spec fn contains_run(s: Seq<char>, needle: Seq<char>) -> bool {
    exists|i: int| 0 <= i && i + needle.len() <= s.len() && #[trigger] s.subrange(i, i + needle.len()) == needle
}

/// Whether `needle` occurs in `v` at position `i`.
fn occurs_at(v: &Vec<char>, needle: &Vec<char>, i: usize) -> (r: bool)
    requires
        i + needle.len() <= v.len(),
    ensures
        r == (v@.subrange(i as int, i + needle.len()) == needle@),
{
    let mut k: usize = 0;
    while k < needle.len()
        invariant
            i + needle.len() <= v.len(),
            k <= needle.len(),
            forall|j: int| 0 <= j < k ==> v@[i + j] == needle@[j],
        decreases needle.len() - k,
    {
        if v[i + k] != needle[k] {
            assert(v@.subrange(i as int, i + needle.len())[k as int] != needle@[k as int]);
            return false;
        }
        k = k + 1;
    }
    assert(v@.subrange(i as int, i + needle.len()) =~= needle@);
    true
}

/// `str::contains` with a string pattern.
pub fn str_contains(s: &str, needle: &str) -> (r: bool)
    ensures
        r == contains_run(s@, needle@),
{
    let v = chars_of(s);
    let n = chars_of(needle);
    if n.len() > v.len() {
        return false;
    }
    if n.len() == 0 {
        assert(s@.subrange(0int, 0int + needle@.len()) =~= needle@);
        return true;
    }
    let mut i: usize = 0;
    let last = v.len() - n.len();
    while i <= last
        invariant
            last == v.len() - n.len(),
            n.len() > 0,
            v@ == s@,
            n@ == needle@,
            n.len() <= v.len(),
            i <= last + 1,
            forall|j: int| 0 <= j < i ==> #[trigger] v@.subrange(j, j + n.len()) != n@,
        decreases last + 1 - i,
    {
        if occurs_at(&v, &n, i) {
            assert(s@.subrange(i as int, i + needle@.len()) == needle@);
            return true;
        }
        i = i + 1;
    }
    proof {
        if contains_run(s@, needle@) {
            let j = choose|j: int|
                0 <= j && j + needle@.len() <= s@.len() && #[trigger] s@.subrange(j, j + needle@.len())
                    == needle@;
            assert(j < i);
        }
    }
    false
}

/// The full-text table has the current shape: its SQL names `path`, `full_path`
/// and `content`, and its columns include all three.
pub open spec fn fts_is_v2(sql: Seq<char>, cols: Seq<Seq<char>>) -> bool {
    &&& contains_run(sql, "path"@)
    &&& contains_run(sql, "full_path"@)
    &&& contains_run(sql, "content"@)
    &&& cols.contains("path"@)
    &&& cols.contains("full_path"@)
    &&& cols.contains("content"@)
}

/// Whether the full-text table (given its `CREATE` SQL and its column names)
/// already has the path, full-path and content columns.
pub fn fts_files_has_v2_shape(fts_sql: &str, cols: &Vec<String>) -> (r: bool)
    ensures
        r == fts_is_v2(fts_sql@, views(cols@)),
{
    if !(str_contains(fts_sql, "path") && str_contains(fts_sql, "full_path") && str_contains(
        fts_sql,
        "content",
    )) {
        return false;
    }
    let has_path = crate::content_extract::contains_str(cols, "path");
    let has_full_path = crate::content_extract::contains_str(cols, "full_path");
    let has_content = crate::content_extract::contains_str(cols, "content");
    has_path && has_full_path && has_content
}

} // verus!
