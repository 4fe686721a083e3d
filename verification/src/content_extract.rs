//! Searchable plain text from supported file types: extension lists, text
//! normalization, and the per-file decision of what to extract during a scan.

use vstd::prelude::*;

use crate::dto::AppSettings;
use crate::search::strip_one_dot;
use crate::text::{
    decimal, lemma_decimal_injective, lemma_decimal_props, push_i64,
    char_is_whitespace, chars_of, is_ws, lowercase, push_char, string_from_chars,
    to_lowercase_str, trim, trim_str,
};

verus! {

/// Max bytes of UTF-8 text collected per file before the final trim.
pub const MAX_STORED_CONTENT_CHARS: usize = 512 * 1024;

/// Bytes in the UTF-8 encoding of `c`.
pub open spec fn char_utf8_len(c: char) -> nat {
    let u = c as u32;
    if u < 0x80 {
        1
    } else if u < 0x800 {
        2
    } else if u < 0x10000 {
        3
    } else {
        4
    }
}

/// Bytes in the UTF-8 encoding of `s` (what `String::len` reports).
pub open spec fn utf8_len(s: Seq<char>) -> nat
    decreases s.len(),
{
    if s.len() == 0 {
        0
    } else {
        utf8_len(s.drop_last()) + char_utf8_len(s.last())
    }
}

/// `char::len_utf8`.
pub fn char_len_utf8(c: char) -> (n: usize)
    ensures
        n == char_utf8_len(c),
{
    let u = c as u32;
    if u < 0x80 {
        1
    } else if u < 0x800 {
        2
    } else if u < 0x10000 {
        3
    } else {
        4
    }
}

/// One pass of whitespace collapsing over `s`: `out` is the text so far and
/// `last_space` whether it ends with a collapsed space. Reading stops once `out`
/// holds `MAX_STORED_CONTENT_CHARS` bytes or more.
pub open spec fn collapse_ws(s: Seq<char>, out: Seq<char>, last_space: bool) -> Seq<char>
    decreases s.len(),
{
    if s.len() == 0 || utf8_len(out) >= MAX_STORED_CONTENT_CHARS {
        out
    } else if is_ws(s[0]) {
        if !last_space && out.len() > 0 {
            collapse_ws(s.drop_first(), out.push(' '), true)
        } else {
            collapse_ws(s.drop_first(), out, last_space)
        }
    } else {
        collapse_ws(s.drop_first(), out.push(s[0]), false)
    }
}

/// What `normalize_text` returns: whitespace runs collapsed to one space, at most
/// about `MAX_STORED_CONTENT_CHARS` bytes kept, then trimmed.
pub open spec fn normalized_text(s: Seq<char>) -> Seq<char> {
    trim(collapse_ws(s, seq![], false))
}

/// No character but `' '` is whitespace, and no two spaces are adjacent.
pub open spec fn single_spaced(s: Seq<char>) -> bool {
    &&& forall|k: int| 0 <= k < s.len() && is_ws(#[trigger] s[k]) ==> s[k] == ' '
    &&& forall|k: int| 0 <= k < s.len() - 1 && #[trigger] s[k] == ' ' ==> s[k + 1] != ' '
}

proof fn lemma_collapse_single_spaced(s: Seq<char>, out: Seq<char>, last_space: bool)
    requires
        single_spaced(out),
        out.len() > 0 ==> (last_space <==> out.last() == ' '),
        out.len() == 0 ==> !last_space,
    ensures
        single_spaced(collapse_ws(s, out, last_space)),
    decreases s.len(),
{
    if s.len() == 0 || utf8_len(out) >= MAX_STORED_CONTENT_CHARS {
    } else if is_ws(s[0]) {
        if !last_space && out.len() > 0 {
            let o2 = out.push(' ');
            assert forall|k: int| 0 <= k < o2.len() - 1 && #[trigger] o2[k] == ' ' implies o2[k
                + 1] != ' ' by {
                if k < out.len() - 1 {
                    assert(o2[k] == out[k] && o2[k + 1] == out[k + 1]);
                }
            }
            assert forall|k: int| 0 <= k < o2.len() && is_ws(#[trigger] o2[k]) implies o2[k]
                == ' ' by {
                if k < out.len() {
                    assert(o2[k] == out[k]);
                }
            }
            lemma_collapse_single_spaced(s.drop_first(), o2, true);
        } else {
            lemma_collapse_single_spaced(s.drop_first(), out, last_space);
        }
    } else {
        let o2 = out.push(s[0]);
        assert forall|k: int| 0 <= k < o2.len() - 1 && #[trigger] o2[k] == ' ' implies o2[k + 1]
            != ' ' by {
            if k < out.len() - 1 {
                assert(o2[k] == out[k] && o2[k + 1] == out[k + 1]);
            }
        }
        assert forall|k: int| 0 <= k < o2.len() && is_ws(#[trigger] o2[k]) implies o2[k]
            == ' ' by {
            if k < out.len() {
                assert(o2[k] == out[k]);
            }
        }
        lemma_collapse_single_spaced(s.drop_first(), o2, false);
    }
}

/// Normalized text holds no whitespace but single spaces, and neither starts nor
/// ends with one.
pub proof fn normalized_text_is_single_spaced(s: Seq<char>)
    ensures
        single_spaced(normalized_text(s)),
        crate::text::is_trimmed(normalized_text(s)),
{
    let c = collapse_ws(s, seq![], false);
    lemma_collapse_single_spaced(s, seq![], false);
    crate::text::lemma_trim_is_trimmed(c);
    crate::text::lemma_trim_start_props(c);
    crate::text::lemma_trim_end_props(crate::text::trim_start(c));
    let a = c.len() - crate::text::trim_start(c).len();
    let t = normalized_text(s);
    assert forall|k: int| 0 <= k < t.len() && is_ws(#[trigger] t[k]) implies t[k] == ' ' by {
        assert(t[k] == c[k + a]);
    }
    assert forall|k: int| 0 <= k < t.len() - 1 && #[trigger] t[k] == ' ' implies t[k + 1] != ' ' by {
        assert(t[k] == c[k + a] && t[k + 1] == c[k + 1 + a]);
    }
}

proof fn lemma_utf8_len_concat(a: Seq<char>, b: Seq<char>)
    ensures
        utf8_len(a + b) == utf8_len(a) + utf8_len(b),
    decreases b.len(),
{
    if b.len() > 0 {
        assert((a + b).drop_last() =~= a + b.drop_last());
        lemma_utf8_len_concat(a, b.drop_last());
    } else {
        assert(a + b =~= a);
    }
}

/// `utf8_len` is the length of the UTF-8 encoding (`String::len`).
pub proof fn utf8_len_is_encoded_length(s: Seq<char>)
    ensures
        utf8_len(s) == vstd::utf8::encode_utf8(s).len(),
    decreases s.len(),
{
    if s.len() > 0 {
        utf8_len_is_encoded_length(s.drop_first());
        lemma_utf8_len_concat(seq![s[0]], s.drop_first());
        assert(seq![s[0]] + s.drop_first() =~= s);
        assert(seq![s[0]].drop_last() =~= Seq::<char>::empty());
        assert(utf8_len(Seq::<char>::empty()) == 0);
        assert(seq![s[0]].last() == s[0]);
        vstd::utf8::char_is_scalar(s[0]);
        assert(utf8_len(seq![s[0]]) == char_utf8_len(s[0]));
    }
}

proof fn lemma_utf8_len_subrange(s: Seq<char>, i: int, j: int)
    requires
        0 <= i <= j <= s.len(),
    ensures
        utf8_len(s.subrange(i, j)) <= utf8_len(s),
{
    lemma_utf8_len_concat(s.take(i), s.skip(i));
    assert(s.take(i) + s.skip(i) =~= s);
    let t = s.skip(i);
    lemma_utf8_len_concat(t.take(j - i), t.skip(j - i));
    assert(t.take(j - i) + t.skip(j - i) =~= t);
    assert(t.take(j - i) =~= s.subrange(i, j));
}

proof fn lemma_collapse_bound(s: Seq<char>, out: Seq<char>, last_space: bool)
    requires
        utf8_len(out) < MAX_STORED_CONTENT_CHARS + 4,
    ensures
        utf8_len(collapse_ws(s, out, last_space)) < MAX_STORED_CONTENT_CHARS + 4,
    decreases s.len(),
{
    if s.len() == 0 || utf8_len(out) >= MAX_STORED_CONTENT_CHARS {
    } else if is_ws(s[0]) {
        if !last_space && out.len() > 0 {
            assert(out.push(' ').drop_last() =~= out);
            lemma_collapse_bound(s.drop_first(), out.push(' '), true);
        } else {
            lemma_collapse_bound(s.drop_first(), out, last_space);
        }
    } else {
        assert(out.push(s[0]).drop_last() =~= out);
        lemma_collapse_bound(s.drop_first(), out.push(s[0]), false);
    }
}

/// Stored text stays within the cap: its UTF-8 encoding is shorter than
/// `MAX_STORED_CONTENT_CHARS` plus one character.
pub proof fn normalized_text_fits_cap(s: Seq<char>)
    ensures
        utf8_len(normalized_text(s)) < MAX_STORED_CONTENT_CHARS + 4,
{
    let c = collapse_ws(s, seq![], false);
    lemma_collapse_bound(s, seq![], false);
    crate::text::lemma_trim_start_props(c);
    let ts = crate::text::trim_start(c);
    crate::text::lemma_trim_end_props(ts);
    let a = c.len() - ts.len();
    let te = crate::text::trim_end(ts);
    assert(te =~= c.subrange(a, a + te.len()));
    lemma_utf8_len_subrange(c, a, a + te.len());
}

proof fn lemma_collapse_prefixes_under_cap(s: Seq<char>, out: Seq<char>, last_space: bool)
    requires
        forall|k: int| 0 <= k < out.len() ==> utf8_len(#[trigger] out.take(k)) < MAX_STORED_CONTENT_CHARS,
        out.len() > 0 ==> !is_ws(out[0]),
    ensures
        forall|k: int|
            0 <= k < collapse_ws(s, out, last_space).len() ==> utf8_len(
                #[trigger] collapse_ws(s, out, last_space).take(k),
            ) < MAX_STORED_CONTENT_CHARS,
        collapse_ws(s, out, last_space).len() > 0 ==> !is_ws(collapse_ws(s, out, last_space)[0]),
    decreases s.len(),
{
    if s.len() == 0 || utf8_len(out) >= MAX_STORED_CONTENT_CHARS {
    } else {
        let pushed = if is_ws(s[0]) { ' ' } else { s[0] };
        let o2 = out.push(pushed);
        assert forall|k: int| 0 <= k < o2.len() implies utf8_len(#[trigger] o2.take(k))
            < MAX_STORED_CONTENT_CHARS by {
            if k < out.len() {
                assert(o2.take(k) =~= out.take(k));
            } else {
                assert(o2.take(k) =~= out);
            }
        }
        if is_ws(s[0]) {
            if !last_space && out.len() > 0 {
                lemma_collapse_prefixes_under_cap(s.drop_first(), o2, true);
            } else {
                lemma_collapse_prefixes_under_cap(s.drop_first(), out, last_space);
            }
        } else {
            lemma_collapse_prefixes_under_cap(s.drop_first(), o2, false);
        }
    }
}

proof fn lemma_collapse_copies(t: Seq<char>, i: int)
    requires
        single_spaced(t),
        t.len() > 0 ==> !is_ws(t[0]),
        forall|k: int| 0 <= k < t.len() ==> utf8_len(#[trigger] t.take(k)) < MAX_STORED_CONTENT_CHARS,
        0 <= i <= t.len(),
    ensures
        collapse_ws(t.skip(i), t.take(i), i > 0 && t[i - 1] == ' ') == t,
    decreases t.len() - i,
{
    let last = i > 0 && t[i - 1] == ' ';
    if i == t.len() {
        assert(t.take(i) =~= t);
    } else {
        assert(utf8_len(t.take(i)) < MAX_STORED_CONTENT_CHARS);
        let rest = t.skip(i);
        assert(rest[0] == t[i]);
        assert(rest.drop_first() =~= t.skip(i + 1));
        assert(t.take(i).push(t[i]) =~= t.take(i + 1));
        if is_ws(t[i]) {
            assert(t[i] == ' ');
            assert(i > 0);
            if last {
                assert(t[i - 1] == ' ' && t[i - 1 + 1] != ' ');
            }
        }
        lemma_collapse_copies(t, i + 1);
    }
}

/// Normalizing normalized text changes nothing.
pub proof fn normalize_text_is_idempotent(s: Seq<char>)
    ensures
        normalized_text(normalized_text(s)) == normalized_text(s),
{
    let c = collapse_ws(s, seq![], false);
    let t = normalized_text(s);
    lemma_collapse_prefixes_under_cap(s, seq![], false);
    normalized_text_is_single_spaced(s);
    crate::text::lemma_trim_start_props(c);
    let ts = crate::text::trim_start(c);
    if c.len() > ts.len() {
        assert(is_ws(c[0]));
    }
    assert(ts =~= c);
    crate::text::lemma_trim_end_props(c);
    assert(t =~= c.take(t.len() as int));
    assert forall|k: int| 0 <= k < t.len() implies utf8_len(#[trigger] t.take(k))
        < MAX_STORED_CONTENT_CHARS by {
        assert(t.take(k) =~= c.take(k));
    }
    lemma_collapse_copies(t, 0);
    assert(t.skip(0) =~= t);
    assert(t.take(0) =~= Seq::<char>::empty());
    crate::text::lemma_trim_of_trimmed(t);
}

/// Collapse whitespace runs to one space, stop after about
/// `MAX_STORED_CONTENT_CHARS` bytes, and trim.
pub fn normalize_text(s: &str) -> (r: String)
    ensures
        r@ == normalized_text(s@),
{
    let v = chars_of(s);
    let mut out = String::new();
    let mut out_bytes: usize = 0;
    let mut last_space = false;
    let mut i: usize = 0;
    assert(v@.skip(0) =~= v@);
    while i < v.len() && out_bytes < MAX_STORED_CONTENT_CHARS
        invariant
            v@ == s@,
            i <= v.len(),
            out_bytes == utf8_len(out@),
            out_bytes < MAX_STORED_CONTENT_CHARS + 4,
            collapse_ws(v@.skip(i as int), out@, last_space) == collapse_ws(s@, seq![], false),
        decreases v.len() - i,
    {
        let ch = v[i];
        assert(v@.skip(i as int)[0] == ch);
        assert(v@.skip(i as int).drop_first() =~= v@.skip(i + 1));
        if char_is_whitespace(ch) {
            if !last_space && out_bytes > 0 {
                let ghost o = out@;
                push_char(&mut out, ' ');
                assert(out@.drop_last() =~= o);
                out_bytes = out_bytes + 1;
                last_space = true;
            } else {
                assert(out_bytes > 0 ==> out@.len() > 0);
                proof {
                    if out@.len() > 0 {
                        lemma_utf8_len_pos(out@);
                    }
                }
            }
        } else {
            let ghost o = out@;
            last_space = false;
            push_char(&mut out, ch);
            assert(out@.drop_last() =~= o);
            out_bytes = out_bytes + char_len_utf8(ch);
        }
        i = i + 1;
    }
    trim_str(out.as_str())
}

proof fn lemma_utf8_len_pos(s: Seq<char>)
    requires
        s.len() > 0,
    ensures
        utf8_len(s) > 0,
{
}

/// Extensions indexed when the user's list is empty (lowercase, no dot).
pub fn default_content_extensions() -> (r: Vec<String>)
    ensures
        r@.map_values(|e: String| e@) == seq!["pdf"@, "txt"@, "md"@, "csv"@, "json"@, "log"@],
{
    let mut r: Vec<String> = Vec::new();
    r.push(String::from_str("pdf"));
    r.push(String::from_str("txt"));
    r.push(String::from_str("md"));
    r.push(String::from_str("csv"));
    r.push(String::from_str("json"));
    r.push(String::from_str("log"));
    assert(r@.map_values(|e: String| e@) =~= seq!["pdf"@, "txt"@, "md"@, "csv"@, "json"@, "log"@]);
    r
}

/// One user-entered extension normalized: trimmed, lowercased, one leading dot dropped.
pub open spec fn normalized_extension(e: Seq<char>) -> Seq<char> {
    strip_one_dot(lowercase(trim(e)))
}

/// The normalized entries of `exts` that are not empty, in order.
pub open spec fn normalized_extensions(exts: Seq<Seq<char>>) -> Seq<Seq<char>>
    decreases exts.len(),
{
    if exts.len() == 0 {
        seq![]
    } else {
        let e = normalized_extension(exts.last());
        normalized_extensions(exts.drop_last()) + if e.len() > 0 {
            seq![e]
        } else {
            seq![]
        }
    }
}

/// Normalize one user-entered extension.
pub fn normalize_extension(e: &str) -> (r: String)
    ensures
        r@ == normalized_extension(e@),
{
    let t = trim_str(e);
    let lowered = to_lowercase_str(t.as_str());
    strip_leading_dot(lowered.as_str())
}

/// `t` without one leading `.`.
pub fn strip_leading_dot(t: &str) -> (r: String)
    ensures
        r@ == strip_one_dot(t@),
{
    let v = chars_of(t);
    if v.len() > 0 && v[0] == '.' {
        let r = string_from_chars(&v.as_slice()[1..v.len()]);
        assert(r@ =~= strip_one_dot(t@));
        r
    } else {
        string_from_chars(v.as_slice())
    }
}

/// Extensions to index: the built-in list when the user's list is empty, otherwise
/// the user's entries normalized, with empty ones dropped.
pub fn normalized_extension_list(settings: &AppSettings) -> (r: Vec<String>)
    ensures
        settings.content_index_extensions.len() == 0 ==> r@.map_values(|e: String| e@) == seq![
            "pdf"@,
            "txt"@,
            "md"@,
            "csv"@,
            "json"@,
            "log"@,
        ],
        settings.content_index_extensions.len() > 0 ==> r@.map_values(|e: String| e@)
            == normalized_extensions(settings.content_index_extensions@.map_values(|e: String| e@)),
{
    let exts = &settings.content_index_extensions;
    if exts.len() == 0 {
        return default_content_extensions();
    }
    let ghost src = exts@.map_values(|e: String| e@);
    let mut r: Vec<String> = Vec::new();
    let mut i: usize = 0;
    assert(r@.map_values(|e: String| e@) =~= normalized_extensions(src.take(0)));
    while i < exts.len()
        invariant
            i <= exts.len(),
            src == exts@.map_values(|e: String| e@),
            r@.map_values(|e: String| e@) == normalized_extensions(src.take(i as int)),
        decreases exts.len() - i,
    {
        let e = normalize_extension(exts[i].as_str());
        let ghost before = r@.map_values(|e: String| e@);
        assert(src.take(i + 1).drop_last() =~= src.take(i as int));
        assert(src.take(i + 1).last() == exts@[i as int]@);
        if !e.as_str().is_empty() {
            r.push(e);
            assert(r@.map_values(|e: String| e@) =~= before + seq![e@]);
        } else {
            assert(before =~= before + Seq::<Seq<char>>::empty());
        }
        i = i + 1;
    }
    assert(src.take(exts.len() as int) =~= src);
    r
}


/// The change signature of a file: `size:mtime_ns` in decimal.
pub open spec fn signature(size: i64, mtime_ns: i64) -> Seq<char> {
    decimal(size as int) + seq![':'] + decimal(mtime_ns as int)
}

/// `format!("{size}:{mtime_ns}")`.
pub fn quick_sig(size: i64, mtime_ns: i64) -> (r: String)
    ensures
        r@ == signature(size, mtime_ns),
{
    let mut r = String::new();
    push_i64(&mut r, size);
    push_char(&mut r, ':');
    push_i64(&mut r, mtime_ns);
    r
}

/// Two files have the same signature only if they have the same size and the same
/// modification time: a changed file is always seen as changed.
pub proof fn signature_injective(size1: i64, mtime1: i64, size2: i64, mtime2: i64)
    requires
        signature(size1, mtime1) == signature(size2, mtime2),
    ensures
        size1 == size2,
        mtime1 == mtime2,
{
    let x = decimal(size1 as int);
    let y = decimal(size2 as int);
    let s1 = signature(size1, mtime1);
    let s2 = signature(size2, mtime2);
    lemma_decimal_props(size1 as int);
    lemma_decimal_props(size2 as int);
    if x.len() < y.len() {
        assert(s1[x.len() as int] == ':');
        assert(s2[x.len() as int] == y[x.len() as int]);
        assert(y.contains(':'));
    } else if y.len() < x.len() {
        assert(s2[y.len() as int] == ':');
        assert(s1[y.len() as int] == x[y.len() as int]);
        assert(x.contains(':'));
    } else {
        assert(s1.subrange(0, x.len() as int) =~= x);
        assert(s2.subrange(0, y.len() as int) =~= y);
        lemma_decimal_injective(size1 as int, size2 as int);
        assert(s1.subrange(x.len() as int + 1, s1.len() as int) =~= decimal(mtime1 as int));
        assert(s2.subrange(y.len() as int + 1, s2.len() as int) =~= decimal(mtime2 as int));
        lemma_decimal_injective(mtime1 as int, mtime2 as int);
    }
}

/// What `Path::extension` returns for the path `p`, as text.
pub uninterp spec fn path_extension(p: Seq<char>) -> Option<Seq<char>>;

/// The view of an optional string.
pub open spec fn opt_view(o: Option<String>) -> Option<Seq<char>> {
    match o {
        Some(s) => Some(s@),
        None => None,
    }
}

/// `Path::new(p).extension()`, as a string. The contract names the result.
#[verifier::external_body]
fn std_path_extension(p: &str) -> (r: Option<String>)
    ensures
        opt_view(r) == path_extension(p@),
{
    std::path::Path::new(p).extension().and_then(|e| e.to_str()).map(|e| e.to_string())
}

/// The lowercased extension of `path`, if it has one.
pub fn lowercase_extension(path: &str) -> (r: Option<String>)
    ensures
        path_extension(path@) is None ==> r is None,
        path_extension(path@) matches Some(e) ==> opt_view(r) == Some(lowercase(e)),
{
    match std_path_extension(path) {
        None => None,
        Some(e) => Some(to_lowercase_str(e.as_str())),
    }
}

/// The views of a vector of strings.
pub open spec fn views(v: Seq<String>) -> Seq<Seq<char>> {
    v.map_values(|e: String| e@)
}

/// Whether `e` equals one of `allowed`.
pub fn contains_str(allowed: &Vec<String>, e: &str) -> (r: bool)
    ensures
        r == views(allowed@).contains(e@),
{
    let mut i: usize = 0;
    while i < allowed.len()
        invariant
            i <= allowed.len(),
            forall|k: int| 0 <= k < i ==> allowed@[k]@ != e@,
        decreases allowed.len() - i,
    {
        if str_eq(allowed[i].as_str(), e) {
            assert(views(allowed@)[i as int] == e@);
            return true;
        }
        i = i + 1;
    }
    proof {
        if views(allowed@).contains(e@) {
            let k = choose|k: int| 0 <= k < views(allowed@).len() && views(allowed@)[k] == e@;
            assert(allowed@[k]@ == e@);
        }
    }
    false
}

/// Whether two strings are equal.
pub fn str_eq(a: &str, b: &str) -> (r: bool)
    ensures
        r == (a@ == b@),
{
    let va = chars_of(a);
    let vb = chars_of(b);
    if va.len() != vb.len() {
        return false;
    }
    let mut i: usize = 0;
    while i < va.len()
        invariant
            va@ == a@,
            vb@ == b@,
            va.len() == vb.len(),
            i <= va.len(),
            forall|k: int| 0 <= k < i ==> va@[k] == vb@[k],
        decreases va.len() - i,
    {
        if va[i] != vb[i] {
            return false;
        }
        i = i + 1;
    }
    assert(va@ =~= vb@);
    true
}

/// Whether the path's lowercased extension is one of `allowed`.
pub fn ext_matches(path: &str, allowed: &Vec<String>) -> (r: bool)
    ensures
        r == (path_extension(path@) matches Some(e) && views(allowed@).contains(lowercase(e))),
{
    match lowercase_extension(path) {
        None => false,
        Some(e) => contains_str(allowed, e.as_str()),
    }
}

/// What the index holds for a file: its row id and the signatures of its metadata
/// and of its stored text.
#[derive(Debug, Clone)]
pub struct ContentRow {
    pub file_id: i64,
    pub quick_sig: Option<String>,
    pub content_sig: Option<String>,
}

/// What to do for one scanned file when indexing file text.
#[derive(Debug, Clone)]
pub enum ContentAction {
    /// Nothing: the file is not indexed yet, changed since, or its text is current.
    Skip,
    /// Record empty text under `sig` (unsupported type or over the read cap).
    StoreEmpty { file_id: i64, sig: String },
    /// Extract PDF text and record it under `sig`.
    ExtractPdf { file_id: i64, sig: String },
    /// Read the file as plain text and record it under `sig`.
    ExtractPlainText { file_id: i64, sig: String },
}

/// Extensions read as plain text.
pub open spec fn is_plain_text_ext(e: Seq<char>) -> bool {
    e == "txt"@ || e == "md"@ || e == "log"@ || e == "csv"@ || e == "json"@
}

/// The decision for one file, given its index row, its size and time, its lowercased
/// extension, the allowed extensions and the read cap.
pub open spec fn content_action_for(
    row: Option<ContentRow>,
    size: i64,
    mtime_ns: i64,
    ext: Option<Seq<char>>,
    allowed: Seq<Seq<char>>,
    max_read: u64,
) -> (int, Seq<char>) {
    // (tag, sig): skip 0, store empty 1, extract PDF 2, read plain text 3
    let sig = signature(size, mtime_ns);
    match row {
        None => (0, sig),
        Some(r) => if opt_view(r.quick_sig) != Some(sig) || opt_view(r.content_sig) == Some(sig) {
            (0, sig)
        } else {
            match ext {
                None => (1, sig),
                Some(e) => if !allowed.contains(e) || size < 0 || size > max_read {
                    (1, sig)
                } else if e == "pdf"@ {
                    (2, sig)
                } else if is_plain_text_ext(e) {
                    (3, sig)
                } else {
                    (1, sig)
                },
            }
        },
    }
}

/// The tag and signature of an action (tags as in `content_action_for`).
pub open spec fn action_tag(a: ContentAction) -> (int, Seq<char>) {
    match a {
        ContentAction::Skip => (0, seq![]),
        ContentAction::StoreEmpty { sig, .. } => (1, sig@),
        ContentAction::ExtractPdf { sig, .. } => (2, sig@),
        ContentAction::ExtractPlainText { sig, .. } => (3, sig@),
    }
}

/// The index row an action is for (`-1` for `Skip`).
pub open spec fn action_file_id(a: ContentAction) -> int {
    match a {
        ContentAction::Skip => -1,
        ContentAction::StoreEmpty { file_id, .. } => file_id as int,
        ContentAction::ExtractPdf { file_id, .. } => file_id as int,
        ContentAction::ExtractPlainText { file_id, .. } => file_id as int,
    }
}

/// The view of an optional string slice.
pub open spec fn opt_str_view(o: Option<&str>) -> Option<Seq<char>> {
    match o {
        Some(e) => Some(e@),
        None => None,
    }
}

/// `a` is the decision for the file, as `plan_content_indexing` promises it.
pub open spec fn content_plan_matches(
    a: ContentAction,
    row: Option<ContentRow>,
    size: i64,
    mtime_ns: i64,
    ext: Option<Seq<char>>,
    allowed: Seq<Seq<char>>,
    max_read: u64,
) -> bool {
    let want = content_action_for(row, size, mtime_ns, ext, allowed, max_read);
    &&& action_tag(a).0 == want.0
    &&& want.0 != 0 ==> action_tag(a).1 == want.1
    &&& want.0 != 0 ==> action_file_id(a) == row.unwrap().file_id
}

/// Decide what to do with one file's text.
pub fn plan_content_indexing(
    row: Option<ContentRow>,
    size: i64,
    mtime_ns: i64,
    ext: Option<&str>,
    allowed: &Vec<String>,
    max_read: u64,
) -> (a: ContentAction)
    ensures
        ({
            let want = content_action_for(
                row,
                size,
                mtime_ns,
                match ext {
                    Some(e) => Some(e@),
                    None => None,
                },
                views(allowed@),
                max_read,
            );
            &&& action_tag(a).0 == want.0
            &&& want.0 != 0 ==> action_tag(a).1 == want.1
            &&& want.0 != 0 ==> action_file_id(a) == row.unwrap().file_id
        }),
        content_plan_matches(a, row, size, mtime_ns, opt_str_view(ext), views(allowed@), max_read),
{
    let sig = quick_sig(size, mtime_ns);
    let r = match row {
        None => {
            return ContentAction::Skip;
        },
        Some(r) => r,
    };
    let db_matches = match &r.quick_sig {
        Some(q) => str_eq(q.as_str(), sig.as_str()),
        None => false,
    };
    if !db_matches {
        return ContentAction::Skip;
    }
    let content_current = match &r.content_sig {
        Some(c) => str_eq(c.as_str(), sig.as_str()),
        None => false,
    };
    if content_current {
        return ContentAction::Skip;
    }
    let file_id = r.file_id;
    let e = match ext {
        None => {
            return ContentAction::StoreEmpty { file_id, sig };
        },
        Some(e) => e,
    };
    if !contains_str(allowed, e) || size < 0 || (size as u64) > max_read {
        return ContentAction::StoreEmpty { file_id, sig };
    }
    proof {
        reveal_strlit("pdf");
        reveal_strlit("txt");
        reveal_strlit("md");
        reveal_strlit("log");
        reveal_strlit("csv");
        reveal_strlit("json");
    }
    if str_eq(e, "pdf") {
        ContentAction::ExtractPdf { file_id, sig }
    } else if str_eq(e, "txt") || str_eq(e, "md") || str_eq(e, "log") || str_eq(e, "csv")
        || str_eq(e, "json") {
        ContentAction::ExtractPlainText { file_id, sig }
    } else {
        ContentAction::StoreEmpty { file_id, sig }
    }
}

/// The text that `String::from_utf8_lossy` decodes from `b`.
pub uninterp spec fn utf8_lossy(b: Seq<u8>) -> Seq<char>;

/// `String::from_utf8_lossy`: valid UTF-8 decodes to its characters; invalid
/// sequences become U+FFFD (left unsaid beyond the name).
#[verifier::external_body]
fn from_utf8_lossy(b: &[u8]) -> (r: String)
    ensures
        r@ == utf8_lossy(b@),
        vstd::utf8::valid_utf8(b@) ==> r@ == vstd::utf8::decode_utf8(b@),
{
    String::from_utf8_lossy(b).into_owned()
}

/// Normalized text of a plain-text file of `file_len` bytes, from its first bytes
/// `bytes`: `None` (the file is refused) when the file is longer than `max_read`,
/// otherwise the text of at most the first `max_read` bytes.
pub fn plain_text_from_bytes(file_len: u64, bytes: &[u8], max_read: u64) -> (r: Option<String>)
    ensures
        file_len > max_read ==> r is None,
        file_len <= max_read ==> (r matches Some(t) && t@ == normalized_text(utf8_lossy(bytes@.take(
            if bytes@.len() < max_read {
                bytes@.len() as int
            } else {
                max_read as int
            },
        )))),
{
    if file_len > max_read {
        return None;
    }
    let n: u64 = bytes.len() as u64;
    let take: usize = if n < max_read {
        bytes.len()
    } else {
        max_read as usize
    };
    let text = from_utf8_lossy(&bytes[0..take]);
    assert(bytes@.subrange(0, take as int) =~= bytes@.take(take as int));
    Some(normalize_text(text.as_str()))
}

/// Parameters of text indexing for a scan: `None` when it is off, otherwise the
/// allowed extensions and the per-file read cap.
pub fn content_indexing_params(settings: &AppSettings) -> (r: Option<(Vec<String>, u64)>)
    ensures
        !settings.content_indexing_enabled ==> r is None,
        settings.content_indexing_enabled ==> (r matches Some(p) && p.1
            == settings.content_max_bytes_per_file && (settings.content_index_extensions.len() == 0
            ==> views(p.0@) == seq!["pdf"@, "txt"@, "md"@, "csv"@, "json"@, "log"@]) && (
        settings.content_index_extensions.len() > 0 ==> views(p.0@) == normalized_extensions(
            views(settings.content_index_extensions@),
        ))),
{
    if !settings.content_indexing_enabled {
        return None;
    }
    let allowed = normalized_extension_list(settings);
    Some((allowed, settings.content_max_bytes_per_file as u64))
}

/// A file whose metadata is indexed but whose text is not current, within the read
/// cap, with an allowed plain-text extension (`txt`, `md`, `log`, `csv`, `json`)
/// has its text read, for its row and under its current signature.
pub proof fn plain_text_files_are_read(
    a: ContentAction,
    file_id: i64,
    stored: String,
    content_sig: Option<String>,
    size: i64,
    mtime_ns: i64,
    e: Seq<char>,
    allowed: Seq<Seq<char>>,
    max_read: u64,
)
    requires
        stored@ == signature(size, mtime_ns),
        opt_view(content_sig) != Some(signature(size, mtime_ns)),
        0 <= size <= max_read,
        allowed.contains(e),
        e == "txt"@ || e == "md"@ || e == "log"@ || e == "csv"@ || e == "json"@,
        content_plan_matches(
            a,
            Some(ContentRow { file_id, quick_sig: Some(stored), content_sig }),
            size,
            mtime_ns,
            Some(e),
            allowed,
            max_read,
        ),
    ensures
        a matches ContentAction::ExtractPlainText { file_id: f, sig } && f == file_id && sig@
            == signature(size, mtime_ns),
{
    reveal_strlit("pdf");
    reveal_strlit("txt");
    reveal_strlit("md");
    reveal_strlit("log");
    reveal_strlit("csv");
    reveal_strlit("json");
    assert(e != "pdf"@) by {
        if e == "pdf"@ {
            assert("pdf"@[0] == 'p' && "txt"@[0] == 't' && "md"@[0] == 'm' && "log"@[0] == 'l'
                && "csv"@[0] == 'c' && "json"@[0] == 'j');
        }
    }
}

/// A PDF file in the same situation has its text extracted.
pub proof fn pdf_files_are_extracted(
    a: ContentAction,
    file_id: i64,
    stored: String,
    content_sig: Option<String>,
    size: i64,
    mtime_ns: i64,
    allowed: Seq<Seq<char>>,
    max_read: u64,
)
    requires
        stored@ == signature(size, mtime_ns),
        opt_view(content_sig) != Some(signature(size, mtime_ns)),
        0 <= size <= max_read,
        allowed.contains("pdf"@),
        content_plan_matches(
            a,
            Some(ContentRow { file_id, quick_sig: Some(stored), content_sig }),
            size,
            mtime_ns,
            Some("pdf"@),
            allowed,
            max_read,
        ),
    ensures
        a matches ContentAction::ExtractPdf { file_id: f, sig } && f == file_id && sig@ == signature(
            size,
            mtime_ns,
        ),
{
}

/// No text work is done for a file with no row, a file whose row is stale (its
/// metadata was not just indexed) or whose text is already current.
pub proof fn settled_files_are_skipped(
    a: ContentAction,
    row: Option<ContentRow>,
    size: i64,
    mtime_ns: i64,
    ext: Option<Seq<char>>,
    allowed: Seq<Seq<char>>,
    max_read: u64,
)
    requires
        content_plan_matches(a, row, size, mtime_ns, ext, allowed, max_read),
        row is None || opt_view(row.unwrap().quick_sig) != Some(signature(size, mtime_ns))
            || opt_view(row.unwrap().content_sig) == Some(signature(size, mtime_ns)),
    ensures
        a is Skip,
{
}

/// A file due for text indexing but with no extension, an extension not allowed or
/// not readable as text, or a size outside `0..=max_read`, gets empty text under its
/// current signature, so it is not retried.
pub proof fn unreadable_files_get_empty_text(
    a: ContentAction,
    file_id: i64,
    stored: String,
    content_sig: Option<String>,
    size: i64,
    mtime_ns: i64,
    ext: Option<Seq<char>>,
    allowed: Seq<Seq<char>>,
    max_read: u64,
)
    requires
        stored@ == signature(size, mtime_ns),
        opt_view(content_sig) != Some(signature(size, mtime_ns)),
        ext is None || !allowed.contains(ext.unwrap()) || size < 0 || size > max_read || !(
        ext.unwrap() == "pdf"@ || ext.unwrap() == "txt"@ || ext.unwrap() == "md"@ || ext.unwrap()
            == "log"@ || ext.unwrap() == "csv"@ || ext.unwrap() == "json"@),
        content_plan_matches(
            a,
            Some(ContentRow { file_id, quick_sig: Some(stored), content_sig }),
            size,
            mtime_ns,
            ext,
            allowed,
            max_read,
        ),
    ensures
        a matches ContentAction::StoreEmpty { file_id: f, sig } && f == file_id && sig@ == signature(
            size,
            mtime_ns,
        ),
{
}

} // verus!
