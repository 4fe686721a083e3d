//! Path text handed to Explorer when revealing a file.

use vstd::prelude::*;

use crate::text::{chars_of, has_prefix, push_char, starts_with_chars, string_from_chars};

verus! {

/// The form Explorer accepts for a canonical path: a verbatim UNC prefix
/// `\\?\UNC\` becomes `\\`, a verbatim prefix `\\?\` is dropped, anything else is kept.
pub open spec fn explorer_path(s: Seq<char>) -> Seq<char> {
    let unc = seq!['\\', '\\', '?', '\\', 'U', 'N', 'C', '\\'];
    let verbatim = seq!['\\', '\\', '?', '\\'];
    if has_prefix(s, unc) {
        seq!['\\', '\\'] + s.skip(8)
    } else if has_prefix(s, verbatim) {
        s.skip(4)
    } else {
        s
    }
}

/// Normalize a canonical path (which on Windows has a verbatim `\\?\` prefix) for Explorer.
pub fn path_string_for_explorer_select(canon: &str) -> (r: String)
    ensures
        r@ == explorer_path(canon@),
{
    let v = chars_of(canon);
    proof {
        reveal_strlit("\\\\?\\UNC\\");
        reveal_strlit("\\\\?\\");
        assert("\\\\?\\UNC\\"@ =~= seq!['\\', '\\', '?', '\\', 'U', 'N', 'C', '\\']);
        assert("\\\\?\\"@ =~= seq!['\\', '\\', '?', '\\']);
    }
    if starts_with_chars(&v, "\\\\?\\UNC\\") {
        let mut r = String::new();
        push_char(&mut r, '\\');
        push_char(&mut r, '\\');
        let rest = string_from_chars(&v.as_slice()[8..v.len()]);
        r.append(rest.as_str());
        assert(rest@ =~= canon@.skip(8));
        r
    } else if starts_with_chars(&v, "\\\\?\\") {
        let r = string_from_chars(&v.as_slice()[4..v.len()]);
        assert(r@ =~= canon@.skip(4));
        r
    } else {
        string_from_chars(v.as_slice())
    }
}

/// `s` with every `"` removed.
pub open spec fn without_quotes(s: Seq<char>) -> Seq<char>
    decreases s.len(),
{
    if s.len() == 0 {
        seq![]
    } else {
        without_quotes(s.drop_last()) + if s.last() == '"' {
            seq![]
        } else {
            seq![s.last()]
        }
    }
}

/// The parameters of `explorer /select,"<path>"`, with quotes removed from the path.
pub fn explorer_select_params(select_path: &str) -> (r: String)
    ensures
        r@ == "/select,\""@ + without_quotes(select_path@) + seq!['"'],
{
    let mut r = String::from_str("/select,\"");
    let ghost start = r@;
    let v = chars_of(select_path);
    let mut i: usize = 0;
    while i < v.len()
        invariant
            v@ == select_path@,
            i <= v.len(),
            r@ == start + without_quotes(v@.take(i as int)),
        decreases v.len() - i,
    {
        if v[i] != '"' {
            push_char(&mut r, v[i]);
        }
        assert(v@.take(i + 1).drop_last() =~= v@.take(i as int));
        i = i + 1;
    }
    assert(v@.take(v.len() as int) =~= v@);
    push_char(&mut r, '"');
    r
}

} // verus!
