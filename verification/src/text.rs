//! Character-level string helpers shared by the rest of the library.

use vstd::prelude::*;

verus! {

/// The Unicode `White_Space` property, as used by `char::is_whitespace`.
pub open spec fn is_ws(c: char) -> bool {
    let u = c as u32;
    ||| 0x09 <= u <= 0x0d
    ||| u == 0x20
    ||| u == 0x85
    ||| u == 0xa0
    ||| u == 0x1680
    ||| 0x2000 <= u <= 0x200a
    ||| u == 0x2028
    ||| u == 0x2029
    ||| u == 0x202f
    ||| u == 0x205f
    ||| u == 0x3000
}

/// Executable test for the `White_Space` property.
pub fn char_is_whitespace(c: char) -> (r: bool)
    ensures
        r == is_ws(c),
{
    let u = c as u32;
    (0x09 <= u && u <= 0x0d) || u == 0x20 || u == 0x85 || u == 0xa0 || u == 0x1680 || (0x2000
        <= u && u <= 0x200a) || u == 0x2028 || u == 0x2029 || u == 0x202f || u == 0x205f || u
        == 0x3000
}

/// The characters of a string, in order.
pub fn chars_of(s: &str) -> (v: Vec<char>)
    ensures
        v@ == s@,
{
    let mut v: Vec<char> = Vec::new();
    for c in it: s.chars()
        invariant
            v@ == it.seq().take(it.index() as int),
    {
        v.push(c);
    }
    v
}


/// Leading whitespace removed.
pub open spec fn trim_start(s: Seq<char>) -> Seq<char>
    decreases s.len(),
{
    if s.len() > 0 && is_ws(s[0]) {
        trim_start(s.drop_first())
    } else {
        s
    }
}

/// Trailing whitespace removed.
pub open spec fn trim_end(s: Seq<char>) -> Seq<char>
    decreases s.len(),
{
    if s.len() > 0 && is_ws(s.last()) {
        trim_end(s.drop_last())
    } else {
        s
    }
}

/// Leading and trailing whitespace removed, as `str::trim` does.
pub open spec fn trim(s: Seq<char>) -> Seq<char> {
    trim_end(trim_start(s))
}

/// A sequence that neither starts nor ends with whitespace.
pub open spec fn is_trimmed(s: Seq<char>) -> bool {
    s.len() > 0 ==> !is_ws(s[0]) && !is_ws(s.last())
}

pub proof fn lemma_trim_start_skip(s: Seq<char>, i: int)
    requires
        0 <= i <= s.len(),
        forall|k: int| 0 <= k < i ==> is_ws(#[trigger] s[k]),
    ensures
        trim_start(s) == trim_start(s.skip(i)),
    decreases i,
{
    if i > 0 {
        assert(is_ws(s[0]));
        assert(s.drop_first().skip(i - 1) =~= s.skip(i));
        assert forall|k: int| 0 <= k < i - 1 implies is_ws(#[trigger] s.drop_first()[k]) by {
            assert(s.drop_first()[k] == s[k + 1]);
        }
        lemma_trim_start_skip(s.drop_first(), i - 1);
    } else {
        assert(s.skip(0) =~= s);
    }
}

pub proof fn lemma_trim_end_take(s: Seq<char>, j: int)
    requires
        0 <= j <= s.len(),
        forall|k: int| j <= k < s.len() ==> is_ws(#[trigger] s[k]),
    ensures
        trim_end(s) == trim_end(s.take(j)),
    decreases s.len() - j,
{
    if j < s.len() {
        assert(is_ws(s[s.len() - 1]));
        assert(s.drop_last().take(j) =~= s.take(j));
        assert forall|k: int| j <= k < s.len() - 1 implies is_ws(#[trigger] s.drop_last()[k]) by {
            assert(s.drop_last()[k] == s[k]);
        }
        lemma_trim_end_take(s.drop_last(), j);
    } else {
        assert(s.take(j) =~= s);
    }
}

/// `trim_start` leaves a sequence that does not start with whitespace, and is a suffix.
pub proof fn lemma_trim_start_props(s: Seq<char>)
    ensures
        trim_start(s).len() > 0 ==> !is_ws(trim_start(s)[0]),
        trim_start(s).len() <= s.len(),
        trim_start(s) =~= s.skip(s.len() - trim_start(s).len()),
        forall|k: int| 0 <= k < s.len() - trim_start(s).len() ==> is_ws(#[trigger] s[k]),
    decreases s.len(),
{
    if s.len() > 0 && is_ws(s[0]) {
        lemma_trim_start_props(s.drop_first());
        let t = trim_start(s.drop_first());
        assert(s.drop_first().skip(s.drop_first().len() - t.len()) =~= s.skip(s.len() - t.len()));
        assert forall|k: int| 0 <= k < s.len() - t.len() implies is_ws(#[trigger] s[k]) by {
            if k > 0 {
                assert(s[k] == s.drop_first()[k - 1]);
            }
        }
    } else {
        assert(s.skip(0) =~= s);
    }
}

/// `trim_end` leaves a sequence that does not end with whitespace, and is a prefix.
pub proof fn lemma_trim_end_props(s: Seq<char>)
    ensures
        trim_end(s).len() > 0 ==> !is_ws(trim_end(s).last()),
        trim_end(s).len() <= s.len(),
        trim_end(s) =~= s.take(trim_end(s).len() as int),
        forall|k: int| trim_end(s).len() <= k < s.len() ==> is_ws(#[trigger] s[k]),
    decreases s.len(),
{
    if s.len() > 0 && is_ws(s.last()) {
        lemma_trim_end_props(s.drop_last());
        let t = trim_end(s.drop_last());
        assert(s.drop_last().take(t.len() as int) =~= s.take(t.len() as int));
        assert forall|k: int| t.len() <= k < s.len() implies is_ws(#[trigger] s[k]) by {
            if k < s.len() - 1 {
                assert(s[k] == s.drop_last()[k]);
            }
        }
    } else {
        assert(s.take(s.len() as int) =~= s);
    }
}

pub proof fn lemma_trim_end_keeps_start(s: Seq<char>)
    requires
        s.len() > 0 ==> !is_ws(s[0]),
    ensures
        trim_end(s).len() > 0 ==> trim_end(s)[0] == s[0],
        trim_end(s).len() == 0 ==> s.len() == 0,
{
    lemma_trim_end_props(s);
}

/// The result of `trim` neither starts nor ends with whitespace.
pub proof fn lemma_trim_is_trimmed(s: Seq<char>)
    ensures
        is_trimmed(trim(s)),
        trim(s).len() <= s.len(),
{
    lemma_trim_start_props(s);
    lemma_trim_end_props(trim_start(s));
    lemma_trim_end_keeps_start(trim_start(s));
}

/// A trimmed sequence is its own trim.
pub proof fn lemma_trim_of_trimmed(s: Seq<char>)
    requires
        is_trimmed(s),
    ensures
        trim(s) == s,
{
}

/// Trimming twice is trimming once.
pub proof fn lemma_trim_idempotent(s: Seq<char>)
    ensures
        trim(trim(s)) == trim(s),
{
    lemma_trim_is_trimmed(s);
    lemma_trim_of_trimmed(trim(s));
}

/// Appends one character to a string (`String::push`).
#[verifier::external_body]
pub(crate) fn push_char(s: &mut String, c: char)
    ensures
        final(s)@ == old(s)@.push(c),
{
    s.push(c);
}

/// Builds a string from a slice of characters (`String::from_iter`).
#[verifier::external_body]
pub(crate) fn string_from_chars(v: &[char]) -> (r: String)
    ensures
        r@ == v@,
{
    String::from_iter(v.iter())
}

/// Index of the first non-whitespace character at or after `i`, or `v.len()`.
fn skip_ws_from(v: &Vec<char>, i: usize) -> (j: usize)
    requires
        i <= v.len(),
    ensures
        i <= j <= v.len(),
        forall|k: int| i <= k < j ==> is_ws(#[trigger] v@[k]),
        j < v.len() ==> !is_ws(v@[j as int]),
{
    let mut j = i;
    while j < v.len() && char_is_whitespace(v[j])
        invariant
            i <= j <= v.len(),
            forall|k: int| i <= k < j ==> is_ws(#[trigger] v@[k]),
        decreases v.len() - j,
    {
        j = j + 1;
    }
    j
}

/// Bounds of `trim` within `v`: the result is `v[a..b]`.
pub fn trim_bounds(v: &Vec<char>) -> (r: (usize, usize))
    ensures
        r.0 <= r.1 <= v.len(),
        v@.subrange(r.0 as int, r.1 as int) == trim(v@),
{
    let a = skip_ws_from(v, 0);
    let mut b = v.len();
    while b > a && char_is_whitespace(v[b - 1])
        invariant
            a <= b <= v.len(),
            forall|k: int| b <= k < v.len() ==> is_ws(#[trigger] v@[k]),
        decreases b,
    {
        b = b - 1;
    }
    proof {
        let s = v@;
        lemma_trim_start_skip(s, a as int);
        if (a as int) < s.len() {
            assert(trim_start(s.skip(a as int)) == s.skip(a as int));
        } else {
            assert(s.skip(a as int).len() == 0);
        }
        let t = s.skip(a as int);
        assert forall|k: int| b - a <= k < t.len() implies is_ws(#[trigger] t[k]) by {
            assert(t[k] == s[k + a]);
        }
        lemma_trim_end_take(t, b - a);
        let u = t.take(b - a);
        if b > a {
            assert(u.last() == s[b - 1]);
            assert(trim_end(u) == u);
        }
        assert(u =~= s.subrange(a as int, b as int));
    }
    (a, b)
}

/// `str::trim`, as an owned string.
pub fn trim_str(s: &str) -> (r: String)
    ensures
        r@ == trim(s@),
{
    let v = chars_of(s);
    let (a, b) = trim_bounds(&v);
    string_from_chars(&v.as_slice()[a..b])
}


/// Every occurrence of `from` replaced by `to`.
pub open spec fn replace_char(s: Seq<char>, from: char, to: char) -> Seq<char> {
    s.map_values(|c: char| if c == from { to } else { c })
}

/// `s` with every `from` replaced by `to` (`str::replace` with one-character patterns).
pub fn replace_char_str(s: &str, from: char, to: char) -> (r: String)
    ensures
        r@ == replace_char(s@, from, to),
{
    let mut out = String::new();
    for c in it: s.chars()
        invariant
            out@ == replace_char(it.seq().take(it.index() as int), from, to),
    {
        let ghost before = it.seq().take(it.index() as int);
        if c == from {
            push_char(&mut out, to);
        } else {
            push_char(&mut out, c);
        }
        proof {
            assert(it.seq().take(it.index() + 1) =~= before.push(c));
            assert(replace_char(before.push(c), from, to) =~= replace_char(before, from, to).push(
                if c == from { to } else { c },
            ));
        }
    }
    out
}


/// What `str::to_lowercase` returns for `s` (Unicode lowercase mapping).
pub uninterp spec fn lowercase(s: Seq<char>) -> Seq<char>;

/// `str::to_lowercase`: the Unicode lowercase equivalent of `s`. The contract names
/// the result and states nothing more of it.
#[verifier::external_body]
pub(crate) fn to_lowercase_str(s: &str) -> (r: String)
    ensures
        r@ == lowercase(s@),
{
    s.to_lowercase()
}


/// The decimal digit character for `d < 10`.
pub open spec fn digit_char(d: nat) -> char {
    if d == 0 {
        '0'
    } else if d == 1 {
        '1'
    } else if d == 2 {
        '2'
    } else if d == 3 {
        '3'
    } else if d == 4 {
        '4'
    } else if d == 5 {
        '5'
    } else if d == 6 {
        '6'
    } else if d == 7 {
        '7'
    } else if d == 8 {
        '8'
    } else {
        '9'
    }
}

/// Decimal digits of `n`, most significant first, without leading zeros.
pub open spec fn digits(n: nat) -> Seq<char>
    decreases n,
{
    if n < 10 {
        seq![digit_char(n)]
    } else {
        digits(n / 10).push(digit_char(n % 10))
    }
}

/// `n` written in decimal, with a leading `-` when negative (`i64`'s `Display`).
pub open spec fn decimal(n: int) -> Seq<char> {
    if n < 0 {
        seq!['-'] + digits((-n) as nat)
    } else {
        digits(n as nat)
    }
}

pub open spec fn is_digit_char(c: char) -> bool {
    exists|d: nat| d < 10 && c == digit_char(d)
}

pub proof fn lemma_digits_props(n: nat)
    ensures
        digits(n).len() >= 1,
        digits(n).len() == 1 <==> n < 10,
        forall|k: int| 0 <= k < digits(n).len() ==> is_digit_char(#[trigger] digits(n)[k]),
    decreases n,
{
    if n >= 10 {
        lemma_digits_props(n / 10);
        let d = digits(n / 10);
        assert forall|k: int| 0 <= k < digits(n).len() implies is_digit_char(
            #[trigger] digits(n)[k],
        ) by {
            if k < d.len() {
                assert(digits(n)[k] == d[k]);
            } else {
                assert(digits(n)[k] == digit_char(n % 10));
            }
        }
    } else {
        assert(digits(n)[0] == digit_char(n));
    }
}

/// Different numbers have different digit strings.
pub proof fn lemma_digits_injective(n: nat, m: nat)
    requires
        digits(n) == digits(m),
    ensures
        n == m,
    decreases n,
{
    lemma_digits_props(n);
    lemma_digits_props(m);
    if n < 10 {
        assert(m < 10);
        assert(digits(n)[0] == digit_char(n));
        assert(digits(m)[0] == digit_char(m));
    } else {
        assert(m >= 10);
        assert(digits(n).last() == digit_char(n % 10));
        assert(digits(m).last() == digit_char(m % 10));
        assert(digits(n).drop_last() =~= digits(n / 10));
        assert(digits(m).drop_last() =~= digits(m / 10));
        lemma_digits_injective(n / 10, m / 10);
    }
}

/// A decimal rendering holds only a sign and digits; different numbers differ.
pub proof fn lemma_decimal_props(n: int)
    ensures
        !decimal(n).contains(':'),
        decimal(n).len() >= 1,
{
    if n < 0 {
        lemma_digits_props((-n) as nat);
        if decimal(n).contains(':') {
            let k = choose|k: int| 0 <= k < decimal(n).len() && decimal(n)[k] == ':';
            if k > 0 {
                assert(decimal(n)[k] == digits((-n) as nat)[k - 1]);
            }
        }
    } else {
        lemma_digits_props(n as nat);
        if decimal(n).contains(':') {
            let k = choose|k: int| 0 <= k < decimal(n).len() && decimal(n)[k] == ':';
            assert(is_digit_char(digits(n as nat)[k]));
        }
    }
}

pub proof fn lemma_decimal_injective(n: int, m: int)
    requires
        decimal(n) == decimal(m),
    ensures
        n == m,
{
    if n < 0 {
        lemma_digits_props((-n) as nat);
    } else {
        lemma_digits_props(n as nat);
    }
    if m < 0 {
        lemma_digits_props((-m) as nat);
    } else {
        lemma_digits_props(m as nat);
    }
    if n < 0 && m < 0 {
        assert(decimal(n).drop_first() =~= digits((-n) as nat));
        assert(decimal(m).drop_first() =~= digits((-m) as nat));
        lemma_digits_injective((-n) as nat, (-m) as nat);
    } else if n >= 0 && m >= 0 {
        lemma_digits_injective(n as nat, m as nat);
    } else if n < 0 {
        assert(decimal(n)[0] == '-');
        assert(is_digit_char(digits(m as nat)[0]));
    } else {
        assert(decimal(m)[0] == '-');
        assert(is_digit_char(digits(n as nat)[0]));
    }
}

/// Appends the decimal digits of `n`.
pub fn push_digits(out: &mut String, n: u64)
    ensures
        final(out)@ == old(out)@ + digits(n as nat),
    decreases n,
{
    if n >= 10 {
        push_digits(out, n / 10);
    }
    let d = (n % 10) as u32;
    let c = char_from_digit(d);
    push_char(out, c);
    assert(digits(n as nat) =~= if n < 10 {
        seq![digit_char(n as nat)]
    } else {
        digits((n / 10) as nat).push(digit_char((n % 10) as nat))
    });
}

/// The character of a decimal digit.
fn char_from_digit(d: u32) -> (c: char)
    requires
        d < 10,
    ensures
        c == digit_char(d as nat),
{
    match d {
        0 => '0',
        1 => '1',
        2 => '2',
        3 => '3',
        4 => '4',
        5 => '5',
        6 => '6',
        7 => '7',
        8 => '8',
        _ => '9',
    }
}

/// Appends `n` in decimal, as `format!("{n}")` renders an `i64`.
pub fn push_i64(out: &mut String, n: i64)
    ensures
        final(out)@ == old(out)@ + decimal(n as int),
{
    if n < 0 {
        push_char(out, '-');
        let m: u64 = ((-(n + 1)) as u64) + 1;
        push_digits(out, m);
    } else {
        push_digits(out, n as u64);
    }
}

/// `s` starts with `p`.
pub open spec fn has_prefix(s: Seq<char>, p: Seq<char>) -> bool {
    s.len() >= p.len() && s.take(p.len() as int) == p
}

/// Whether `v` starts with the characters of `p`.
pub fn starts_with_chars(v: &Vec<char>, p: &str) -> (r: bool)
    ensures
        r == has_prefix(v@, p@),
{
    let pv = chars_of(p);
    if pv.len() > v.len() {
        return false;
    }
    let mut i: usize = 0;
    while i < pv.len()
        invariant
            pv@ == p@,
            pv.len() <= v.len(),
            i <= pv.len(),
            forall|k: int| 0 <= k < i ==> v@[k] == pv@[k],
        decreases pv.len() - i,
    {
        if v[i] != pv[i] {
            assert(v@.take(pv.len() as int)[i as int] != p@[i as int]);
            return false;
        }
        i = i + 1;
    }
    assert(v@.take(pv.len() as int) =~= p@);
    true
}

} // verus!
