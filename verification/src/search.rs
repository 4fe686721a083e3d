//! Query construction for the full-text index and the browse listing.

use vstd::prelude::*;

use crate::db::contains_run;
use crate::dto::SearchHit;
use crate::path_norm::join_root_rel;
use crate::text::{
    chars_of, char_is_whitespace, is_ws, lemma_trim_is_trimmed, lemma_trim_start_props, lowercase,
    push_char, string_from_chars, to_lowercase_str, trim, trim_end, trim_start, trim_str,
};

verus! {

/// Words of `s` separated by runs of whitespace, as `str::split_whitespace` yields
/// them; `cur` is the word being read and `acc` the words already complete.
pub open spec fn words_from(s: Seq<char>, cur: Seq<char>, acc: Seq<Seq<char>>) -> Seq<Seq<char>>
    decreases s.len(),
{
    if s.len() == 0 {
        if cur.len() > 0 {
            acc.push(cur)
        } else {
            acc
        }
    } else if is_ws(s[0]) {
        words_from(s.drop_first(), seq![], if cur.len() > 0 { acc.push(cur) } else { acc })
    } else {
        words_from(s.drop_first(), cur.push(s[0]), acc)
    }
}

/// The whitespace-separated words of `s`.
pub open spec fn words(s: Seq<char>) -> Seq<Seq<char>> {
    words_from(s, seq![], seq![])
}

/// `t` with every `"` doubled, as FTS5 string literals escape quotes.
pub open spec fn double_quotes(t: Seq<char>) -> Seq<char>
    decreases t.len(),
{
    if t.len() == 0 {
        seq![]
    } else {
        double_quotes(t.drop_last()) + if t.last() == '"' {
            seq!['"', '"']
        } else {
            seq![t.last()]
        }
    }
}

/// One search word as an FTS5 phrase: quoted, with inner quotes doubled.
pub open spec fn fts_phrase(t: Seq<char>) -> Seq<char> {
    seq!['"'] + double_quotes(t) + seq!['"']
}

/// The phrases of `ws` joined by ` AND `.
pub open spec fn and_join(ws: Seq<Seq<char>>) -> Seq<char>
    decreases ws.len(),
{
    if ws.len() == 0 {
        seq![]
    } else if ws.len() == 1 {
        fts_phrase(ws[0])
    } else {
        and_join(ws.drop_last()) + seq![' ', 'A', 'N', 'D', ' '] + fts_phrase(ws.last())
    }
}

/// The FTS5 query built from `raw`: every word quoted, all words required.
pub open spec fn fts_query(raw: Seq<char>) -> Seq<char> {
    and_join(words(raw))
}

/// Why a query could not be built.
#[derive(Debug, Clone, Copy, PartialEq, Eq)]
pub enum QueryError {
    /// The query holds no word.
    EmptyQuery,
}

proof fn lemma_words_from_empty(s: Seq<char>, cur: Seq<char>, acc: Seq<Seq<char>>)
    ensures
        words_from(s, cur, acc).len() >= acc.len(),
        words_from(s, cur, acc).len() == 0 <==> (acc.len() == 0 && cur.len() == 0 && forall|k: int|
            0 <= k < s.len() ==> is_ws(#[trigger] s[k])),
    decreases s.len(),
{
    if s.len() > 0 {
        let nacc = if cur.len() > 0 { acc.push(cur) } else { acc };
        if is_ws(s[0]) {
            lemma_words_from_empty(s.drop_first(), seq![], nacc);
        } else {
            lemma_words_from_empty(s.drop_first(), cur.push(s[0]), acc);
        }
        if forall|k: int| 0 <= k < s.drop_first().len() ==> is_ws(#[trigger] s.drop_first()[k]) {
            if is_ws(s[0]) {
                assert forall|k: int| 0 <= k < s.len() implies is_ws(#[trigger] s[k]) by {
                    if k > 0 {
                        assert(s[k] == s.drop_first()[k - 1]);
                    }
                }
            }
        }
        if forall|k: int| 0 <= k < s.len() ==> is_ws(#[trigger] s[k]) {
            assert(is_ws(s[0]));
            assert forall|k: int| 0 <= k < s.drop_first().len() implies is_ws(
                #[trigger] s.drop_first()[k],
            ) by {
                assert(s.drop_first()[k] == s[k + 1]);
            }
        }
    }
}

/// A string has words exactly when trimming leaves something.
pub proof fn lemma_words_nonempty_iff_trim_nonempty(s: Seq<char>)
    ensures
        words(s).len() > 0 <==> trim(s).len() > 0,
{
    lemma_words_from_empty(s, seq![], seq![]);
    lemma_trim_start_props(s);
    crate::text::lemma_trim_end_keeps_start(trim_start(s));
    if trim_start(s).len() == 0 {
        assert(trim_end(trim_start(s)).len() == 0);
    } else {
        let k = s.len() - trim_start(s).len();
        assert(!is_ws(s[k]));
    }
}

/// The words of `s` as character vectors.
fn split_words(s: &str) -> (r: Vec<Vec<char>>)
    ensures
        r@.map_values(|w: Vec<char>| w@) == words(s@),
{
    let v = chars_of(s);
    let mut acc: Vec<Vec<char>> = Vec::new();
    let mut cur: Vec<char> = Vec::new();
    let mut i: usize = 0;
    assert(v@.skip(0) =~= v@);
    assert(acc@.map_values(|w: Vec<char>| w@) =~= Seq::<Seq<char>>::empty());
    assert(cur@ =~= Seq::<char>::empty());
    while i < v.len()
        invariant
            v@ == s@,
            i <= v.len(),
            words_from(v@.skip(i as int), cur@, acc@.map_values(|w: Vec<char>| w@)) == words(s@),
        decreases v.len() - i,
    {
        let c = v[i];
        let ghost rest = v@.skip(i as int);
        let ghost acc0 = acc@.map_values(|w: Vec<char>| w@);
        assert(rest[0] == c);
        assert(rest.drop_first() =~= v@.skip(i + 1));
        if char_is_whitespace(c) {
            if cur.len() > 0 {
                let w = cur;
                acc.push(w);
                cur = Vec::new();
                assert(acc@.map_values(|w: Vec<char>| w@) =~= acc0.push(w@));
            }
            assert(cur@ =~= seq![]);
        } else {
            cur.push(c);
        }
        i = i + 1;
    }
    let ghost acc0 = acc@.map_values(|w: Vec<char>| w@);
    assert(v@.skip(i as int).len() == 0);
    if cur.len() > 0 {
        let w = cur;
        acc.push(w);
        assert(acc@.map_values(|w: Vec<char>| w@) =~= acc0.push(w@));
    }
    acc
}

/// Appends the FTS5 phrase for `w` to `out`.
fn push_phrase(out: &mut String, w: &Vec<char>)
    ensures
        final(out)@ == old(out)@ + fts_phrase(w@),
{
    push_char(out, '"');
    let ghost start = out@;
    let mut i: usize = 0;
    while i < w.len()
        invariant
            i <= w.len(),
            out@ == start + double_quotes(w@.take(i as int)),
        decreases w.len() - i,
    {
        let c = w[i];
        if c == '"' {
            push_char(out, '"');
            push_char(out, '"');
        } else {
            push_char(out, c);
        }
        assert(w@.take(i + 1).drop_last() =~= w@.take(i as int));
        i = i + 1;
    }
    assert(w@.take(w.len() as int) =~= w@);
    push_char(out, '"');
}

/// Quote every word of `raw` and join them with ` AND `.
pub fn build_fts_query(raw: &str) -> (r: Result<String, QueryError>)
    ensures
        words(raw@).len() == 0 ==> r == Err::<String, QueryError>(QueryError::EmptyQuery),
        words(raw@).len() > 0 ==> (r matches Ok(q) && q@ == fts_query(raw@)),
{
    let ws = split_words(raw);
    let ghost wv = ws@.map_values(|w: Vec<char>| w@);
    if ws.len() == 0 {
        return Err(QueryError::EmptyQuery);
    }
    let mut out = String::new();
    push_phrase(&mut out, &ws[0]);
    assert(wv.take(1).drop_last() =~= wv.take(0));
    let mut i: usize = 1;
    while i < ws.len()
        invariant
            1 <= i <= ws.len(),
            wv == ws@.map_values(|w: Vec<char>| w@),
            out@ == and_join(wv.take(i as int)),
        decreases ws.len() - i,
    {
        push_char(&mut out, ' ');
        push_char(&mut out, 'A');
        push_char(&mut out, 'N');
        push_char(&mut out, 'D');
        push_char(&mut out, ' ');
        push_phrase(&mut out, &ws[i]);
        assert(wv.take(i + 1).drop_last() =~= wv.take(i as int));
        i = i + 1;
    }
    assert(wv.take(ws.len() as int) =~= wv);
    Ok(out)
}


/// `t` without one leading `.`, if it has one.
pub open spec fn strip_one_dot(t: Seq<char>) -> Seq<char> {
    if t.len() > 0 && t[0] == '.' {
        t.drop_first()
    } else {
        t
    }
}

/// The SQL `LIKE` pattern for an extension filter: empty (no filter) when the
/// filter is absent or blank, otherwise `%.` and the lowercased extension.
pub open spec fn like_pattern_of(extension_filter: Option<&str>) -> Seq<char> {
    match extension_filter {
        None => seq![],
        Some(raw) => {
            let t = trim(raw@);
            if t.len() == 0 {
                seq![]
            } else {
                seq!['%', '.'] + lowercase(strip_one_dot(t))
            }
        },
    }
}

/// `%.` followed by an already lowercased extension.
pub fn like_pattern_from_lowercase(ext: &str) -> (r: String)
    ensures
        r@ == seq!['%', '.'] + ext@,
{
    let mut r = String::new();
    push_char(&mut r, '%');
    push_char(&mut r, '.');
    r.append(ext);
    r
}

/// `None` or blank: no filter (empty pattern). Otherwise `%.ext` for SQL `LIKE`,
/// with one leading dot dropped and the extension lowercased.
pub fn extension_like_pattern(extension_filter: Option<&str>) -> (r: String)
    ensures
        r@ == like_pattern_of(extension_filter),
{
    match extension_filter {
        None => String::new(),
        Some(raw) => {
            let t = trim_str(raw);
            let v = chars_of(t.as_str());
            if v.len() == 0 {
                return String::new();
            }
            let e = if v[0] == '.' {
                string_from_chars(&v.as_slice()[1..v.len()])
            } else {
                t
            };
            assert(e@ =~= strip_one_dot(trim(raw@)));
            let lowered = to_lowercase_str(e.as_str());
            like_pattern_from_lowercase(lowered.as_str())
        },
    }
}

/// How a search is run: a browse listing when the query is blank, otherwise a
/// full-text match; both filter by the extension pattern.
#[derive(Debug, Clone)]
pub enum SearchPlan {
    Browse { ext_pattern: String },
    FullText { fts_query: String, ext_pattern: String },
}

/// Chooses between browse and full-text search for `raw_query`.
pub fn plan_search(raw_query: &str, extension_filter: Option<&str>) -> (p: SearchPlan)
    ensures
        trim(raw_query@).len() == 0 ==> (p matches SearchPlan::Browse { ext_pattern }
            && ext_pattern@ == like_pattern_of(extension_filter)),
        trim(raw_query@).len() > 0 ==> (p matches SearchPlan::FullText { fts_query: q, ext_pattern }
            && q@ == fts_query(trim(raw_query@)) && ext_pattern@ == like_pattern_of(
            extension_filter,
        )),
{
    let ext_pattern = extension_like_pattern(extension_filter);
    let q = trim_str(raw_query);
    let v = chars_of(q.as_str());
    if v.len() == 0 {
        return SearchPlan::Browse { ext_pattern };
    }
    proof {
        lemma_trim_is_trimmed(raw_query@);
        crate::text::lemma_trim_idempotent(raw_query@);
        lemma_words_nonempty_iff_trim_nonempty(q@);
    }
    match build_fts_query(q.as_str()) {
        Ok(fts_query) => SearchPlan::FullText { fts_query, ext_pattern },
        Err(_) => SearchPlan::Browse { ext_pattern },
    }
}

/// Result-window and filters of a search request after bounds are applied.
#[derive(Debug, Clone)]
pub struct SearchRequest {
    pub limit: i64,
    pub offset: i64,
    pub extension_filter: Option<String>,
    pub modified_from_ns: Option<i64>,
    pub modified_to_ns: Option<i64>,
}

/// Why a search request was refused.
#[derive(Debug, Clone, Copy, PartialEq, Eq)]
pub enum SearchError {
    /// The modification-time range starts after it ends.
    InvalidDateRange,
}

/// Limit clamped to 1..=2000, negative offset raised to 0, blank filter dropped and
/// a present filter trimmed; a time range whose start is after its end is refused.
pub fn normalize_search_request(
    limit: i64,
    offset: i64,
    extension_filter: Option<String>,
    modified_from_ns: Option<i64>,
    modified_to_ns: Option<i64>,
) -> (r: Result<SearchRequest, SearchError>)
    ensures
        (modified_from_ns matches Some(f) && modified_to_ns matches Some(t) && f > t) ==> r
            == Err::<SearchRequest, SearchError>(SearchError::InvalidDateRange),
        !(modified_from_ns matches Some(f) && modified_to_ns matches Some(t) && f > t) ==> (r matches Ok(
            q,
        ) && q.limit == (if limit < 1 {
            1
        } else if limit > 2000 {
            2000
        } else {
            limit
        }) && q.offset == (if offset < 0 {
            0
        } else {
            offset
        }) && q.modified_from_ns == modified_from_ns && q.modified_to_ns == modified_to_ns && (
        extension_filter is None ==> q.extension_filter is None) && (extension_filter matches Some(
            f,
        ) ==> (if trim(f@).len() == 0 {
            q.extension_filter is None
        } else {
            q.extension_filter matches Some(g) && g@ == trim(f@)
        }))),
{
    match (modified_from_ns, modified_to_ns) {
        (Some(f), Some(t)) => {
            if f > t {
                return Err(SearchError::InvalidDateRange);
            }
        },
        _ => {},
    }
    let lim = if limit < 1 {
        1
    } else if limit > 2000 {
        2000
    } else {
        limit
    };
    let off = if offset < 0 {
        0
    } else {
        offset
    };
    let ext = match extension_filter {
        None => None,
        Some(f) => {
            let t = trim_str(f.as_str());
            if t.as_str().is_empty() {
                None
            } else {
                Some(t)
            }
        },
    };
    Ok(SearchRequest { limit: lim, offset: off, extension_filter: ext, modified_from_ns, modified_to_ns })
}

/// A result row: the stored fields plus the absolute path of the file.
pub fn search_hit_from_row(id: i64, rel_path: String, size: i64, mtime_ns: i64, root_path: String) -> (h:
    SearchHit)
    ensures
        h.id == id,
        h.path == rel_path,
        h.size == size,
        h.mtime_ns == mtime_ns,
        h.root_path == root_path,
        exists|rs: char, js: char|
            crate::path_norm::joined_root_rel(root_path@, rel_path@, rs, js, h.full_path@),
{
    let rs_str = root_path.as_str();
    let rl_str = rel_path.as_str();
    let full_path = join_root_rel(rs_str, rl_str);
    assert(rs_str@ == root_path@ && rl_str@ == rel_path@);
    let ghost (rs, js) = choose|rs: char, js: char|
        crate::path_norm::joined_root_rel(root_path@, rel_path@, rs, js, full_path@);
    let h = SearchHit { id, path: rel_path, full_path, size, mtime_ns, root_path };
    assert(crate::path_norm::joined_root_rel(h.root_path@, h.path@, rs, js, h.full_path@));
    h
}

proof fn lemma_and_join_has_phrase(ws: Seq<Seq<char>>, k: int)
    requires
        0 <= k < ws.len(),
    ensures
        contains_run(and_join(ws), fts_phrase(ws[k])),
    decreases ws.len(),
{
    let ph = fts_phrase(ws[k]);
    if ws.len() == 1 {
        assert(and_join(ws).subrange(0int, 0int + ph.len()) =~= ph);
    } else {
        let p = and_join(ws.drop_last());
        let q = and_join(ws);
        assert(q == p + seq![' ', 'A', 'N', 'D', ' '] + fts_phrase(ws.last()));
        if k == ws.len() - 1 {
            let i: int = p.len() as int + 5;
            assert(q.subrange(i, i + ph.len()) =~= ph);
        } else {
            assert(ws.drop_last()[k] == ws[k]);
            lemma_and_join_has_phrase(ws.drop_last(), k);
            let i = choose|i: int|
                0 <= i && i + ph.len() <= p.len() && #[trigger] p.subrange(i, i + ph.len()) == ph;
            assert(q.subrange(i, i + ph.len()) =~= p.subrange(i, i + ph.len()));
        }
    }
}

/// Every word of the query is required: the FTS5 query holds the quoted phrase of
/// each word of `raw`.
pub proof fn every_word_is_required(raw: Seq<char>, k: int)
    requires
        0 <= k < words(raw).len(),
    ensures
        contains_run(fts_query(raw), fts_phrase(words(raw)[k])),
{
    lemma_and_join_has_phrase(words(raw), k);
}

/// Total length of the quoted phrases of `ws`.
pub open spec fn phrases_len(ws: Seq<Seq<char>>) -> int
    decreases ws.len(),
{
    if ws.len() == 0 {
        0
    } else {
        phrases_len(ws.drop_last()) + fts_phrase(ws.last()).len()
    }
}

proof fn lemma_and_join_len(ws: Seq<Seq<char>>)
    requires
        ws.len() > 0,
    ensures
        and_join(ws).len() == phrases_len(ws) + 5 * (ws.len() - 1),
    decreases ws.len(),
{
    if ws.len() > 1 {
        lemma_and_join_len(ws.drop_last());
    } else {
        assert(ws.drop_last().len() == 0);
        assert(phrases_len(ws.drop_last()) == 0);
        assert(ws.last() == ws[0]);
        assert(and_join(ws) == fts_phrase(ws[0]));
    }
}

/// The query holds nothing but the phrases of the words of `raw` and one ` AND `
/// between each two: its length is theirs.
pub proof fn query_is_only_the_phrases(raw: Seq<char>)
    requires
        words(raw).len() > 0,
    ensures
        fts_query(raw).len() == phrases_len(words(raw)) + 5 * (words(raw).len() - 1),
{
    lemma_and_join_len(words(raw));
}

/// The characters of `s` that are not whitespace, in order.
pub open spec fn non_ws(s: Seq<char>) -> Seq<char>
    decreases s.len(),
{
    if s.len() == 0 {
        seq![]
    } else {
        (if is_ws(s[0]) {
            seq![]
        } else {
            seq![s[0]]
        }) + non_ws(s.drop_first())
    }
}

/// The words of a list, written one after the other.
pub open spec fn concat(ws: Seq<Seq<char>>) -> Seq<char>
    decreases ws.len(),
{
    if ws.len() == 0 {
        seq![]
    } else {
        concat(ws.drop_last()) + ws.last()
    }
}

proof fn lemma_words_from_concat(s: Seq<char>, cur: Seq<char>, acc: Seq<Seq<char>>)
    ensures
        concat(words_from(s, cur, acc)) == concat(acc) + cur + non_ws(s),
    decreases s.len(),
{
    if s.len() == 0 {
        if cur.len() > 0 {
            assert(acc.push(cur).drop_last() =~= acc);
        }
        assert(concat(acc) + cur + non_ws(s) =~= concat(acc) + cur);
        if cur.len() == 0 {
            assert(concat(acc) + cur =~= concat(acc));
        }
    } else if is_ws(s[0]) {
        let acc2 = if cur.len() > 0 { acc.push(cur) } else { acc };
        if cur.len() > 0 {
            assert(acc.push(cur).drop_last() =~= acc);
        } else {
            assert(concat(acc) + cur =~= concat(acc));
        }
        lemma_words_from_concat(s.drop_first(), seq![], acc2);
        assert(concat(acc2) + Seq::<char>::empty() + non_ws(s.drop_first()) =~= concat(acc) + cur
            + non_ws(s));
    } else {
        lemma_words_from_concat(s.drop_first(), cur.push(s[0]), acc);
        assert(concat(acc) + cur.push(s[0]) + non_ws(s.drop_first()) =~= concat(acc) + cur
            + non_ws(s));
    }
}

proof fn lemma_words_from_shape(s: Seq<char>, cur: Seq<char>, acc: Seq<Seq<char>>)
    requires
        forall|j: int| 0 <= j < acc.len() ==> (#[trigger] acc[j]).len() > 0 && forall|m: int|
            0 <= m < acc[j].len() ==> !is_ws(acc[j][m]),
        forall|m: int| 0 <= m < cur.len() ==> !is_ws(#[trigger] cur[m]),
    ensures
        forall|j: int|
            0 <= j < words_from(s, cur, acc).len() ==> (#[trigger] words_from(s, cur, acc)[j]).len()
                > 0 && forall|m: int|
                0 <= m < words_from(s, cur, acc)[j].len() ==> !is_ws(words_from(s, cur, acc)[j][m]),
    decreases s.len(),
{
    let acc2 = if cur.len() > 0 { acc.push(cur) } else { acc };
    assert forall|j: int| 0 <= j < acc2.len() implies (#[trigger] acc2[j]).len() > 0 && forall|m: int|
        0 <= m < acc2[j].len() ==> !is_ws(acc2[j][m]) by {
        if j < acc.len() {
            assert(acc2[j] == acc[j]);
        }
    }
    if s.len() == 0 {
        assert(words_from(s, cur, acc) == acc2);
    } else {
        if is_ws(s[0]) {
            assert(words_from(s, cur, acc) == words_from(s.drop_first(), seq![], acc2));
            lemma_words_from_shape(s.drop_first(), seq![], acc2);
        } else {
            let c2 = cur.push(s[0]);
            assert forall|m: int| 0 <= m < c2.len() implies !is_ws(#[trigger] c2[m]) by {
                if m < cur.len() {
                    assert(c2[m] == cur[m]);
                }
            }
            assert(words_from(s, cur, acc) == words_from(s.drop_first(), c2, acc));
            lemma_words_from_shape(s.drop_first(), c2, acc);
        }
    }
}

/// The words of `raw` are non-empty runs holding no whitespace, and written one
/// after the other they give every non-whitespace character of `raw`, in order:
/// no word is lost, split off or made up.
pub proof fn words_cover_the_query(raw: Seq<char>)
    ensures
        concat(words(raw)) == non_ws(raw),
        forall|j: int|
            0 <= j < words(raw).len() ==> (#[trigger] words(raw)[j]).len() > 0 && forall|m: int|
                0 <= m < words(raw)[j].len() ==> !is_ws(words(raw)[j][m]),
{
    lemma_words_from_concat(raw, seq![], seq![]);
    assert(concat(Seq::<Seq<char>>::empty()) + Seq::<char>::empty() + non_ws(raw) =~= non_ws(raw));
    lemma_words_from_shape(raw, seq![], seq![]);
}

/// Quoting works character by character: a `"` becomes `""`, any other character
/// stays, and the quoted form of a concatenation is the concatenation of the
/// quoted forms. A phrase is that form between two `"`.
pub proof fn quotes_are_doubled_one_by_one(a: Seq<char>, b: Seq<char>, c: char)
    ensures
        double_quotes(a + b) == double_quotes(a) + double_quotes(b),
        double_quotes(seq![c]) == if c == '"' {
            seq!['"', '"']
        } else {
            seq![c]
        },
        fts_phrase(a) == seq!['"'] + double_quotes(a) + seq!['"'],
    decreases b.len(),
{
    assert(seq![c].drop_last() =~= Seq::<char>::empty());
    assert(double_quotes(Seq::<char>::empty()) == Seq::<char>::empty());
    if b.len() == 0 {
        assert(a + b =~= a);
        assert(double_quotes(a) + double_quotes(b) =~= double_quotes(a));
    } else {
        quotes_are_doubled_one_by_one(a, b.drop_last(), c);
        assert((a + b).drop_last() =~= a + b.drop_last());
        assert((a + b).last() == b.last());
        let tail = if b.last() == '"' { seq!['"', '"'] } else { seq![b.last()] };
        assert(double_quotes(a) + double_quotes(b.drop_last()) + tail =~= double_quotes(a) + (
        double_quotes(b.drop_last()) + tail));
    }
}

} // verus!
