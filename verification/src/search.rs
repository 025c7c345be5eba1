//! Free-text search: the two-tier strategy over the full-text index and the
//! substring fallback, and the query classification and rewriting that
//! drive it.
//!
//! A query that carries full-text operators or more than three terms is
//! tried against the full-text index first, rewritten into a prefix-match
//! expression; if the engine rejects it, the substring search answers
//! instead. A short unstructured query goes straight to the substring
//! search, which gives better partial-word recall.

use vstd::prelude::*;

use crate::chars::{
    chars_string, contains_char, contains_seq, has_substr, is_space, is_space_char, str_chars,
};
use crate::db::{
    fts_page, like_hit, like_row_matches, note_rows_complete, note_rows_distinct, note_rows_sorted,
    note_rows_sound, notes_of, plain_pattern, Db, NoteRow,
};
use crate::min_i32;
use crate::models::{NotesListResponse, SearchRequest};
use crate::notes::{note_matches_row, rows_to_notes};

verus! {

/// The length of the leading run of non-space characters.
pub open spec fn word_len(s: Seq<char>) -> nat
    decreases s.len(),
{
    if s.len() == 0 || is_space(s[0]) {
        0
    } else {
        1 + word_len(s.drop_first())
    }
}

/// The leading word run is a word: non-space throughout, ending at a space
/// or at the end of the text.
proof fn lemma_word_len(s: Seq<char>)
    ensures
        word_len(s) <= s.len(),
        forall|k: int| 0 <= k < word_len(s) ==> !is_space(s[k]),
        word_len(s) < s.len() ==> is_space(s[word_len(s) as int]),
    decreases s.len(),
{
    if s.len() == 0 || is_space(s[0]) {
    } else {
        lemma_word_len(s.drop_first());
        assert forall|k: int| 0 <= k < word_len(s) implies !is_space(s[k]) by {
            if k > 0 {
                assert(s.drop_first()[k - 1] == s[k]);
            }
        }
        if word_len(s) < s.len() {
            assert(s.drop_first()[word_len(s) - 1] == s[word_len(s) as int]);
        }
    }
}

/// A maximal non-space run at the front has exactly the leading word
/// length.
proof fn lemma_word_len_eq(s: Seq<char>, n: int)
    requires
        0 <= n <= s.len(),
        forall|k: int| 0 <= k < n ==> !is_space(s[k]),
        n == s.len() || is_space(s[n]),
    ensures
        word_len(s) == n,
    decreases n,
{
    if n == 0 {
    } else {
        lemma_word_len_eq(s.drop_first(), n - 1);
    }
}

/// The query split into whitespace-separated terms.
pub open spec fn split_ws(s: Seq<char>) -> Seq<Seq<char>>
    decreases s.len(),
    via split_ws_decreases
{
    if s.len() == 0 {
        Seq::empty()
    } else if is_space(s[0]) {
        split_ws(s.drop_first())
    } else {
        seq![s.take(word_len(s) as int)] + split_ws(s.skip(word_len(s) as int))
    }
}

#[via_fn]
proof fn split_ws_decreases(s: Seq<char>) {
    if s.len() > 0 && !is_space(s[0]) {
        lemma_word_len(s);
        assert(word_len(s) >= 1);
        assert(s.skip(word_len(s) as int).len() < s.len());
    }
}

/// Split a character vector into its whitespace-separated terms.
pub fn split_words(v: &Vec<char>) -> (r: Vec<Vec<char>>)
    ensures
        r.deep_view() == split_ws(v@),
{
    let mut r: Vec<Vec<char>> = Vec::new();
    let mut i: usize = 0;
    let n = v.len();
    proof {
        assert(v@.skip(0) =~= v@);
        assert(r.deep_view() =~= Seq::<Seq<char>>::empty());
        assert(r.deep_view() + split_ws(v@) =~= split_ws(v@));
    }
    while i < n
        invariant
            n == v@.len(),
            i <= n,
            split_ws(v@) == r.deep_view() + split_ws(v@.skip(i as int)),
        decreases n - i,
    {
        if is_space_char(v[i]) {
            proof {
                assert(v@.skip(i as int)[0] == v@[i as int]);
                assert(v@.skip(i as int).drop_first() =~= v@.skip(i + 1));
            }
            i = i + 1;
        } else {
            let start = i;
            let mut j = i;
            while j < n && !is_space_char(v[j])
                invariant
                    n == v@.len(),
                    start <= j <= n,
                    forall|k: int| start <= k < j ==> !is_space(v@[k]),
                decreases n - j,
            {
                j = j + 1;
            }
            let mut w: Vec<char> = Vec::new();
            let mut k = start;
            while k < j
                invariant
                    start <= k <= j <= n,
                    n == v@.len(),
                    w@ == v@.subrange(start as int, k as int),
                decreases j - k,
            {
                w.push(v[k]);
                proof {
                    assert(w@ =~= v@.subrange(start as int, k + 1));
                }
                k = k + 1;
            }
            let ghost prev = r;
            r.push(w);
            proof {
                let tail = v@.skip(start as int);
                lemma_word_len_eq(tail, j - start);
                assert(!is_space(tail[0]));
                assert(split_ws(tail) == seq![tail.take(word_len(tail) as int)] + split_ws(
                    tail.skip(word_len(tail) as int),
                ));
                assert(tail.take(j - start) =~= v@.subrange(start as int, j as int));
                assert(tail.skip(j - start) =~= v@.skip(j as int));
                assert(w@ == tail.take(word_len(tail) as int));
                assert forall|t: int| 0 <= t < r.deep_view().len() implies r.deep_view()[t] == (
                prev.deep_view() + seq![w@])[t] by {
                    if t < prev@.len() {
                        assert(r@[t] == prev@[t]);
                    } else {
                        assert(r@[t] == w);
                    }
                }
                assert(r.deep_view() =~= prev.deep_view() + seq![w@]);
                assert(split_ws(v@) == r.deep_view() + split_ws(v@.skip(j as int)));
            }
            i = j;
        }
    }
    proof {
        assert(v@.skip(n as int) =~= Seq::<char>::empty());
        assert(split_ws(v@) =~= r.deep_view());
    }
    r
}

/// Leading spaces removed.
pub open spec fn trim_front(s: Seq<char>) -> Seq<char>
    decreases s.len(),
{
    if s.len() > 0 && is_space(s[0]) {
        trim_front(s.drop_first())
    } else {
        s
    }
}

/// Trailing spaces removed.
pub open spec fn trim_back(s: Seq<char>) -> Seq<char>
    decreases s.len(),
{
    if s.len() > 0 && is_space(s[s.len() - 1]) {
        trim_back(s.drop_last())
    } else {
        s
    }
}

/// Surrounding whitespace removed.
pub open spec fn trim_ws(s: Seq<char>) -> Seq<char> {
    trim_back(trim_front(s))
}

/// Dropping one leading space at a time reaches the trimmed front.
proof fn lemma_trim_front_skip(s: Seq<char>, a: int)
    requires
        0 <= a <= s.len(),
        forall|k: int| 0 <= k < a ==> is_space(s[k]),
        a == s.len() || !is_space(s[a]),
    ensures
        trim_front(s) == s.skip(a),
    decreases a,
{
    if a == 0 {
        assert(s.skip(0) =~= s);
    } else {
        assert(s.drop_first() =~= s.skip(1));
        lemma_trim_front_skip(s.drop_first(), a - 1);
        assert(s.drop_first().skip(a - 1) =~= s.skip(a));
    }
}

/// Dropping one trailing space at a time reaches the trimmed back.
proof fn lemma_trim_back_take(s: Seq<char>, b: int)
    requires
        0 <= b <= s.len(),
        forall|k: int| b <= k < s.len() ==> is_space(s[k]),
        b == 0 || !is_space(s[b - 1]),
    ensures
        trim_back(s) == s.take(b),
    decreases s.len() - b,
{
    if b == s.len() {
        assert(s.take(b) =~= s);
    } else {
        assert(s.drop_last() =~= s.take(s.len() - 1));
        lemma_trim_back_take(s.take(s.len() - 1), b);
        assert(s.take(s.len() - 1).take(b) =~= s.take(b));
    }
}

/// Remove surrounding whitespace from a character vector.
pub fn trim_chars(v: &Vec<char>) -> (r: Vec<char>)
    ensures
        r@ == trim_ws(v@),
{
    let n = v.len();
    let mut a: usize = 0;
    while a < n && is_space_char(v[a])
        invariant
            n == v@.len(),
            a <= n,
            forall|k: int| 0 <= k < a ==> is_space(v@[k]),
        decreases n - a,
    {
        a = a + 1;
    }
    let mut b: usize = n;
    while b > a && is_space_char(v[b - 1])
        invariant
            n == v@.len(),
            a <= b <= n,
            forall|k: int| 0 <= k < a ==> is_space(v@[k]),
            forall|k: int| b <= k < n ==> is_space(v@[k]),
        decreases b,
    {
        b = b - 1;
    }
    let mut r: Vec<char> = Vec::new();
    let mut k = a;
    while k < b
        invariant
            a <= k <= b <= n,
            n == v@.len(),
            r@ == v@.subrange(a as int, k as int),
        decreases b - k,
    {
        r.push(v[k]);
        proof {
            assert(r@ =~= v@.subrange(a as int, k + 1));
        }
        k = k + 1;
    }
    proof {
        lemma_trim_front_skip(v@, a as int);
        if b == a {
            lemma_trim_back_take(v@.skip(a as int), 0);
        } else {
            lemma_trim_back_take(v@.skip(a as int), b - a);
        }
        assert(v@.skip(a as int).take(b - a) =~= v@.subrange(a as int, b as int));
        assert(r@ =~= trim_ws(v@));
    }
    r
}

/// The front-trimmed text starts with a non-space, and trimming the back
/// keeps the first character.
proof fn lemma_trim_shape(s: Seq<char>)
    ensures
        trim_ws(s).len() > 0 ==> !is_space(trim_ws(s)[0]),
    decreases s.len(),
{
    lemma_trim_front_head(s);
    lemma_trim_back_head(trim_front(s));
}

/// The front-trimmed text is empty or starts with a non-space.
proof fn lemma_trim_front_head(s: Seq<char>)
    ensures
        trim_front(s).len() > 0 ==> !is_space(trim_front(s)[0]),
    decreases s.len(),
{
    if s.len() > 0 && is_space(s[0]) {
        lemma_trim_front_head(s.drop_first());
    }
}

/// Trimming the back keeps the first character of a text that stays
/// nonempty.
proof fn lemma_trim_back_head(s: Seq<char>)
    ensures
        trim_back(s).len() > 0 ==> trim_back(s)[0] == s[0],
    decreases s.len(),
{
    if s.len() > 0 && is_space(s[s.len() - 1]) {
        lemma_trim_back_head(s.drop_last());
    }
}

/// The query carries full-text operator punctuation or boolean keywords.
pub open spec fn has_fts_operators(q: Seq<char>) -> bool {
    q.contains(':') || q.contains('"') || q.contains('*') || has_substr(q, "AND"@) || has_substr(
        q,
        "OR"@,
    ) || has_substr(q, "NOT"@)
}

/// A query the full-text engine should try first: one with operators, or
/// one of more than three terms.
pub open spec fn is_structured_query(q: Seq<char>) -> bool {
    has_fts_operators(q) || split_ws(q).len() > 3
}

/// Executable test for `has_fts_operators`.
fn has_fts_operators_exec(v: &Vec<char>) -> (r: bool)
    ensures
        r == has_fts_operators(v@),
{
    let p1 = str_chars("AND");
    let p2 = str_chars("OR");
    let p3 = str_chars("NOT");
    contains_char(v, ':') || contains_char(v, '"') || contains_char(v, '*') || contains_seq(v, &p1)
        || contains_seq(v, &p2) || contains_seq(v, &p3)
}

/// The prefix-match expression for one term, against either field.
pub open spec fn enhanced_one(w: Seq<char>) -> Seq<char> {
    "title:"@ + w + "* OR content:"@ + w + "*"@
}

/// The joined expressions of several terms, each group closed and reopened
/// around an OR.
pub open spec fn enhanced_multi(ws: Seq<Seq<char>>) -> Seq<char>
    decreases ws.len(),
{
    if ws.len() == 0 {
        Seq::empty()
    } else if ws.len() == 1 {
        enhanced_one(ws[0])
    } else {
        enhanced_multi(ws.drop_last()) + ") OR ("@ + enhanced_one(ws.last())
    }
}

/// What `enhance_search_query` produces: the trimmed query itself when it is
/// empty or already carries operators; one prefix-match group for a single
/// term; the parenthesised OR of the groups for several terms.
pub open spec fn spec_enhanced(q: Seq<char>) -> Seq<char> {
    let t = trim_ws(q);
    if t.len() == 0 {
        t
    } else if has_fts_operators(t) {
        t
    } else {
        let ws = split_ws(t);
        if ws.len() <= 1 {
            enhanced_multi(ws)
        } else {
            "("@ + enhanced_multi(ws) + ")"@
        }
    }
}

/// Append the prefix-match group of one term.
fn push_enhanced_one(out: &mut Vec<char>, w: &Vec<char>)
    ensures
        final(out)@ == old(out)@ + enhanced_one(w@),
{
    let p1 = str_chars("title:");
    crate::chars::append_chars(out, &p1);
    crate::chars::append_chars(out, w);
    let p2 = str_chars("* OR content:");
    crate::chars::append_chars(out, &p2);
    crate::chars::append_chars(out, w);
    out.push('*');
    proof {
        reveal_strlit("*");
        assert("*"@ =~= seq!['*']);
        assert(final(out)@ =~= old(out)@ + enhanced_one(w@));
    }
}

/// Rewrite a free-text query for the full-text engine: trim it, pass
/// operator queries through unchanged, and turn plain terms into
/// prefix-matches over both fields, OR-joined.
pub fn enhance_search_query(query: &str) -> (r: String)
    ensures
        r@ == spec_enhanced(query@),
{
    let qv = str_chars(query);
    let t = trim_chars(&qv);
    if t.len() == 0 {
        return chars_string(&t);
    }
    if has_fts_operators_exec(&t) {
        return chars_string(&t);
    }
    let ws = split_words(&t);
    let ghost gws = ws.deep_view();
    proof {
        lemma_trim_shape(qv@);
        assert(!is_space(t@[0]));
        assert(split_ws(t@).len() >= 1);
        assert(ws@.len() == gws.len());
    }
    if ws.len() == 1 {
        let mut out: Vec<char> = Vec::new();
        push_enhanced_one(&mut out, &ws[0]);
        proof {
            assert(gws[0] == ws@[0]@);
            assert(out@ =~= spec_enhanced(query@));
        }
        return chars_string(&out);
    }
    let mut out: Vec<char> = Vec::new();
    out.push('(');
    let mut k: usize = 0;
    let n = ws.len();
    while k < n
        invariant
            gws == ws.deep_view(),
            gws.len() == n,
            n == ws@.len(),
            2 <= n,
            k <= n,
            k >= 1 ==> out@ == seq!['('] + enhanced_multi(gws.take(k as int)),
            k == 0 ==> out@ == seq!['('],
        decreases n - k,
    {
        if k > 0 {
            let sep = str_chars(") OR (");
            crate::chars::append_chars(&mut out, &sep);
        }
        push_enhanced_one(&mut out, &ws[k]);
        proof {
            assert(gws[k as int] == ws@[k as int]@);
            if k == 0 {
                assert(gws.take(1) =~= seq![gws[0]]);
                assert(enhanced_multi(gws.take(1)) == enhanced_one(gws[0]));
                assert(out@ =~= seq!['('] + enhanced_multi(gws.take(1)));
            } else {
                assert(gws.take(k + 1).drop_last() =~= gws.take(k as int));
                assert(gws.take(k + 1).last() == gws[k as int]);
                assert(gws.take(k + 1).len() >= 2);
                assert(out@ =~= seq!['('] + enhanced_multi(gws.take(k + 1)));
            }
        }
        k = k + 1;
    }
    out.push(')');
    proof {
        reveal_strlit("(");
        reveal_strlit(")");
        assert("("@ =~= seq!['(']);
        assert(")"@ =~= seq![')']);
        assert(gws.take(n as int) =~= gws);
        assert(out@ =~= spec_enhanced(query@));
    }
    chars_string(&out)
}

/// The effective page size: the requested limit, defaulted to fifty and
/// capped at one hundred.
pub open spec fn eff_limit(l: Option<i32>) -> int {
    let base: int = match l {
        Some(x) => x as int,
        None => 50,
    };
    if base <= 100 {
        base
    } else {
        100
    }
}

/// The effective page offset: the requested one, defaulted to zero.
pub open spec fn eff_offset(o: Option<i32>) -> int {
    match o {
        Some(x) => x as int,
        None => 0,
    }
}

/// The substring page is complete for its query unless full: every stored
/// row holding the folded query appears among the rows, or the page carries
/// exactly the effective limit.
pub open spec fn like_page_complete(
    rows: Seq<NoteRow>,
    m: Map<int, NoteRow>,
    pat: Seq<char>,
    limit: int,
) -> bool {
    ||| (limit >= 0 && rows.len() == limit)
    ||| (forall|id: i64|
        m.dom().contains(id as int) && like_hit(pat, #[trigger] m[id as int]) ==> exists|i: int|
            0 <= i < rows.len() && rows[i].id == id)
}

/// The substring pattern for a query.
fn like_pattern(t: &Vec<char>) -> (r: String)
    ensures
        r@ == seq!['%'] + t@ + seq!['%'],
{
    let mut v: Vec<char> = Vec::new();
    v.push('%');
    crate::chars::append_chars(&mut v, t);
    v.push('%');
    proof {
        assert(v@ =~= seq!['%'] + t@ + seq!['%']);
    }
    chars_string(&v)
}

/// Search notes. An empty query lists the default-ordered page of the
/// whole store; a structured query is tried against the full-text engine —
/// whose ranked page the result then is — and falls back to the substring
/// search when the engine rejects it; a short unstructured query goes
/// straight to the substring search, whose results keep the default
/// retrieval order and — for a wildcard-free query — are exactly the
/// stored notes holding the sought text, up to the page cap. Every result
/// is a stored note, no note appears twice, and the page never exceeds the
/// effective limit.
pub fn search_notes(db: &Db, request: SearchRequest) -> (r: Result<NotesListResponse, String>)
    ensures
        r matches Ok(resp) ==> resp.success && resp.error is None,
        r matches Ok(resp) ==> exists|rows: Seq<NoteRow>|
            {
                let t = trim_ws(request.query@);
                let pat = seq!['%'] + t + seq!['%'];
                &&& #[trigger] note_rows_sound(rows, notes_of(*db))
                &&& note_rows_distinct(rows)
                &&& (eff_limit(request.limit) >= 0 ==> rows.len() <= eff_limit(request.limit))
                &&& (!is_structured_query(t) ==> note_rows_sorted(rows))
                &&& (!is_structured_query(t) && t.len() > 0 ==> forall|i: int|
                    0 <= i < rows.len() ==> like_row_matches(pat, #[trigger] rows[i]))
                &&& (t.len() == 0 && eff_offset(request.offset) <= 0 ==> ((eff_limit(request.limit)
                    >= 0 && rows.len() == eff_limit(request.limit)) || note_rows_complete(
                    rows,
                    notes_of(*db),
                )))
                &&& (!is_structured_query(t) && t.len() > 0 && eff_offset(request.offset) <= 0
                    && plain_pattern(pat) ==> like_page_complete(
                    rows,
                    notes_of(*db),
                    pat,
                    eff_limit(request.limit),
                ))
                &&& (is_structured_query(t) && t.len() > 0 ==> (rows == fts_page(
                    spec_enhanced(t),
                    notes_of(*db),
                    eff_limit(request.limit),
                    eff_offset(request.offset),
                ) || (note_rows_sorted(rows) && (forall|i: int|
                    0 <= i < rows.len() ==> like_row_matches(pat, #[trigger] rows[i])) && (
                eff_offset(request.offset) <= 0 && plain_pattern(pat) ==> like_page_complete(
                    rows,
                    notes_of(*db),
                    pat,
                    eff_limit(request.limit),
                )))))
                &&& resp.data@.len() == rows.len()
                &&& forall|i: int|
                    0 <= i < rows.len() ==> note_matches_row(#[trigger] resp.data@[i], rows[i])
            },
{
    let limit = min_i32(
        match request.limit {
            Some(l) => l,
            None => 50,
        },
        100,
    );
    let offset = match request.offset {
        Some(o) => o,
        None => 0,
    };
    let qv = str_chars(request.query.as_str());
    let t = trim_chars(&qv);
    let rows = if t.len() == 0 {
        match db.select_notes_page(limit as i64, offset as i64) {
            Ok(v) => v,
            Err(e) => {
                return Err(e);
            },
        }
    } else {
        let structured = if has_fts_operators_exec(&t) {
            true
        } else {
            let ws = split_words(&t);
            ws.len() > 3
        };
        if structured {
            let ts = chars_string(&t);
            let expr = enhance_search_query(ts.as_str());
            match db.fts_search(expr.as_str(), limit as i64, offset as i64) {
                Ok(v) => v,
                Err(_) => {
                    let pat = like_pattern(&t);
                    match db.like_search(pat.as_str(), limit as i64, offset as i64) {
                        Ok(v) => v,
                        Err(e) => {
                            return Err(e);
                        },
                    }
                },
            }
        } else {
            let pat = like_pattern(&t);
            match db.like_search(pat.as_str(), limit as i64, offset as i64) {
                Ok(v) => v,
                Err(e) => {
                    return Err(e);
                },
            }
        }
    };
    let ghost grows = rows@;
    let out = rows_to_notes(rows);
    Ok(NotesListResponse { success: true, data: out, error: None })
}

} // verus!
