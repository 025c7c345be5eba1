//! The persisted format of a note's label list: a JSON array of strings.
//!
//! The encoder emits the canonical form (double-quoted items separated by
//! commas, with `\"`, `\\`, `\n`, `\r`, `\t` and `\u00xx` escapes for the
//! remaining control characters). The decoder inverts it exactly: feeding an
//! encoded label list back through `labels_from_json` returns the original
//! sequence, and text that is not a canonical encoding decodes to the empty
//! list rather than failing — writes are strict, reads are lenient.

use vstd::prelude::*;

use crate::chars::{chars_string, matches_at, str_chars};

verus! {

/// Lower-case hexadecimal digit for a value below sixteen.
pub open spec fn hex_digit(n: int) -> char {
    if n == 0 {
        '0'
    } else if n == 1 {
        '1'
    } else if n == 2 {
        '2'
    } else if n == 3 {
        '3'
    } else if n == 4 {
        '4'
    } else if n == 5 {
        '5'
    } else if n == 6 {
        '6'
    } else if n == 7 {
        '7'
    } else if n == 8 {
        '8'
    } else if n == 9 {
        '9'
    } else if n == 10 {
        'a'
    } else if n == 11 {
        'b'
    } else if n == 12 {
        'c'
    } else if n == 13 {
        'd'
    } else if n == 14 {
        'e'
    } else {
        'f'
    }
}

/// The character sequence that encodes one character inside a quoted string.
pub open spec fn esc_char(c: char) -> Seq<char> {
    if c == '"' {
        seq!['\\', '"']
    } else if c == '\\' {
        seq!['\\', '\\']
    } else if c == '\n' {
        seq!['\\', 'n']
    } else if c == '\r' {
        seq!['\\', 'r']
    } else if c == '\t' {
        seq!['\\', 't']
    } else if (c as u32) < 0x20 {
        seq!['\\', 'u', '0', '0', hex_digit((c as u32) as int / 16), hex_digit(
            (c as u32) as int % 16,
        )]
    } else {
        seq![c]
    }
}

/// Encoding of a string body: each character escaped in order.
pub open spec fn enc_str(s: Seq<char>) -> Seq<char>
    decreases s.len(),
{
    if s.len() == 0 {
        Seq::empty()
    } else {
        esc_char(s[0]) + enc_str(s.drop_first())
    }
}

/// Encoding of one label: the escaped body wrapped in double quotes.
pub open spec fn enc_item(s: Seq<char>) -> Seq<char> {
    seq!['"'] + enc_str(s) + seq!['"']
}

/// Encoding of every label after the first: a comma before each item.
pub open spec fn enc_rest(ls: Seq<Seq<char>>) -> Seq<char>
    decreases ls.len(),
{
    if ls.len() == 0 {
        Seq::empty()
    } else {
        seq![','] + enc_item(ls[0]) + enc_rest(ls.drop_first())
    }
}

/// Canonical encoding of a whole label list.
pub open spec fn enc_labels(ls: Seq<Seq<char>>) -> Seq<char> {
    if ls.len() == 0 {
        seq!['[', ']']
    } else {
        seq!['['] + enc_item(ls[0]) + enc_rest(ls.drop_first()) + seq![']']
    }
}

/// Escaping distributes over concatenation of string bodies.
proof fn lemma_enc_str_concat(a: Seq<char>, b: Seq<char>)
    ensures
        enc_str(a + b) == enc_str(a) + enc_str(b),
    decreases a.len(),
{
    if a.len() == 0 {
        assert(a + b =~= b);
        assert(enc_str(a) + enc_str(b) =~= enc_str(b));
    } else {
        assert((a + b).drop_first() =~= a.drop_first() + b);
        lemma_enc_str_concat(a.drop_first(), b);
        assert(enc_str(a + b) =~= enc_str(a) + enc_str(b));
    }
}

/// Extending the encoded prefix of a body by one character.
proof fn lemma_enc_str_take_succ(s: Seq<char>, m: int)
    requires
        0 <= m < s.len(),
    ensures
        enc_str(s.take(m + 1)) == enc_str(s.take(m)) + esc_char(s[m]),
{
    assert(s.take(m + 1) =~= s.take(m) + seq![s[m]]);
    lemma_enc_str_concat(s.take(m), seq![s[m]]);
    let x = seq![s[m]];
    assert(x.drop_first() =~= Seq::<char>::empty());
    assert(enc_str(x) == esc_char(x[0]) + enc_str(x.drop_first()));
    assert(enc_str(x) =~= esc_char(s[m]));
}

/// Extending an encoded body by one character at the end.
proof fn lemma_enc_str_push(s: Seq<char>, c: char)
    ensures
        enc_str(s.push(c)) == enc_str(s) + esc_char(c),
{
    lemma_enc_str_concat(s, seq![c]);
    assert(s + seq![c] =~= s.push(c));
    let x = seq![c];
    assert(x.drop_first() =~= Seq::<char>::empty());
    assert(enc_str(x) == esc_char(x[0]) + enc_str(x.drop_first()));
    assert(enc_str(x) =~= esc_char(c));
}

/// Executable lower-case hexadecimal digit.
fn hexd(n: u32) -> (r: char)
    requires
        n < 16,
    ensures
        r == hex_digit(n as int),
{
    if n == 0 {
        '0'
    } else if n == 1 {
        '1'
    } else if n == 2 {
        '2'
    } else if n == 3 {
        '3'
    } else if n == 4 {
        '4'
    } else if n == 5 {
        '5'
    } else if n == 6 {
        '6'
    } else if n == 7 {
        '7'
    } else if n == 8 {
        '8'
    } else if n == 9 {
        '9'
    } else if n == 10 {
        'a'
    } else if n == 11 {
        'b'
    } else if n == 12 {
        'c'
    } else if n == 13 {
        'd'
    } else if n == 14 {
        'e'
    } else {
        'f'
    }
}

/// Append the escape sequence of one character.
fn push_escaped(out: &mut Vec<char>, c: char)
    ensures
        final(out)@ == old(out)@ + esc_char(c),
{
    if c == '"' {
        out.push('\\');
        out.push('"');
    } else if c == '\\' {
        out.push('\\');
        out.push('\\');
    } else if c == '\n' {
        out.push('\\');
        out.push('n');
    } else if c == '\r' {
        out.push('\\');
        out.push('r');
    } else if c == '\t' {
        out.push('\\');
        out.push('t');
    } else if (c as u32) < 0x20 {
        let v = c as u32;
        out.push('\\');
        out.push('u');
        out.push('0');
        out.push('0');
        out.push(hexd(v / 16));
        out.push(hexd(v % 16));
    } else {
        out.push(c);
    }
    proof {
        assert(final(out)@ =~= old(out)@ + esc_char(c));
    }
}

/// Append the encoded body of one label.
fn push_encoded_str(out: &mut Vec<char>, s: &str)
    ensures
        final(out)@ == old(out)@ + enc_str(s@),
{
    let v = str_chars(s);
    let mut i: usize = 0;
    while i < v.len()
        invariant
            v@ == s@,
            i <= v@.len(),
            out@ == old(out)@ + enc_str(v@.take(i as int)),
        decreases v@.len() - i,
    {
        push_escaped(out, v[i]);
        proof {
            lemma_enc_str_take_succ(v@, i as int);
            assert(out@ =~= old(out)@ + enc_str(v@.take(i + 1)));
        }
        i = i + 1;
    }
    proof {
        assert(v@.take(v@.len() as int) =~= v@);
    }
}

/// First `k` items of the rendered list: the opening bracket, then the items
/// with their separating commas, ending right after item `k - 1`.
pub open spec fn enc_head(ls: Seq<Seq<char>>, k: int) -> Seq<char>
    decreases k,
{
    if k <= 0 {
        seq!['[']
    } else if k == 1 {
        enc_head(ls, 0) + enc_item(ls[0])
    } else {
        enc_head(ls, k - 1) + seq![','] + enc_item(ls[k - 1])
    }
}

/// Splitting the full encoding after the first `k` items.
proof fn lemma_enc_labels_decomp(ls: Seq<Seq<char>>, k: int)
    requires
        1 <= k <= ls.len(),
    ensures
        enc_labels(ls) == enc_head(ls, k) + enc_rest(ls.skip(k)) + seq![']'],
    decreases k,
{
    if k == 1 {
        assert(ls.drop_first() =~= ls.skip(1));
        assert(enc_head(ls, 1) == enc_head(ls, 0) + enc_item(ls[0]));
        assert(enc_head(ls, 0) == seq!['[']);
        assert(enc_labels(ls) =~= enc_head(ls, 1) + enc_rest(ls.skip(1)) + seq![']']);
    } else {
        lemma_enc_labels_decomp(ls, k - 1);
        assert(ls.skip(k - 1).len() > 0);
        assert(ls.skip(k - 1)[0] == ls[k - 1]);
        assert(ls.skip(k - 1).drop_first() =~= ls.skip(k));
        assert(enc_rest(ls.skip(k - 1)) == seq![','] + enc_item(ls[k - 1]) + enc_rest(ls.skip(k)));
        assert(enc_labels(ls) =~= enc_head(ls, k) + enc_rest(ls.skip(k)) + seq![']']);
    }
}

/// Serialize a label list to its canonical JSON-array text.
pub fn labels_to_json(labels: &Vec<String>) -> (r: String)
    ensures
        r@ == enc_labels(labels.deep_view()),
{
    let ghost ls = labels.deep_view();
    let mut out: Vec<char> = Vec::new();
    out.push('[');
    let mut k: usize = 0;
    while k < labels.len()
        invariant
            ls == labels.deep_view(),
            k <= labels@.len(),
            ls.len() == labels@.len(),
            out@ == enc_head(ls, k as int),
        decreases labels@.len() - k,
    {
        if k > 0 {
            out.push(',');
        }
        out.push('"');
        push_encoded_str(&mut out, labels[k].as_str());
        out.push('"');
        proof {
            assert(labels@[k as int].deep_view() == ls[k as int]);
            if k == 0 {
                assert(out@ =~= enc_head(ls, k + 1));
            } else {
                assert(out@ =~= enc_head(ls, k + 1));
            }
        }
        k = k + 1;
    }
    out.push(']');
    proof {
        if ls.len() == 0 {
            assert(out@ =~= enc_labels(ls));
        } else {
            lemma_enc_labels_decomp(ls, ls.len() as int);
            assert(ls.skip(ls.len() as int) =~= Seq::<Seq<char>>::empty());
            assert(out@ =~= enc_labels(ls));
        }
    }
    chars_string(&out)
}

/// A match of a concatenation splits into matches of its parts.
proof fn lemma_matches_split(v: Seq<char>, i: int, a: Seq<char>, b: Seq<char>)
    requires
        matches_at(v, i, a + b),
    ensures
        matches_at(v, i, a),
        matches_at(v, i + a.len(), b),
{
    assert forall|k: int| 0 <= k < a.len() implies v[i + k] == a[k] by {
        assert((a + b)[k] == a[k]);
    }
    assert forall|k: int| 0 <= k < b.len() implies v[i + a.len() + k] == b[k] by {
        assert((a + b)[a.len() + k] == b[k]);
        assert(v[i + (a.len() + k)] == (a + b)[a.len() + k]);
    }
}

/// Hexadecimal digits are pairwise distinct.
proof fn lemma_hex_inj(a: int, b: int)
    requires
        0 <= a < 16,
        0 <= b < 16,
        hex_digit(a) == hex_digit(b),
    ensures
        a == b,
{
}

/// Where the encoding of an item stands in `v`, the escape chunk of its
/// `m`-th character (or the closing quote, once past the end) stands at the
/// corresponding offset.
proof fn lemma_item_step(v: Seq<char>, i: int, lbl: Seq<char>, m: int)
    requires
        matches_at(v, i, enc_item(lbl)),
        0 <= m <= lbl.len(),
    ensures
        m < lbl.len() ==> matches_at(
            v,
            i + 1 + enc_str(lbl.take(m)).len(),
            esc_char(lbl[m]),
        ),
        m < lbl.len() ==> enc_str(lbl.take(m + 1)).len() == enc_str(lbl.take(m)).len() + esc_char(
            lbl[m],
        ).len(),
        m < lbl.len() ==> i + 1 + enc_str(lbl.take(m + 1)).len() + 1 <= i + enc_item(lbl).len(),
        m == lbl.len() ==> i + 1 + enc_str(lbl.take(m)).len() == i + enc_item(lbl).len() - 1,
        m == lbl.len() ==> v[i + 1 + enc_str(lbl.take(m)).len()] == '"',
{
    assert(lbl.take(m) + lbl.skip(m) =~= lbl);
    lemma_enc_str_concat(lbl.take(m), lbl.skip(m));
    assert(enc_str(lbl) == enc_str(lbl.take(m)) + enc_str(lbl.skip(m)));
    let off: int = 1 + enc_str(lbl.take(m)).len() as int;
    if m < lbl.len() {
        assert(lbl.skip(m)[0] == lbl[m]);
        assert(lbl.skip(m).drop_first() =~= lbl.skip(m + 1));
        assert(enc_str(lbl.skip(m)) == esc_char(lbl[m]) + enc_str(lbl.skip(m + 1)));
        lemma_enc_str_take_succ(lbl, m);
        let esc = esc_char(lbl[m]);
        assert forall|j: int| 0 <= j < esc.len() implies v[i + off + j] == esc[j] by {
            assert(enc_str(lbl)[off - 1 + j] == enc_str(lbl.skip(m))[j]);
            assert(enc_str(lbl.skip(m))[j] == esc[j]);
            assert(enc_item(lbl)[off + j] == enc_str(lbl)[off - 1 + j]);
            assert(v[i + (off + j)] == enc_item(lbl)[off + j]);
        }
        assert(matches_at(v, i + off, esc));
    } else {
        assert(lbl.take(m) =~= lbl);
        assert(lbl.skip(m) =~= Seq::<char>::empty());
        assert(enc_item(lbl)[off] == '"');
        assert(v[i + off] == enc_item(lbl)[off]);
    }
}

/// Executable inverse of `hex_digit`. The first component reports whether the
/// character is a lower-case hexadecimal digit.
fn unhex(c: char) -> (r: (bool, u32))
    ensures
        r.0 ==> r.1 < 16 && hex_digit(r.1 as int) == c,
        !r.0 ==> forall|n: int| 0 <= n < 16 ==> hex_digit(n) != c,
{
    if c == '0' {
        (true, 0)
    } else if c == '1' {
        (true, 1)
    } else if c == '2' {
        (true, 2)
    } else if c == '3' {
        (true, 3)
    } else if c == '4' {
        (true, 4)
    } else if c == '5' {
        (true, 5)
    } else if c == '6' {
        (true, 6)
    } else if c == '7' {
        (true, 7)
    } else if c == '8' {
        (true, 8)
    } else if c == '9' {
        (true, 9)
    } else if c == 'a' {
        (true, 10)
    } else if c == 'b' {
        (true, 11)
    } else if c == 'c' {
        (true, 12)
    } else if c == 'd' {
        (true, 13)
    } else if c == 'e' {
        (true, 14)
    } else if c == 'f' {
        (true, 15)
    } else {
        (false, 0)
    }
}

/// The rendered head reads only the first `k` items.
proof fn lemma_enc_head_prefix(a: Seq<Seq<char>>, b: Seq<Seq<char>>, k: int)
    requires
        0 <= k <= a.len(),
        k <= b.len(),
        forall|j: int| 0 <= j < k ==> a[j] == b[j],
    ensures
        enc_head(a, k) == enc_head(b, k),
    decreases k,
{
    if k > 0 {
        lemma_enc_head_prefix(a, b, k - 1);
    }
}

/// Index of the opening quote of item `k` within the rendered list.
pub open spec fn item_start(ls: Seq<Seq<char>>, k: int) -> int {
    enc_head(ls, k).len() + if k == 0 {
        0int
    } else {
        1int
    }
}

/// The overall shape of a rendered list: it opens with a bracket and, when
/// nonempty, a quote follows at once.
proof fn lemma_enc_labels_shape(ls: Seq<Seq<char>>)
    ensures
        enc_labels(ls).len() >= 2,
        enc_labels(ls)[0] == '[',
        ls.len() == 0 ==> enc_labels(ls) == seq!['[', ']'],
        ls.len() > 0 ==> enc_labels(ls)[1] == '"',
{
    if ls.len() > 0 {
        assert(enc_labels(ls)[1] == enc_item(ls[0])[0]);
        assert(enc_item(ls[0])[0] == '"');
    }
}

/// Where item `k` stands inside the rendered list, and what follows it.
proof fn lemma_labels_item_at(ls: Seq<Seq<char>>, k: int)
    requires
        0 <= k < ls.len(),
    ensures
        matches_at(enc_labels(ls), item_start(ls, k), enc_item(ls[k])),
        item_start(ls, k) + enc_item(ls[k]).len() <= enc_labels(ls).len() - 1,
        k + 1 < ls.len() ==> enc_labels(ls)[item_start(ls, k) + enc_item(ls[k]).len()] == ',',
        k + 1 < ls.len() ==> item_start(ls, k) + enc_item(ls[k]).len() + 1 == item_start(ls, k + 1),
        k + 1 == ls.len() ==> item_start(ls, k) + enc_item(ls[k]).len() == enc_labels(ls).len() - 1,
        k + 1 == ls.len() ==> enc_labels(ls)[enc_labels(ls).len() - 1] == ']',
{
    let w = enc_labels(ls);
    lemma_enc_labels_decomp(ls, k + 1);
    let head = enc_head(ls, k + 1);
    let tail = enc_rest(ls.skip(k + 1));
    assert(w == head + tail + seq![']']);
    if k == 0 {
        assert(head == enc_head(ls, 0) + enc_item(ls[0]));
        assert(enc_head(ls, 0) == seq!['[']);
        assert(item_start(ls, 0) == 1);
        assert(head.len() == 1 + enc_item(ls[0]).len());
    } else {
        assert(head == enc_head(ls, k) + seq![','] + enc_item(ls[k]));
        assert(head.len() == enc_head(ls, k).len() + 1 + enc_item(ls[k]).len());
    }
    assert(item_start(ls, k) + enc_item(ls[k]).len() == head.len());
    assert forall|j: int| 0 <= j < enc_item(ls[k]).len() implies w[item_start(ls, k) + j]
        == enc_item(ls[k])[j] by {
        if k == 0 {
            assert(head[1 + j] == enc_item(ls[0])[j]);
        } else {
            assert(head[enc_head(ls, k).len() + 1 + j] == enc_item(ls[k])[j]);
        }
        assert((head + tail)[item_start(ls, k) + j] == head[item_start(ls, k) + j]);
        assert(w[item_start(ls, k) + j] == (head + tail)[item_start(ls, k) + j]);
    }
    assert(matches_at(w, item_start(ls, k), enc_item(ls[k])));
    if k + 1 < ls.len() {
        assert(ls.skip(k + 1).len() > 0);
        assert(tail == seq![','] + enc_item(ls.skip(k + 1)[0]) + enc_rest(
            ls.skip(k + 1).drop_first(),
        ));
        assert(tail.len() >= 1);
        assert(tail[0] == ',');
        assert((head + tail)[head.len() as int] == tail[0]);
        assert(w[head.len() as int] == (head + tail)[head.len() as int]);
        assert(enc_head(ls, k + 2) == enc_head(ls, k + 1) + seq![','] + enc_item(ls[k + 1]));
        assert(item_start(ls, k + 1) == head.len() + 1);
    } else {
        assert(ls.skip(k + 1) =~= Seq::<Seq<char>>::empty());
        assert(tail.len() == 0);
        assert(w.len() == head.len() + 1);
        assert(w[w.len() - 1] == ']');
    }
}

/// Parse one quoted item starting at index `i`. On any input where the
/// canonical encoding of some label stands at `i`, the parse succeeds and
/// returns exactly that label together with the index just past its closing
/// quote.
#[verifier::rlimit(100)]
#[verifier::spinoff_prover]
fn parse_item(v: &Vec<char>, i: usize) -> (r: (bool, String, usize))
    ensures
        forall|lbl: Seq<char>|
            #[trigger] matches_at(v@, i as int, enc_item(lbl)) ==> (r.0 && r.1@ == lbl && r.2 == i
                + enc_item(lbl).len()),
        r.0 ==> i < r.2 <= v@.len(),
        r.0 ==> matches_at(v@, i as int, enc_item(r.1@)) && r.2 == i + enc_item(r.1@).len(),
{
    if i >= v.len() || v[i] != '"' {
        proof {
            assert forall|lbl: Seq<char>| !matches_at(v@, i as int, enc_item(lbl)) by {
                if matches_at(v@, i as int, enc_item(lbl)) {
                    assert(enc_item(lbl)[0] == '"');
                    assert(v@[i as int] == enc_item(lbl)[0]);
                }
            }
        }
        return (false, String::new(), i);
    }
    let mut acc: Vec<char> = Vec::new();
    let mut pos: usize = i + 1;
    proof {
        assert(v@.subrange(i + 1, i + 1) =~= Seq::<char>::empty());
        assert(enc_str(acc@) =~= Seq::<char>::empty());
    }
    loop
        invariant
            i < v@.len(),
            v@[i as int] == '"',
            i + 1 <= pos <= v@.len(),
            v@.len() <= usize::MAX,
            v@.subrange(i + 1, pos as int) == enc_str(acc@),
            forall|lbl: Seq<char>|
                #[trigger] matches_at(v@, i as int, enc_item(lbl)) ==> (acc@.len() <= lbl.len()
                    && acc@ == lbl.take(acc@.len() as int) && pos == i + 1 + enc_str(
                    lbl.take(acc@.len() as int),
                ).len()),
        decreases v@.len() - pos,
    {
        let ghost m = acc@.len() as int;
        if pos >= v.len() {
            proof {
                assert forall|lbl: Seq<char>| !matches_at(v@, i as int, enc_item(lbl)) by {
                    if matches_at(v@, i as int, enc_item(lbl)) {
                        lemma_item_step(v@, i as int, lbl, m);
                    }
                }
            }
            return (false, String::new(), i);
        }
        let c = v[pos];
        if c == '"' {
            proof {
                assert forall|lbl: Seq<char>|
                    matches_at(v@, i as int, enc_item(lbl)) implies (acc@ == lbl && pos + 1 == i
                    + enc_item(lbl).len()) by {
                    lemma_item_step(v@, i as int, lbl, m);
                    if m < lbl.len() {
                        assert(matches_at(v@, pos as int, esc_char(lbl[m])));
                        assert(v@[pos as int] == esc_char(lbl[m])[0]);
                        assert(esc_char(lbl[m])[0] != '"');
                    }
                    assert(lbl.take(lbl.len() as int) =~= lbl);
                }
            }
            proof {
                assert(enc_item(acc@).len() == 2 + enc_str(acc@).len());
                assert(pos == i + 1 + enc_str(acc@).len());
                assert forall|k: int|
                    0 <= k < enc_item(acc@).len() implies v@[i + k] == enc_item(acc@)[k] by {
                    if k == 0 {
                        assert(enc_item(acc@)[0] == '"');
                    } else if k < enc_item(acc@).len() - 1 {
                        assert(enc_item(acc@)[k] == enc_str(acc@)[k - 1]);
                        assert(v@[i + k] == v@.subrange(i + 1, pos as int)[k - 1]);
                    } else {
                        assert(enc_item(acc@)[k] == '"');
                        assert(i + k == pos);
                    }
                }
                assert(matches_at(v@, i as int, enc_item(acc@)));
            }
            let text = chars_string(&acc);
            return (true, text, pos + 1);
        } else if c == '\\' {
            if pos + 1 >= v.len() {
                proof {
                    assert forall|lbl: Seq<char>| !matches_at(v@, i as int, enc_item(lbl)) by {
                        if matches_at(v@, i as int, enc_item(lbl)) {
                            lemma_item_step(v@, i as int, lbl, m);
                        }
                    }
                }
                return (false, String::new(), i);
            }
            let e = v[pos + 1];
            let ghost prev = acc@;
            if e == '"' || e == '\\' || e == 'n' || e == 'r' || e == 't' {
                let d: char = if e == '"' {
                    '"'
                } else if e == '\\' {
                    '\\'
                } else if e == 'n' {
                    '\n'
                } else if e == 'r' {
                    '\r'
                } else {
                    '\t'
                };
                acc.push(d);
                pos = pos + 2;
                proof {
                    assert(esc_char(d) =~= seq![v@[pos - 2], v@[pos - 1]]);
                    lemma_enc_str_push(prev, d);
                    assert(v@.subrange(pos - 2, pos as int) =~= seq![v@[pos - 2], v@[pos - 1]]);
                    assert(v@.subrange(i + 1, pos as int) =~= v@.subrange(i + 1, pos - 2)
                        + v@.subrange(pos - 2, pos as int));
                    assert(v@.subrange(i + 1, pos as int) == enc_str(acc@));
                    assert forall|lbl: Seq<char>|
                        #[trigger] matches_at(v@, i as int, enc_item(lbl)) implies (acc@.len() <= lbl.len()
                        && acc@ == lbl.take(acc@.len() as int) && pos == i + 1 + enc_str(
                        lbl.take(acc@.len() as int),
                    ).len()) by {
                        lemma_item_step(v@, i as int, lbl, m);
                        assert(m < lbl.len());
                        let esc = esc_char(lbl[m]);
                        assert(matches_at(v@, pos - 2, esc));
                        assert(v@[pos - 2] == esc[0]);
                        assert(esc[0] == '\\');
                        assert(v@[pos - 1] == esc[1]);
                        assert(lbl[m] == d);
                        assert(acc@ =~= lbl.take(m + 1));
                    }
                }
            } else if e == 'u' {
                if v.len() - pos < 6 {
                    proof {
                        assert forall|lbl: Seq<char>| !matches_at(v@, i as int, enc_item(lbl)) by {
                            if matches_at(v@, i as int, enc_item(lbl)) {
                                lemma_item_step(v@, i as int, lbl, m);
                                if m < lbl.len() {
                                    let esc = esc_char(lbl[m]);
                                    assert(matches_at(v@, pos as int, esc));
                                    assert(v@[pos as int] == esc[0]);
                                    assert(v@[pos + 1] == esc[1]);
                                    assert(esc.len() == 6);
                                }
                            }
                        }
                    }
                    return (false, String::new(), i);
                }
                let z1 = v[pos + 2];
                let z2 = v[pos + 3];
                let (ok1, h1) = unhex(v[pos + 4]);
                let (ok2, h2) = unhex(v[pos + 5]);
                let val: u32 = if ok1 && ok2 {
                    h1 * 16 + h2
                } else {
                    0
                };
                if z1 != '0' || z2 != '0' || !ok1 || !ok2 || val >= 0x20 || val == 0x09 || val
                    == 0x0a || val == 0x0d {
                    proof {
                        assert forall|lbl: Seq<char>| !matches_at(v@, i as int, enc_item(lbl)) by {
                            if matches_at(v@, i as int, enc_item(lbl)) {
                                lemma_item_step(v@, i as int, lbl, m);
                                let esc = esc_char(lbl[m]);
                                assert(m < lbl.len());
                                assert(matches_at(v@, pos as int, esc));
                                assert(v@[pos as int] == esc[0]);
                                assert(v@[pos + 1] == esc[1]);
                                assert(esc[0] == '\\' && esc[1] == 'u');
                                let cv = lbl[m] as u32;
                                assert(cv < 0x20);
                                assert(v@[pos + 2] == esc[2] && v@[pos + 3] == esc[3]);
                                assert(esc[2] == '0' && esc[3] == '0');
                                assert(v@[pos + 4] == esc[4] && v@[pos + 5] == esc[5]);
                                assert(esc[4] == hex_digit(cv as int / 16) && esc[5] == hex_digit(
                                    cv as int % 16,
                                ));
                                assert(0 <= cv as int / 16 < 16 && 0 <= cv as int % 16 < 16);
                                assert(ok1 && ok2);
                                lemma_hex_inj(h1 as int, cv as int / 16);
                                lemma_hex_inj(h2 as int, cv as int % 16);
                                assert(val == cv);
                                assert(lbl[m] != '\n' && lbl[m] != '\r' && lbl[m] != '\t');
                                if cv == 0x09 {
                                    vstd::utf8::char_u32_cast(lbl[m], cv);
                                    vstd::utf8::char_u32_cast('\t', 0x09);
                                }
                                if cv == 0x0a {
                                    vstd::utf8::char_u32_cast(lbl[m], cv);
                                    vstd::utf8::char_u32_cast('\n', 0x0a);
                                }
                                if cv == 0x0d {
                                    vstd::utf8::char_u32_cast(lbl[m], cv);
                                    vstd::utf8::char_u32_cast('\r', 0x0d);
                                }
                            }
                        }
                    }
                    return (false, String::new(), i);
                }
                let d: char = (val as u8) as char;
                let ghost prevu = acc@;
                acc.push(d);
                pos = pos + 6;
                proof {
                    assert(d as u32 == val);
                    assert(val as int / 16 == h1 as int && val as int % 16 == h2 as int);
                    assert(hex_digit(h1 as int) == v@[pos - 2] && hex_digit(h2 as int) == v@[pos
                        - 1]);
                    assert(esc_char(d) =~= seq![
                        v@[pos - 6],
                        v@[pos - 5],
                        v@[pos - 4],
                        v@[pos - 3],
                        v@[pos - 2],
                        v@[pos - 1],
                    ]);
                    lemma_enc_str_push(prevu, d);
                    assert(v@.subrange(pos - 6, pos as int) =~= seq![
                        v@[pos - 6],
                        v@[pos - 5],
                        v@[pos - 4],
                        v@[pos - 3],
                        v@[pos - 2],
                        v@[pos - 1],
                    ]);
                    assert(v@.subrange(i + 1, pos as int) =~= v@.subrange(i + 1, pos - 6)
                        + v@.subrange(pos - 6, pos as int));
                    assert(v@.subrange(i + 1, pos as int) == enc_str(acc@));
                    assert forall|lbl: Seq<char>|
                        #[trigger] matches_at(v@, i as int, enc_item(lbl)) implies (acc@.len() <= lbl.len()
                        && acc@ == lbl.take(acc@.len() as int) && pos == i + 1 + enc_str(
                        lbl.take(acc@.len() as int),
                    ).len()) by {
                        lemma_item_step(v@, i as int, lbl, m);
                        assert(m < lbl.len());
                        let esc = esc_char(lbl[m]);
                        assert(matches_at(v@, pos - 6, esc));
                        assert(v@[pos - 6] == esc[0]);
                        assert(esc[0] == '\\');
                        assert(v@[pos - 5] == esc[1]);
                        assert(esc[1] == 'u');
                        let cv = lbl[m] as u32;
                        assert(v@[pos - 2] == hex_digit(cv as int / 16));
                        assert(v@[pos - 1] == hex_digit(cv as int % 16));
                        lemma_hex_inj(h1 as int, cv as int / 16);
                        lemma_hex_inj(h2 as int, cv as int % 16);
                        assert(cv == val);
                        assert(d as u32 == val);
                        vstd::utf8::char_u32_cast(lbl[m], val);
                        vstd::utf8::char_u32_cast(d, val);
                        assert(lbl[m] == d);
                        assert(acc@ =~= lbl.take(m + 1));
                    }
                }
            } else {
                proof {
                    assert forall|lbl: Seq<char>| !matches_at(v@, i as int, enc_item(lbl)) by {
                        if matches_at(v@, i as int, enc_item(lbl)) {
                            lemma_item_step(v@, i as int, lbl, m);
                            let esc = esc_char(lbl[m]);
                            assert(m < lbl.len());
                            assert(matches_at(v@, pos as int, esc));
                            assert(v@[pos as int] == esc[0]);
                            assert(esc[0] == '\\');
                            assert(v@[pos + 1] == esc[1]);
                        }
                    }
                }
                return (false, String::new(), i);
            }
        } else {
            let cu = c as u32;
            if cu < 0x20 {
                proof {
                    assert forall|lbl: Seq<char>| !matches_at(v@, i as int, enc_item(lbl)) by {
                        if matches_at(v@, i as int, enc_item(lbl)) {
                            lemma_item_step(v@, i as int, lbl, m);
                            if m < lbl.len() {
                                assert(matches_at(v@, pos as int, esc_char(lbl[m])));
                                assert(v@[pos as int] == esc_char(lbl[m])[0]);
                            }
                        }
                    }
                }
                return (false, String::new(), i);
            }
            let ghost prevp = acc@;
            acc.push(c);
            pos = pos + 1;
            proof {
                assert(esc_char(c) =~= seq![c]);
                lemma_enc_str_push(prevp, c);
                assert(v@.subrange(pos - 1, pos as int) =~= seq![v@[pos - 1]]);
                assert(v@.subrange(i + 1, pos as int) =~= v@.subrange(i + 1, pos - 1)
                    + v@.subrange(pos - 1, pos as int));
                assert(v@.subrange(i + 1, pos as int) == enc_str(acc@));
                assert forall|lbl: Seq<char>|
                    #[trigger] matches_at(v@, i as int, enc_item(lbl)) implies (acc@.len() <= lbl.len() && acc@
                    == lbl.take(acc@.len() as int) && pos == i + 1 + enc_str(
                    lbl.take(acc@.len() as int),
                ).len()) by {
                    lemma_item_step(v@, i as int, lbl, m);
                    assert(m < lbl.len());
                    assert(matches_at(v@, pos - 1, esc_char(lbl[m])));
                    assert(v@[pos - 1] == esc_char(lbl[m])[0]);
                    assert(lbl[m] == c);
                    assert(acc@ =~= lbl.take(m + 1));
                }
            }
        }
    }
}

/// Parse a whole canonical label array. On any input that is the canonical
/// encoding of some label list, the parse succeeds and returns exactly that
/// list.
#[verifier::rlimit(80)]
fn parse_labels_vec(v: &Vec<char>) -> (r: (bool, Vec<String>))
    ensures
        forall|ls: Seq<Seq<char>>|
            v@ == #[trigger] enc_labels(ls) ==> (r.0 && r.1.deep_view() == ls),
        r.0 ==> v@ == enc_labels(r.1.deep_view()),
{
    if v.len() < 2 {
        proof {
            assert forall|ls: Seq<Seq<char>>| v@ != enc_labels(ls) by {
                lemma_enc_labels_shape(ls);
            }
        }
        return (false, Vec::new());
    }
    if v[0] != '[' {
        proof {
            assert forall|ls: Seq<Seq<char>>| v@ != enc_labels(ls) by {
                lemma_enc_labels_shape(ls);
            }
        }
        return (false, Vec::new());
    }
    if v[1] == ']' {
        if v.len() == 2 {
            let out: Vec<String> = Vec::new();
            proof {
                assert forall|ls: Seq<Seq<char>>|
                    v@ == #[trigger] enc_labels(ls) implies out.deep_view() == ls by {
                    lemma_enc_labels_shape(ls);
                    if ls.len() > 0 {
                        assert(v@[1] == '"');
                    }
                    assert(out.deep_view() =~= ls);
                }
                assert(out.deep_view() =~= Seq::<Seq<char>>::empty());
                assert(v@ =~= enc_labels(out.deep_view()));
            }
            return (true, out);
        } else {
            proof {
                assert forall|ls: Seq<Seq<char>>| v@ != enc_labels(ls) by {
                    lemma_enc_labels_shape(ls);
                    if ls.len() == 0 {
                        assert(enc_labels(ls).len() == 2);
                    } else {
                        assert(enc_labels(ls)[1] == '"');
                    }
                }
            }
            return (false, Vec::new());
        }
    }
    let mut out: Vec<String> = Vec::new();
    let mut pos: usize = 1;
    proof {
        assert forall|ls: Seq<Seq<char>>|
            v@ == #[trigger] enc_labels(ls) implies (out@.len() < ls.len() && out.deep_view()
            == ls.take(out@.len() as int) && pos == item_start(ls, out@.len() as int)) by {
            lemma_enc_labels_shape(ls);
            if ls.len() == 0 {
                assert(v@[1] == ']');
            }
            assert(out.deep_view() =~= ls.take(0));
            assert(enc_head(ls, 0) == seq!['[']);
        }
    }
    proof {
        assert(v@.take(1) =~= seq!['[']);
        assert(enc_head(out.deep_view(), 0) == seq!['[']);
    }
    loop
        invariant
            v@.len() >= 2,
            v@.len() <= usize::MAX,
            1 <= pos <= v@.len(),
            v@.take(pos as int) == enc_head(out.deep_view(), out@.len() as int) + (if out@.len()
                == 0 {
                Seq::<char>::empty()
            } else {
                seq![',']
            }),
            forall|ls: Seq<Seq<char>>|
                v@ == #[trigger] enc_labels(ls) ==> (out@.len() < ls.len() && out.deep_view()
                    == ls.take(out@.len() as int) && pos == item_start(ls, out@.len() as int)),
        decreases v@.len() - pos,
    {
        let ghost k = out@.len() as int;
        let (ok, item, npos) = parse_item(v, pos);
        if !ok {
            proof {
                assert forall|ls: Seq<Seq<char>>| v@ != enc_labels(ls) by {
                    if v@ == enc_labels(ls) {
                        lemma_labels_item_at(ls, k);
                    }
                }
            }
            return (false, Vec::new());
        }
        let ghost prev = out;
        out.push(item);
        proof {
            assert forall|t: int|
                0 <= t < enc_item(item@).len() implies v@.subrange(pos as int, npos as int)[t]
                == enc_item(item@)[t] by {
                assert(v@[pos + t] == enc_item(item@)[t]);
            }
            assert(v@.subrange(pos as int, npos as int) =~= enc_item(item@));
            assert(out@ == prev@.push(item));
            assert forall|j: int|
                0 <= j < k implies out.deep_view()[j] == prev.deep_view()[j] by {
                assert(out@[j] == prev@[j]);
            }
            lemma_enc_head_prefix(prev.deep_view(), out.deep_view(), k);
            assert(out.deep_view()[k] == item@);
            if k == 0 {
                assert(enc_head(out.deep_view(), 1) == enc_head(out.deep_view(), 0) + enc_item(
                    item@,
                ));
            } else {
                assert(enc_head(out.deep_view(), k + 1) == enc_head(out.deep_view(), k) + seq![',']
                    + enc_item(item@));
            }
            assert(v@.take(npos as int) =~= v@.take(pos as int) + v@.subrange(
                pos as int,
                npos as int,
            ));
            assert(v@.take(npos as int) =~= enc_head(out.deep_view(), k + 1));
        }
        if npos >= v.len() {
            proof {
                assert forall|ls: Seq<Seq<char>>| v@ != enc_labels(ls) by {
                    if v@ == enc_labels(ls) {
                        lemma_labels_item_at(ls, k);
                    }
                }
            }
            return (false, Vec::new());
        }
        let c2 = v[npos];
        if c2 == ']' {
            if npos + 1 == v.len() {
                proof {
                    assert forall|ls: Seq<Seq<char>>|
                        v@ == #[trigger] enc_labels(ls) implies out.deep_view() == ls by {
                        lemma_labels_item_at(ls, k);
                        if k + 1 < ls.len() {
                            assert(v@[npos as int] == ',');
                        }
                        assert(out@ == prev@.push(item));
                        assert(item@ == ls[k]);
                        assert(out@.len() == k + 1);
                        assert forall|j: int| 0 <= j < out@.len() implies out.deep_view()[j]
                            == ls[j] by {
                            if j < k {
                                assert(prev.deep_view()[j] == ls.take(k)[j]);
                                assert(out@[j] == prev@[j]);
                            } else {
                                assert(out@[j] == item);
                            }
                        }
                        assert(out.deep_view() =~= ls);
                    }
                    assert(v@[npos as int] == ']');
                    assert(v@.take(npos + 1) =~= v@.take(npos as int) + seq![v@[npos as int]]);
                    assert(v@ =~= v@.take(npos + 1));
                    lemma_enc_labels_decomp(out.deep_view(), k + 1);
                    assert(out.deep_view().skip(k + 1) =~= Seq::<Seq<char>>::empty());
                    assert(v@ =~= enc_labels(out.deep_view()));
                }
                return (true, out);
            } else {
                proof {
                    assert forall|ls: Seq<Seq<char>>| v@ != enc_labels(ls) by {
                        if v@ == enc_labels(ls) {
                            lemma_labels_item_at(ls, k);
                            if k + 1 < ls.len() {
                                assert(v@[npos as int] == ',');
                            }
                        }
                    }
                }
                return (false, Vec::new());
            }
        } else if c2 == ',' {
            pos = npos + 1;
            proof {
                assert forall|ls: Seq<Seq<char>>|
                    v@ == #[trigger] enc_labels(ls) implies (out@.len() < ls.len()
                    && out.deep_view() == ls.take(out@.len() as int) && pos == item_start(
                    ls,
                    out@.len() as int,
                )) by {
                    lemma_labels_item_at(ls, k);
                    if k + 1 == ls.len() {
                        assert(v@[npos as int] == ']');
                    }
                    assert(out@ == prev@.push(item));
                    assert(item@ == ls[k]);
                    assert(out@.len() == k + 1);
                    assert forall|j: int| 0 <= j < out@.len() implies out.deep_view()[j]
                        == ls.take(k + 1)[j] by {
                        if j < k {
                            assert(prev.deep_view()[j] == ls.take(k)[j]);
                            assert(out@[j] == prev@[j]);
                        } else {
                            assert(out@[j] == item);
                        }
                    }
                    assert(out.deep_view() =~= ls.take(k + 1));
                }
                assert(v@[npos as int] == ',');
                assert(v@.take(pos as int) =~= v@.take(npos as int) + seq![v@[npos as int]]);
                assert(v@.take(pos as int) =~= enc_head(out.deep_view(), out@.len() as int)
                    + seq![',']);
            }
        } else {
            proof {
                assert forall|ls: Seq<Seq<char>>| v@ != enc_labels(ls) by {
                    if v@ == enc_labels(ls) {
                        lemma_labels_item_at(ls, k);
                        if k + 1 < ls.len() {
                            assert(v@[npos as int] == ',');
                        } else {
                            assert(v@[npos as int] == ']');
                        }
                    }
                }
            }
            return (false, Vec::new());
        }
    }
}

/// Deserialize a label list. Decoding the canonical encoding of any label
/// list returns that list exactly; any other text yields the empty list, and
/// the read never fails.
pub fn labels_from_json(s: &str) -> (r: Vec<String>)
    ensures
        forall|ls: Seq<Seq<char>>| s@ == #[trigger] enc_labels(ls) ==> r.deep_view() == ls,
        s@ == enc_labels(r.deep_view()) || r@.len() == 0,
{
    let v = str_chars(s);
    let (ok, out) = parse_labels_vec(&v);
    if ok {
        out
    } else {
        Vec::new()
    }
}

} // verus!
