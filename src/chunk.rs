//! Splitting a transcript into chunks of roughly equal word count.
use vstd::prelude::*;
use crate::text::{is_space, is_space_char, join_with, chars_of, string_from, join_range};

verus! {

/// The maximal runs of non-whitespace characters of `s`, in order: what
/// `str::split_whitespace` yields.
pub open spec fn words(s: Seq<char>) -> Seq<Seq<char>>
    decreases s.len(),
{
    if s.len() == 0 {
        Seq::empty()
    } else {
        let w = words(s.drop_last());
        let c = s.last();
        if is_space(c) {
            w
        } else if s.len() >= 2 && !is_space(s[s.len() - 2]) {
            w.drop_last().push(w.last().push(c))
        } else {
            w.push(seq![c])
        }
    }
}

/// `a / b`, rounded up.
pub open spec fn ceil_div(a: int, b: int) -> int {
    (a + b - 1) / b
}

/// The words `ws[lo..hi]` (`hi` capped at the end) joined by single spaces.
pub open spec fn joined_words(ws: Seq<Seq<char>>, lo: int, hi: int) -> Seq<char> {
    join_with(ws.subrange(lo, if hi < ws.len() { hi } else { ws.len() as int }), seq![' '])
}

/// What `split(text, n)` returns. For `n <= 1`, the text itself. Otherwise
/// the words of the text in consecutive groups of `ceil(words / n)`, each group
/// joined by single spaces; a text without words gives one empty chunk.
pub open spec fn split_spec(text: Seq<char>, n: int) -> Seq<Seq<char>> {
    if n <= 1 {
        seq![text]
    } else {
        let ws = words(text);
        if ws.len() == 0 {
            seq![Seq::empty()]
        } else {
            let size = ceil_div(ws.len() as int, n);
            Seq::new(
                ceil_div(ws.len() as int, size) as nat,
                |k: int| joined_words(ws, k * size, (k + 1) * size),
            )
        }
    }
}

/// `total / parts`, rounded up.
pub fn chunk_len(total: usize, parts: usize) -> (r: usize)
    requires
        parts > 0,
    ensures
        r as int == ceil_div(total as int, parts as int),
        total > 0 ==> r > 0,
        r <= total,
{
    let q = total / parts;
    let m = total % parts;
    proof {
        vstd::arithmetic::div_mod::lemma_fundamental_div_mod(total as int, parts as int);
        let (t, p, qi, mi) = (total as int, parts as int, q as int, m as int);
        assert(qi * p == p * qi) by (nonlinear_arith);
        assert(qi == 0 ==> p * qi == 0) by (nonlinear_arith);
        assert(qi <= qi * p) by (nonlinear_arith)
            requires
                p >= 1,
                qi >= 0,
        ;
        if m == 0 {
            assert(t + p - 1 == qi * p + (p - 1));
            vstd::arithmetic::div_mod::lemma_fundamental_div_mod_converse(t + p - 1, p, qi, p - 1);
        } else {
            assert((qi + 1) * p == qi * p + p) by (nonlinear_arith);
            assert(t + p - 1 == (qi + 1) * p + (mi - 1));
            vstd::arithmetic::div_mod::lemma_fundamental_div_mod_converse(
                t + p - 1,
                p,
                qi + 1,
                mi - 1,
            );
        }
    }
    if m == 0 {
        q
    } else {
        q + 1
    }
}

/// The whitespace-separated words of `text`, in order.
pub fn split_words(text: &str) -> (r: Vec<String>)
    ensures
        r.deep_view() == words(text@),
{
    let cs = chars_of(text);
    let mut out: Vec<String> = Vec::new();
    let mut in_word = false;
    let mut start: usize = 0;
    let mut i: usize = 0;
    while i < cs.len()
        invariant
            cs@ == text@,
            i <= cs@.len(),
            in_word <==> (i > 0 && !is_space(cs@[i - 1])),
            in_word ==> start < i,
            in_word ==> words(cs@.take(i as int)) == out.deep_view().push(
                cs@.subrange(start as int, i as int),
            ),
            !in_word ==> words(cs@.take(i as int)) == out.deep_view(),
        decreases cs@.len() - i,
    {
        let c = cs[i];
        let ghost pre = cs@.take(i as int);
        let ghost cur = cs@.take(i + 1);
        assert(cur.drop_last() =~= pre);
        if is_space_char(c) {
            if in_word {
                let w = string_from(&cs, start, i);
                out.push(w);
            }
            in_word = false;
        } else {
            if !in_word {
                start = i;
                in_word = true;
                assert(cs@.subrange(i as int, i + 1) =~= seq![c]);
            } else {
                assert(cur[cur.len() - 2] == cs@[i - 1]);
                assert(cs@.subrange(start as int, i + 1) =~= cs@.subrange(start as int, i as int).push(
                    c,
                ));
            }
        }
        i = i + 1;
    }
    if in_word {
        let w = string_from(&cs, start, cs.len());
        out.push(w);
    }
    assert(cs@.take(cs@.len() as int) =~= cs@);
    out
}

/// Splits a transcript into `n` pieces of roughly equal word count.
///
/// For `n <= 1` the transcript comes back whole, whitespace included. Otherwise
/// its words go, in order, into consecutive chunks of `ceil(words / n)` words,
/// each chunk's words joined by single spaces; the last chunk holds the rest,
/// so fewer than `n` chunks come back when words are few. A transcript with no
/// words gives a single empty chunk, so that one request is still made.
pub fn split(text: &str, n: usize) -> (r: Vec<String>)
    ensures
        r.deep_view() == split_spec(text@, n as int),
        n <= 1 ==> r.deep_view() == seq![text@],
        n > 1 && words(text@).len() > 0 ==> r@.len() == ceil_div(
            words(text@).len() as int,
            ceil_div(words(text@).len() as int, n as int),
        ),
        r@.len() >= 1,
        n >= 1 ==> r@.len() <= n,
{
    if n <= 1 {
        let v = vec![text.to_owned()];
        assert(v.deep_view() =~= split_spec(text@, n as int));
        return v;
    }
    let ws = split_words(text);
    let total = ws.len();
    if total == 0 {
        let v = vec![String::new()];
        assert(v.deep_view() =~= split_spec(text@, n as int));
        return v;
    }
    let size = chunk_len(total, n);
    let ghost spec = split_spec(text@, n as int);
    let mut out: Vec<String> = Vec::new();
    let mut start: usize = 0;
    let mut k: usize = 0;
    while start < total
        invariant
            ws.deep_view() == words(text@),
            total == ws@.len(),
            1 <= size <= total,
            size as int == ceil_div(total as int, n as int),
            n >= 2,
            start as int == if k * size < total { k * size } else { total as int },
            k <= total,
            start < total ==> start as int == k * size,
            k > 0 ==> (k - 1) * size < total,
            out@.len() == k,
            forall|j: int|
                0 <= j < k ==> #[trigger] out.deep_view()[j] == joined_words(
                    ws.deep_view(),
                    j * size,
                    (j + 1) * size,
                ),
        decreases total - start,
    {
        let end = if total - start < size {
            total
        } else {
            start + size
        };
        let chunk = join_range(&ws, start, end, " ");
        proof {
            assert((k + 1) * size == k * size + size) by (nonlinear_arith);
            assert(k < total) by (nonlinear_arith)
                requires
                    k * size < total,
                    size >= 1,
            ;
            assert(" "@ =~= seq![' ']) by {
                reveal_strlit(" ");
            }
        }
        let ghost before = out.deep_view();
        out.push(chunk);
        assert(end as int == if (k + 1) * size < total { (k + 1) * size } else { total as int });
        assert forall|j: int| 0 <= j < k + 1 implies #[trigger] out.deep_view()[j] == joined_words(
            ws.deep_view(),
            j * size,
            (j + 1) * size,
        ) by {
            if j < k {
                assert(out.deep_view()[j] == before[j]);
            }
        }
        start = end;
        k = k + 1;
    }
    proof {
        let (t, z, ki) = (total as int, size as int, k as int);
        assert(t + z - 1 == ki * z + (t + z - 1 - ki * z));
        assert((ki - 1) * z == ki * z - z) by (nonlinear_arith);
        vstd::arithmetic::div_mod::lemma_fundamental_div_mod_converse(
            t + z - 1,
            z,
            ki,
            t + z - 1 - ki * z,
        );
        assert(out.deep_view() =~= spec);
        assert(ki <= n) by (nonlinear_arith)
            requires
                (ki - 1) * z < t,
                z == (t + n - 1) / (n as int),
                n >= 2,
                ki >= 1,
                z >= 1,
        ;
    }
    out
}

/// A word: not empty, and free of whitespace.
pub open spec fn is_word(w: Seq<char>) -> bool {
    w.len() > 0 && forall|i: int| 0 <= i < w.len() ==> !is_space(#[trigger] w[i])
}

proof fn lemma_words_are_words(s: Seq<char>)
    ensures
        forall|k: int| 0 <= k < words(s).len() ==> is_word(#[trigger] words(s)[k]),
    decreases s.len(),
{
    if s.len() > 0 {
        lemma_words_are_words(s.drop_last());
        let w = words(s.drop_last());
        let c = s.last();
        if !is_space(c) && s.len() >= 2 && !is_space(s[s.len() - 2]) {
            lemma_last_char_in_last_word(s.drop_last());
            let nw = w.last().push(c);
            assert(is_word(nw)) by {
                assert forall|i: int| 0 <= i < nw.len() implies !is_space(#[trigger] nw[i]) by {
                    if i < nw.len() - 1 {
                        assert(nw[i] == w.last()[i]);
                    }
                }
            }
            assert forall|k: int| 0 <= k < words(s).len() implies is_word(#[trigger] words(s)[k]) by {
                if k < w.len() - 1 {
                    assert(words(s)[k] == w[k]);
                }
            }
        } else if !is_space(c) {
            assert(is_word(seq![c]));
            assert forall|k: int| 0 <= k < words(s).len() implies is_word(#[trigger] words(s)[k]) by {
                if k < w.len() {
                    assert(words(s)[k] == w[k]);
                }
            }
        }
    }
}

/// A text that ends in a non-space character has words.
proof fn lemma_last_char_in_last_word(s: Seq<char>)
    requires
        s.len() > 0,
        !is_space(s.last()),
    ensures
        words(s).len() > 0,
    decreases s.len(),
{
    if s.len() >= 2 && !is_space(s[s.len() - 2]) {
        lemma_last_char_in_last_word(s.drop_last());
    }
}

/// After a space (or at the start), a word adds itself to the words.
proof fn lemma_words_append_word(p: Seq<char>, w: Seq<char>)
    requires
        p.len() == 0 || is_space(p.last()),
        is_word(w),
    ensures
        words(p + w) == words(p).push(w),
    decreases w.len(),
{
    let s = p + w;
    assert(s.drop_last() =~= p + w.drop_last());
    if w.len() == 1 {
        assert(p + w.drop_last() =~= p);
        assert(w =~= seq![w[0]]);
    } else {
        let v = w.drop_last();
        assert(is_word(v)) by {
            assert forall|i: int| 0 <= i < v.len() implies !is_space(#[trigger] v[i]) by {
                assert(v[i] == w[i]);
            }
        }
        lemma_words_append_word(p, v);
        assert(s[s.len() - 2] == w[w.len() - 2]);
        assert(v.push(w.last()) =~= w);
        assert(words(p).push(v).drop_last() =~= words(p));
    }
}

/// Words joined by single spaces split back into the same words.
proof fn lemma_words_of_joined(ws: Seq<Seq<char>>)
    requires
        forall|k: int| 0 <= k < ws.len() ==> is_word(#[trigger] ws[k]),
    ensures
        words(join_with(ws, seq![' '])) == ws,
    decreases ws.len(),
{
    if ws.len() == 1 {
        lemma_words_append_word(Seq::empty(), ws[0]);
        assert(Seq::<char>::empty() + ws[0] =~= ws[0]);
        assert(seq![ws[0]] =~= ws);
    } else if ws.len() >= 2 {
        let front = ws.drop_last();
        assert forall|k: int| 0 <= k < front.len() implies is_word(#[trigger] front[k]) by {
            assert(front[k] == ws[k]);
        }
        lemma_words_of_joined(front);
        let j = join_with(front, seq![' ']);
        let p = j + seq![' '];
        assert(p.drop_last() =~= j);
        lemma_words_append_word(p, ws.last());
        assert(front.push(ws.last()) =~= ws);
    } else {
        assert(ws =~= Seq::<Seq<char>>::empty());
    }
}

/// Joining two non-empty runs of pieces joins their joins.
proof fn lemma_join_concat(a: Seq<Seq<char>>, b: Seq<Seq<char>>, sep: Seq<char>)
    requires
        a.len() > 0,
        b.len() > 0,
    ensures
        join_with(a + b, sep) == join_with(a, sep) + sep + join_with(b, sep),
    decreases b.len(),
{
    let ab = a + b;
    if b.len() == 1 {
        assert(ab.drop_last() =~= a);
    } else {
        let bf = b.drop_last();
        lemma_join_concat(a, bf, sep);
        assert(ab.drop_last() =~= a + bf);
        assert(join_with(a, sep) + sep + join_with(bf, sep) + sep + b.last() =~= join_with(a, sep)
            + sep + (join_with(bf, sep) + sep + b.last()));
    }
}

/// The first `m` chunks, joined by spaces, are the words that they hold
/// joined by spaces.
proof fn lemma_chunks_prefix(ws: Seq<Seq<char>>, size: int, m: int)
    requires
        ws.len() > 0,
        size >= 1,
        0 <= m,
        (m - 1) * size < ws.len(),
    ensures
        join_with(
            Seq::new(m as nat, |k: int| joined_words(ws, k * size, (k + 1) * size)),
            seq![' '],
        ) == join_with(
            ws.take(if m * size < ws.len() { m * size } else { ws.len() as int }),
            seq![' '],
        ),
    decreases m,
{
    let chunks = Seq::new(m as nat, |k: int| joined_words(ws, k * size, (k + 1) * size));
    if m == 0 {
        assert(chunks =~= Seq::<Seq<char>>::empty());
        assert(ws.take(0) =~= Seq::<Seq<char>>::empty());
    } else {
        let lo = (m - 1) * size;
        assert(m * size == lo + size) by (nonlinear_arith)
            requires
                lo == (m - 1) * size,
        ;
        assert((m - 2) * size == lo - size) by (nonlinear_arith)
            requires
                lo == (m - 1) * size,
        ;
        assert(lo >= 0) by (nonlinear_arith)
            requires
                m >= 1,
                size >= 1,
                lo == (m - 1) * size,
        ;
        let hi = if m * size < ws.len() { m * size } else { ws.len() as int };
        lemma_chunks_prefix(ws, size, m - 1);
        let front = Seq::new((m - 1) as nat, |k: int| joined_words(ws, k * size, (k + 1) * size));
        assert(chunks.drop_last() =~= front);
        assert(chunks.last() == join_with(ws.subrange(lo, hi), seq![' ']));
        if m == 1 {
            assert(lo == 0) by (nonlinear_arith)
                requires
                    lo == (m - 1) * size,
                    m == 1,
            ;
            assert(ws.take(hi) =~= ws.subrange(lo, hi));
            assert(chunks =~= seq![chunks[0]]);
        } else {
            lemma_join_concat(ws.take(lo), ws.subrange(lo, hi), seq![' ']);
            assert(ws.take(lo) + ws.subrange(lo, hi) =~= ws.take(hi));
        }
    }
}

/// For more than one chunk, the chunks joined again by single spaces hold
/// exactly the words of the text, in their order.
pub proof fn lemma_split_keeps_words(text: Seq<char>, n: int)
    requires
        n > 1,
    ensures
        words(join_with(split_spec(text, n), seq![' '])) == words(text),
{
    let ws = words(text);
    if ws.len() == 0 {
        assert(split_spec(text, n) =~= seq![Seq::<char>::empty()]);
        assert(join_with(split_spec(text, n), seq![' ']) == Seq::<char>::empty());
        assert(words(Seq::<char>::empty()) =~= ws);
    } else {
        let size = ceil_div(ws.len() as int, n);
        let count = ceil_div(ws.len() as int, size);
        assert(size >= 1) by {
            vstd::arithmetic::div_mod::lemma_div_is_ordered(n, ws.len() + n - 1, n);
            vstd::arithmetic::div_mod::lemma_div_by_self(n);
        }
        vstd::arithmetic::div_mod::lemma_fundamental_div_mod(ws.len() + size - 1, size);
        let r = (ws.len() + size - 1) % size;
        assert(0 <= r < size) by {
            vstd::arithmetic::div_mod::lemma_mod_bound(ws.len() + size - 1, size);
        }
        assert(size * count == count * size) by (nonlinear_arith);
        assert((count - 1) * size == count * size - size) by (nonlinear_arith);
        lemma_chunks_prefix(ws, size, count);
        assert(ws.take(ws.len() as int) =~= ws);
        lemma_words_are_words(text);
        lemma_words_of_joined(ws);
    }
}

} // verus!
