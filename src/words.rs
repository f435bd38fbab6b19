use vstd::prelude::*;

use crate::text::{is_whitespace, is_ws, string_of};

verus! {

/// The words of `s`: its maximal runs of non-whitespace characters, in order.
/// Defined on prefixes: a whitespace character adds nothing, a character that
/// follows another non-whitespace character extends the last word, and any
/// other starts a new one.
pub open spec fn words(s: Seq<char>) -> Seq<Seq<char>>
    decreases s.len(),
{
    if s.len() == 0 {
        seq![]
    } else {
        let prev = words(s.drop_last());
        let c = s.last();
        if is_ws(c) {
            prev
        } else if s.len() >= 2 && !is_ws(s[s.len() - 2]) {
            prev.update(prev.len() - 1, prev.last().push(c))
        } else {
            prev.push(seq![c])
        }
    }
}

/// `s` with its leading whitespace removed.
pub open spec fn skip_ws(s: Seq<char>) -> Seq<char>
    decreases s.len(),
{
    if s.len() > 0 && is_ws(s[0]) {
        skip_ws(s.drop_first())
    } else {
        s
    }
}

/// `s` with its leading non-whitespace characters removed.
pub open spec fn skip_word(s: Seq<char>) -> Seq<char>
    decreases s.len(),
{
    if s.len() > 0 && !is_ws(s[0]) {
        skip_word(s.drop_first())
    } else {
        s
    }
}

/// What follows the first word of `s` and the whitespace after it.
pub open spec fn after_first_word(s: Seq<char>) -> Seq<char> {
    skip_ws(skip_word(skip_ws(s)))
}

/// Every element of `ws` is non-empty and free of whitespace.
pub open spec fn well_formed_words(ws: Seq<Seq<char>>) -> bool {
    forall|k: int|
        0 <= k < ws.len() ==> ws[k].len() > 0 && forall|j: int|
            0 <= j < ws[k].len() ==> !is_ws(#[trigger] ws[k][j])
}

/// The words of a sequence are non-empty, free of whitespace, and there is
/// none exactly when every character is whitespace.
pub proof fn lemma_words_shape(s: Seq<char>)
    ensures
        well_formed_words(words(s)),
        words(s).len() == 0 <==> forall|i: int| 0 <= i < s.len() ==> is_ws(#[trigger] s[i]),
        s.len() > 0 && !is_ws(s.last()) ==> words(s).len() > 0,
    decreases s.len(),
{
    if s.len() > 0 {
        let p = s.drop_last();
        lemma_words_shape(p);
        if words(s).len() == 0 {
            assert forall|i: int| 0 <= i < s.len() implies is_ws(#[trigger] s[i]) by {
                if i < p.len() {
                    assert(p[i] == s[i]);
                }
            }
        }
        if words(p).len() > 0 {
            let i = choose|i: int| 0 <= i < p.len() && !is_ws(#[trigger] p[i]);
            assert(s[i] == p[i]);
        }
    }
}

/// Whitespace appended to a sequence adds no word.
pub proof fn lemma_words_trailing_space(a: Seq<char>, w: Seq<char>)
    requires
        forall|i: int| 0 <= i < w.len() ==> is_ws(#[trigger] w[i]),
    ensures
        words(a + w) == words(a),
    decreases w.len(),
{
    if w.len() > 0 {
        assert((a + w).drop_last() =~= a + w.drop_last());
        lemma_words_trailing_space(a, w.drop_last());
    } else {
        assert(a + w =~= a);
    }
}

/// After a whitespace character, the words of what follows are added as they
/// are.
pub proof fn lemma_words_concat(a: Seq<char>, b: Seq<char>)
    requires
        a.len() > 0,
        is_ws(a.last()),
    ensures
        words(a + b) == words(a) + words(b),
    decreases b.len(),
{
    if b.len() == 0 {
        assert(a + b =~= a);
        assert(words(a) + words(b) =~= words(a));
    } else {
        let s = a + b;
        let p = b.drop_last();
        assert(s.drop_last() =~= a + p);
        lemma_words_concat(a, p);
        assert(s.last() == b.last());
        if b.len() >= 2 {
            assert(s[s.len() - 2] == b[b.len() - 2]);
            if !is_ws(b.last()) && !is_ws(b[b.len() - 2]) {
                lemma_words_shape(p);
                assert(p.last() == b[b.len() - 2]);
                assert((words(a) + words(p)).update(
                    (words(a) + words(p)).len() - 1,
                    (words(a) + words(p)).last().push(b.last()),
                ) =~= words(a) + words(p).update(words(p).len() - 1, words(p).last().push(b.last())));
            } else if !is_ws(b.last()) {
                assert(words(a) + words(p).push(seq![b.last()]) =~= (words(a) + words(p)).push(
                    seq![b.last()],
                ));
            }
        } else {
            assert(s[s.len() - 2] == a.last());
            assert(p.len() == 0);
            if !is_ws(b.last()) {
                assert(words(a) + words(b) =~= words(a).push(seq![b.last()]));
            } else {
                assert(words(a) + words(b) =~= words(a));
            }
        }
    }
}

/// Leading whitespace is skipped entirely.
pub proof fn lemma_skip_ws_prefix(w: Seq<char>, t: Seq<char>)
    requires
        forall|i: int| 0 <= i < w.len() ==> is_ws(#[trigger] w[i]),
    ensures
        skip_ws(w + t) == skip_ws(t),
    decreases w.len(),
{
    if w.len() > 0 {
        assert((w + t).drop_first() =~= w.drop_first() + t);
        lemma_skip_ws_prefix(w.drop_first(), t);
    } else {
        assert(w + t =~= t);
    }
}

/// A leading word is skipped entirely.
pub proof fn lemma_skip_word_prefix(x: Seq<char>, t: Seq<char>)
    requires
        forall|i: int| 0 <= i < x.len() ==> !is_ws(#[trigger] x[i]),
    ensures
        skip_word(x + t) == skip_word(t),
    decreases x.len(),
{
    if x.len() > 0 {
        assert((x + t).drop_first() =~= x.drop_first() + t);
        lemma_skip_word_prefix(x.drop_first(), t);
    } else {
        assert(x + t =~= t);
    }
}

/// The views of a vector of strings.
pub open spec fn views(v: Seq<String>) -> Seq<Seq<char>> {
    v.map_values(|t: String| t@)
}

/// The words of `cs`, as character vectors.
pub fn word_chars(cs: &Vec<char>) -> (r: Vec<Vec<char>>)
    ensures
        r@.map_values(|w: Vec<char>| w@) == words(cs@),
{
    let mut r: Vec<Vec<char>> = Vec::new();
    let mut cur: Vec<char> = Vec::new();
    let mut i: usize = 0;
    while i < cs.len()
        invariant
            i <= cs.len(),
            cur@.len() > 0 <==> (i > 0 && !is_ws(cs@[i - 1])),
            cur@.len() == 0 ==> r@.map_values(|w: Vec<char>| w@) == words(cs@.take(i as int)),
            cur@.len() > 0 ==> r@.map_values(|w: Vec<char>| w@).push(cur@) == words(
                cs@.take(i as int),
            ),
        decreases cs.len() - i,
    {
        let c = cs[i];
        let ghost t = cs@.take(i + 1);
        assert(t.drop_last() == cs@.take(i as int));
        assert(t.last() == c);
        let ghost before = r@.map_values(|w: Vec<char>| w@);
        if is_whitespace(c) {
            if cur.len() > 0 {
                let ghost cv = cur@;
                r.push(cur);
                cur = Vec::new();
                assert(r@.map_values(|w: Vec<char>| w@) == before.push(cv));
            }
        } else {
            let ghost prev_cur = cur@;
            cur.push(c);
            if cur.len() > 1 {
                assert(i >= 1 && !is_ws(t[t.len() - 2]));
                assert(before.push(prev_cur).update(before.len() as int, prev_cur.push(c))
                    == before.push(cur@));
            } else {
                assert(!(t.len() >= 2 && !is_ws(t[t.len() - 2])));
                assert(cur@ == seq![c]);
                assert(words(t) == before.push(seq![c]));
            }
        }
        i += 1;
    }
    if cur.len() > 0 {
        r.push(cur);
    }
    assert(cs@.take(cs.len() as int) == cs@);
    r
}

/// The words of `line`.
pub fn split_words(line: &str) -> (r: Vec<String>)
    ensures
        views(r@) == words(line@),
{
    let cs = crate::text::chars_of(line);
    let ws = word_chars(&cs);
    let mut r: Vec<String> = Vec::new();
    for k in 0..ws.len()
        invariant
            ws@.map_values(|w: Vec<char>| w@) == words(line@),
            views(r@) == ws@.map_values(|w: Vec<char>| w@).take(k as int),
    {
        let ghost before = r@;
        let t = string_of(&ws[k]);
        r.push(t);
        assert(r@ == before.push(t));
        assert(views(r@) =~= views(before).push(ws@[k as int]@));
        assert(views(r@) =~= ws@.map_values(|w: Vec<char>| w@).take(k + 1));
    }
    assert(ws@.map_values(|w: Vec<char>| w@).take(ws.len() as int) == ws@.map_values(
        |w: Vec<char>| w@,
    ));
    r
}

/// The first index at or after `start` whose character is not whitespace
/// (or the length).
fn skip_spaces(cs: &Vec<char>, start: usize) -> (r: usize)
    requires
        start <= cs.len(),
    ensures
        start <= r <= cs.len(),
        cs@.skip(r as int) == skip_ws(cs@.skip(start as int)),
{
    let mut i = start;
    while i < cs.len() && is_whitespace(cs[i])
        invariant
            start <= i <= cs.len(),
            skip_ws(cs@.skip(i as int)) == skip_ws(cs@.skip(start as int)),
        decreases cs.len() - i,
    {
        assert(cs@.skip(i as int).drop_first() == cs@.skip(i + 1));
        i += 1;
    }
    i
}

/// The first index at or after `start` whose character is whitespace (or the
/// length).
fn skip_letters(cs: &Vec<char>, start: usize) -> (r: usize)
    requires
        start <= cs.len(),
    ensures
        start <= r <= cs.len(),
        cs@.skip(r as int) == skip_word(cs@.skip(start as int)),
{
    let mut i = start;
    while i < cs.len() && !is_whitespace(cs[i])
        invariant
            start <= i <= cs.len(),
            skip_word(cs@.skip(i as int)) == skip_word(cs@.skip(start as int)),
        decreases cs.len() - i,
    {
        assert(cs@.skip(i as int).drop_first() == cs@.skip(i + 1));
        i += 1;
    }
    i
}

/// What follows the first word of `cs` and the whitespace after it.
pub fn rest_after_first_word(cs: &Vec<char>) -> (r: Vec<char>)
    ensures
        r@ == after_first_word(cs@),
{
    assert(cs@.skip(0) == cs@);
    let a = skip_spaces(cs, 0);
    let b = skip_letters(cs, a);
    let c = skip_spaces(cs, b);
    let mut r: Vec<char> = Vec::new();
    let mut i = c;
    while i < cs.len()
        invariant
            c <= i <= cs.len(),
            r@ == cs@.subrange(c as int, i as int),
        decreases cs.len() - i,
    {
        r.push(cs[i]);
        assert(cs@.subrange(c as int, i + 1) == cs@.subrange(c as int, i as int).push(cs@[i as int]));
        i += 1;
    }
    assert(cs@.subrange(c as int, cs.len() as int) == cs@.skip(c as int));
    r
}

} // verus!
