//! SQL `LIKE` patterns for the local search, with `\` as the escape
//! character, and the proof that the two patterns it builds select exactly
//! the texts that hold the query contiguously, or as a subsequence.
use vstd::prelude::*;
use crate::text::{is_subsequence, is_substring, push_char};
use crate::text::chars_of;

verus! {

/// Whether text `t` matches `LIKE` pattern `p` (escape character `\`):
/// `%` matches any run of characters, `_` any one character, `\c` the
/// character `c` itself, and every other character itself.
pub open spec fn like_match(p: Seq<char>, t: Seq<char>) -> bool
    decreases p.len() + t.len(),
{
    if p.len() == 0 {
        t.len() == 0
    } else if p[0] == '%' {
        like_match(p.drop_first(), t) || (t.len() > 0 && like_match(p, t.drop_first()))
    } else if t.len() == 0 {
        false
    } else if p[0] == '_' {
        like_match(p.drop_first(), t.drop_first())
    } else if p[0] == '\\' && p.len() >= 2 {
        t[0] == p[1] && like_match(p.subrange(2, p.len() as int), t.drop_first())
    } else {
        t[0] == p[0] && like_match(p.drop_first(), t.drop_first())
    }
}

/// The characters that `LIKE` gives a meaning of their own.
pub open spec fn is_like_meta(c: char) -> bool {
    c == '%' || c == '_' || c == '\\'
}

/// One character written so that `LIKE` reads it literally.
pub open spec fn escape_char(c: char) -> Seq<char> {
    if is_like_meta(c) {
        seq!['\\', c]
    } else {
        seq![c]
    }
}

/// A text written so that `LIKE` reads each of its characters literally.
pub open spec fn escaped(q: Seq<char>) -> Seq<char>
    decreases q.len(),
{
    if q.len() == 0 {
        Seq::empty()
    } else {
        escape_char(q[0]) + escaped(q.drop_first())
    }
}

/// Each character of `q`, read literally, followed by a `%`.
pub open spec fn spaced(q: Seq<char>) -> Seq<char>
    decreases q.len(),
{
    if q.len() == 0 {
        Seq::empty()
    } else {
        escape_char(q[0]) + seq!['%'] + spaced(q.drop_first())
    }
}

/// The pattern for texts that hold `q` as a contiguous run: `%q%`.
pub open spec fn contiguous_pattern_of(q: Seq<char>) -> Seq<char> {
    seq!['%'] + escaped(q) + seq!['%']
}

/// The pattern for texts that hold `q` as a subsequence: `%q%u%e%r%y%`.
pub open spec fn subsequence_pattern_of(q: Seq<char>) -> Seq<char> {
    seq!['%'] + spaced(q)
}

proof fn lemma_escaped_push(q: Seq<char>, c: char)
    ensures
        escaped(q.push(c)) == escaped(q) + escape_char(c),
    decreases q.len(),
{
    if q.len() == 0 {
        let e = q.push(c).drop_first();
        assert(e =~= Seq::<char>::empty());
        assert(escaped(e) =~= Seq::<char>::empty());
        assert(escaped(q) =~= Seq::<char>::empty());
        assert(escaped(q.push(c)) =~= escape_char(c));
    } else {
        assert(q.push(c).drop_first() =~= q.drop_first().push(c));
        lemma_escaped_push(q.drop_first(), c);
        assert(escaped(q.push(c)) =~= escaped(q) + escape_char(c));
    }
}

proof fn lemma_spaced_push(q: Seq<char>, c: char)
    ensures
        spaced(q.push(c)) == spaced(q) + escape_char(c) + seq!['%'],
    decreases q.len(),
{
    if q.len() == 0 {
        let e = q.push(c).drop_first();
        assert(e =~= Seq::<char>::empty());
        assert(spaced(e) =~= Seq::<char>::empty());
        assert(spaced(q) =~= Seq::<char>::empty());
        assert(spaced(q.push(c)) =~= escape_char(c) + seq!['%']);
    } else {
        assert(q.push(c).drop_first() =~= q.drop_first().push(c));
        lemma_spaced_push(q.drop_first(), c);
        assert(spaced(q.push(c)) =~= spaced(q) + escape_char(c) + seq!['%']);
    }
}

/// A literally written character matches exactly itself.
proof fn lemma_like_literal(c: char, rest: Seq<char>, t: Seq<char>)
    ensures
        like_match(escape_char(c) + rest, t) == (t.len() > 0 && t[0] == c && like_match(
            rest,
            t.drop_first(),
        )),
{
    let p = escape_char(c) + rest;
    if is_like_meta(c) {
        assert(p[0] == '\\');
        assert(p[1] == c);
        assert(p.subrange(2, p.len() as int) =~= rest);
    } else {
        assert(p[0] == c);
        assert(p.drop_first() =~= rest);
    }
}

/// A lone `%` matches every text.
proof fn lemma_like_percent(t: Seq<char>)
    ensures
        like_match(seq!['%'], t),
    decreases t.len(),
{
    let p = seq!['%'];
    assert(p[0] == '%');
    assert(p.drop_first() =~= Seq::<char>::empty());
    if t.len() > 0 {
        lemma_like_percent(t.drop_first());
    } else {
        assert(like_match(p.drop_first(), t));
    }
}

/// The subsequence pattern of `q` matches exactly the texts that hold `q` as
/// a subsequence.
pub proof fn lemma_subsequence_pattern(q: Seq<char>, t: Seq<char>)
    ensures
        like_match(subsequence_pattern_of(q), t) == is_subsequence(q, t),
    decreases q.len(), t.len(),
{
    let p = subsequence_pattern_of(q);
    assert(p[0] == '%');
    assert(p.drop_first() =~= spaced(q));
    if t.len() > 0 {
        lemma_subsequence_pattern(q, t.drop_first());
    }
    assert(like_match(p, t) == (like_match(spaced(q), t) || (t.len() > 0 && like_match(
        p,
        t.drop_first(),
    ))));
    if q.len() == 0 {
        assert(spaced(q) =~= Seq::<char>::empty());
        assert(like_match(spaced(q), t) == (t.len() == 0));
    } else {
        let q1 = q.drop_first();
        assert(spaced(q) =~= escape_char(q[0]) + subsequence_pattern_of(q1));
        lemma_like_literal(q[0], subsequence_pattern_of(q1), t);
        if t.len() > 0 {
            lemma_subsequence_pattern(q1, t.drop_first());
        }
    }
}

/// `escaped(q)` followed by `%` matches exactly the texts that start with `q`.
proof fn lemma_like_prefix(q: Seq<char>, s: Seq<char>)
    ensures
        like_match(escaped(q) + seq!['%'], s) == (q.len() <= s.len() && s.subrange(0, q.len() as int)
            == q),
    decreases q.len(),
{
    if q.len() == 0 {
        assert(escaped(q) + seq!['%'] =~= seq!['%']);
        lemma_like_percent(s);
        assert(s.subrange(0, 0) =~= q);
    } else {
        let q1 = q.drop_first();
        assert(escaped(q) + seq!['%'] =~= escape_char(q[0]) + (escaped(q1) + seq!['%']));
        lemma_like_literal(q[0], escaped(q1) + seq!['%'], s);
        if s.len() > 0 {
            lemma_like_prefix(q1, s.drop_first());
            if q.len() <= s.len() {
                assert(s.subrange(0, q.len() as int).drop_first() =~= s.drop_first().subrange(
                    0,
                    q1.len() as int,
                ));
                if s.subrange(0, q.len() as int) == q {
                    assert(s[0] == s.subrange(0, q.len() as int)[0]);
                }
                if s[0] == q[0] && s.drop_first().subrange(0, q1.len() as int) == q1 {
                    assert forall|k: int| 0 <= k < q.len() implies s.subrange(0, q.len() as int)[k]
                        == q[k] by {
                        if k > 0 {
                            assert(s.drop_first().subrange(0, q1.len() as int)[k - 1] == q1[k - 1]);
                        }
                    }
                    assert(s.subrange(0, q.len() as int) =~= q);
                }
            }
        }
    }
}

/// A text holds `q` contiguously iff it starts with `q` or its tail holds `q`.
proof fn lemma_substring_step(q: Seq<char>, t: Seq<char>)
    ensures
        is_substring(q, t) == ((q.len() <= t.len() && t.subrange(0, q.len() as int) == q) || (
        t.len() > 0 && is_substring(q, t.drop_first()))),
{
    let n = q.len() as int;
    if is_substring(q, t) {
        let i = choose|i: int| 0 <= i && i + n <= t.len() && #[trigger] t.subrange(i, i + n) == q;
        if i > 0 {
            assert(t.drop_first().subrange(i - 1, i - 1 + n) =~= t.subrange(i, i + n));
        }
    }
    if n <= t.len() && t.subrange(0, n) == q {
        assert(t.subrange(0, 0 + n) == q);
    }
    if t.len() > 0 && is_substring(q, t.drop_first()) {
        let j = choose|j: int|
            0 <= j && j + n <= t.drop_first().len() && #[trigger] t.drop_first().subrange(j, j + n)
                == q;
        assert(t.subrange(j + 1, j + 1 + n) =~= t.drop_first().subrange(j, j + n));
    }
}

/// The contiguous pattern of `q` matches exactly the texts that hold `q` as a
/// contiguous run.
pub proof fn lemma_contiguous_pattern(q: Seq<char>, t: Seq<char>)
    ensures
        like_match(contiguous_pattern_of(q), t) == is_substring(q, t),
    decreases t.len(),
{
    let p = contiguous_pattern_of(q);
    assert(p[0] == '%');
    assert(p.drop_first() =~= escaped(q) + seq!['%']);
    lemma_like_prefix(q, t);
    lemma_substring_step(q, t);
    if t.len() > 0 {
        lemma_contiguous_pattern(q, t.drop_first());
    }
}

/// `input` with every `LIKE` metacharacter (`%`, `_`, `\`) preceded by `\`.
pub fn escape_like(input: &str) -> (r: String)
    ensures
        r@ == escaped(input@),
{
    let cs = chars_of(input);
    let mut out = String::new();
    let mut i: usize = 0;
    while i < cs.len()
        invariant
            i <= cs.len(),
            out@ == escaped(cs@.subrange(0, i as int)),
        decreases cs.len() - i,
    {
        let ch = cs[i];
        if ch == '%' || ch == '_' || ch == '\\' {
            push_char(&mut out, '\\');
        }
        push_char(&mut out, ch);
        proof {
            assert(cs@.subrange(0, i + 1) =~= cs@.subrange(0, i as int).push(ch));
            lemma_escaped_push(cs@.subrange(0, i as int), ch);
        }
        i = i + 1;
        assert(out@ =~= escaped(cs@.subrange(0, i as int)));
    }
    assert(cs@.subrange(0, cs.len() as int) =~= cs@);
    out
}

/// The pattern `%q%` for texts that hold `q` as a contiguous run.
pub fn contiguous_pattern(q: &str) -> (r: String)
    ensures
        r@ == contiguous_pattern_of(q@),
{
    let esc = escape_like(q);
    let mut out = String::new();
    push_char(&mut out, '%');
    crate::text::push_str(&mut out, esc.as_str());
    push_char(&mut out, '%');
    assert(out@ =~= contiguous_pattern_of(q@));
    out
}

/// The pattern `%q%u%e%r%y%` for texts that hold `q` as a subsequence: every
/// character of `q` read literally, with a wildcard before, between and after.
pub fn subsequence_pattern(q: &str) -> (r: String)
    ensures
        r@ == subsequence_pattern_of(q@),
{
    let cs = chars_of(q);
    let mut out = String::new();
    push_char(&mut out, '%');
    let mut i: usize = 0;
    while i < cs.len()
        invariant
            i <= cs.len(),
            out@ == seq!['%'] + spaced(cs@.subrange(0, i as int)),
        decreases cs.len() - i,
    {
        let ch = cs[i];
        if ch == '%' || ch == '_' || ch == '\\' {
            push_char(&mut out, '\\');
        }
        push_char(&mut out, ch);
        push_char(&mut out, '%');
        proof {
            assert(cs@.subrange(0, i + 1) =~= cs@.subrange(0, i as int).push(ch));
            lemma_spaced_push(cs@.subrange(0, i as int), ch);
        }
        i = i + 1;
        assert(out@ =~= seq!['%'] + spaced(cs@.subrange(0, i as int)));
    }
    assert(cs@.subrange(0, cs.len() as int) =~= cs@);
    out
}

} // verus!
