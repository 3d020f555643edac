//! Character-level helpers on strings, and the two text relations that the
//! search predicates are built on.
use vstd::prelude::*;
use vstd::string::*;

verus! {

/// What `str::trim` returns for a text: the text without its leading and
/// trailing Unicode white space.
pub uninterp spec fn trim_of(s: Seq<char>) -> Seq<char>;

/// What `str::to_lowercase` returns for a text (full Unicode case mapping).
pub uninterp spec fn lower_of(s: Seq<char>) -> Seq<char>;

/// Relies on `str::trim`: the result depends on the characters alone.
#[verifier::external_body]
pub(crate) fn trim(s: &str) -> (r: &str)
    ensures
        r@ == trim_of(s@),
{
    s.trim()
}

/// Relies on `str::to_lowercase`: the result depends on the characters alone.
#[verifier::external_body]
pub(crate) fn to_lowercase(s: &str) -> (r: String)
    ensures
        r@ == lower_of(s@),
{
    s.to_lowercase()
}

/// Relies on `String::push`: appends one character at the end.
#[verifier::external_body]
pub(crate) fn push_char(s: &mut String, c: char)
    ensures
        final(s)@ == old(s)@.push(c),
{
    s.push(c)
}

/// The characters of `s`, in order.
pub fn chars_of(s: &str) -> (r: Vec<char>)
    ensures
        r@ == s@,
{
    let n = s.unicode_len();
    let mut out: Vec<char> = Vec::new();
    let mut i: usize = 0;
    while i < n
        invariant
            n == s@.len(),
            i <= n,
            out@ == s@.subrange(0, i as int),
        decreases n - i,
    {
        out.push(s.get_char(i));
        i = i + 1;
        assert(out@ =~= s@.subrange(0, i as int));
    }
    assert(out@ =~= s@);
    out
}

/// Appends every character of `extra` to `out`.
pub fn push_str(out: &mut String, extra: &str)
    ensures
        final(out)@ == old(out)@ + extra@,
{
    let n = extra.unicode_len();
    let mut i: usize = 0;
    while i < n
        invariant
            n == extra@.len(),
            i <= n,
            out@ == old(out)@ + extra@.subrange(0, i as int),
        decreases n - i,
    {
        push_char(out, extra.get_char(i));
        i = i + 1;
        assert(out@ =~= old(out)@ + extra@.subrange(0, i as int));
    }
    assert(extra@.subrange(0, n as int) =~= extra@);
}

/// A fresh string holding a copy of `s`.
pub fn copy_str(s: &str) -> (r: String)
    ensures
        r@ == s@,
{
    let mut out = String::new();
    push_str(&mut out, s);
    assert(out@ =~= s@);
    out
}

/// Whether two texts hold the same characters.
pub fn same_text(a: &str, b: &str) -> (r: bool)
    ensures
        r == (a@ == b@),
{
    let n = a.unicode_len();
    let m = b.unicode_len();
    if n != m {
        return false;
    }
    let mut i: usize = 0;
    while i < n
        invariant
            n == a@.len(),
            n == b@.len(),
            i <= n,
            a@.subrange(0, i as int) == b@.subrange(0, i as int),
        decreases n - i,
    {
        if a.get_char(i) != b.get_char(i) {
            return false;
        }
        i = i + 1;
        assert(a@.subrange(0, i as int) =~= a@.subrange(0, i - 1).push(a@[i - 1]));
        assert(b@.subrange(0, i as int) =~= b@.subrange(0, i - 1).push(b@[i - 1]));
    }
    assert(a@ =~= a@.subrange(0, n as int));
    assert(b@ =~= b@.subrange(0, n as int));
    true
}

/// `q` occurs in `t` as a contiguous run of characters.
pub open spec fn is_substring(q: Seq<char>, t: Seq<char>) -> bool {
    exists|i: int| 0 <= i && i + q.len() <= t.len() && #[trigger] t.subrange(i, i + q.len()) == q
}

/// `q` can be read off `t` left to right, skipping characters of `t`: the
/// first character of `t` is either used for the first character of `q` or
/// skipped.
pub open spec fn is_subsequence(q: Seq<char>, t: Seq<char>) -> bool
    decreases t.len(),
{
    if q.len() == 0 {
        true
    } else if t.len() == 0 {
        false
    } else {
        (t[0] == q[0] && is_subsequence(q.drop_first(), t.drop_first())) || is_subsequence(
            q,
            t.drop_first(),
        )
    }
}

/// A text that holds `q` as a subsequence also holds every tail of `q` as one.
proof fn lemma_subsequence_drop_first(q: Seq<char>, t: Seq<char>)
    requires
        q.len() > 0,
        is_subsequence(q, t),
    ensures
        is_subsequence(q.drop_first(), t),
    decreases t.len(),
{
    if t.len() > 0 {
        if is_subsequence(q, t.drop_first()) {
            lemma_subsequence_drop_first(q, t.drop_first());
        } else if q.drop_first().len() > 0 {
            lemma_subsequence_drop_first(q.drop_first(), t.drop_first());
        }
    }
}

/// Whether `q` is a subsequence of `t`, by the greedy scan.
pub fn subsequence_of(q: &Vec<char>, t: &Vec<char>) -> (r: bool)
    ensures
        r == is_subsequence(q@, t@),
{
    let mut i: usize = 0;
    let mut j: usize = 0;
    assert(q@.subrange(0, q.len() as int) =~= q@);
    assert(t@.subrange(0, t.len() as int) =~= t@);
    while i < t.len() && j < q.len()
        invariant
            i <= t.len(),
            j <= q.len(),
            is_subsequence(q@.subrange(j as int, q.len() as int), t@.subrange(i as int, t.len() as int))
                == is_subsequence(q@, t@),
        decreases t.len() - i,
    {
        let ghost qs = q@.subrange(j as int, q.len() as int);
        let ghost ts = t@.subrange(i as int, t.len() as int);
        assert(qs.drop_first() =~= q@.subrange(j + 1, q.len() as int));
        assert(ts.drop_first() =~= t@.subrange(i + 1, t.len() as int));
        if t[i] == q[j] {
            proof {
                if is_subsequence(qs, ts.drop_first()) {
                    lemma_subsequence_drop_first(qs, ts.drop_first());
                }
            }
            j = j + 1;
        }
        i = i + 1;
    }
    if j == q.len() {
        assert(q@.subrange(j as int, q.len() as int).len() == 0);
        true
    } else {
        assert(t@.subrange(i as int, t.len() as int).len() == 0);
        false
    }
}

/// Whether `q` starts at position `i` of `t`.
fn occurs_at(q: &Vec<char>, t: &Vec<char>, i: usize) -> (r: bool)
    requires
        i + q.len() <= t.len(),
    ensures
        r == (t@.subrange(i as int, i + q.len()) == q@),
{
    let mut k: usize = 0;
    while k < q.len()
        invariant
            i + q.len() <= t.len(),
            k <= q.len(),
            t@.subrange(i as int, i + k) == q@.subrange(0, k as int),
        decreases q.len() - k,
    {
        if t[i + k] != q[k] {
            assert(t@.subrange(i as int, i + q.len())[k as int] != q@[k as int]);
            return false;
        }
        k = k + 1;
        assert(t@.subrange(i as int, i + k) =~= q@.subrange(0, k as int));
    }
    assert(q@.subrange(0, q.len() as int) =~= q@);
    true
}

/// Whether `q` occurs in `t` as a contiguous run.
pub fn substring_of(q: &Vec<char>, t: &Vec<char>) -> (r: bool)
    ensures
        r == is_substring(q@, t@),
{
    if q.len() > t.len() {
        return false;
    }
    let last = t.len() - q.len();
    let mut i: usize = 0;
    loop
        invariant
            last + q.len() == t.len(),
            i <= last,
            forall|k: int| 0 <= k < i ==> #[trigger] t@.subrange(k, k + q.len()) != q@,
        decreases last - i,
    {
        if occurs_at(q, t, i) {
            return true;
        }
        if i == last {
            return false;
        }
        i = i + 1;
    }
}

} // verus!
