//! An in-memory cache store: text values under text keys, each with an
//! optional expiry instant, deleted one by one or by glob pattern. Time is
//! passed in as seconds; an entry whose expiry instant has come reads as
//! absent.
use vstd::prelude::*;
use crate::text::{chars_of, copy_str, push_char, same_text};

verus! {

/// Whether key `t` matches glob pattern `p`: `*` matches any run of
/// characters, `?` any one character, `\c` the character `c` itself, and
/// every other character itself.
pub open spec fn glob_match(p: Seq<char>, t: Seq<char>) -> bool
    decreases p.len() + t.len(),
{
    if p.len() == 0 {
        t.len() == 0
    } else if p[0] == '*' {
        glob_match(p.drop_first(), t) || (t.len() > 0 && glob_match(p, t.drop_first()))
    } else if t.len() == 0 {
        false
    } else if p[0] == '?' {
        glob_match(p.drop_first(), t.drop_first())
    } else if p[0] == '\\' && p.len() >= 2 {
        t[0] == p[1] && glob_match(p.subrange(2, p.len() as int), t.drop_first())
    } else {
        t[0] == p[0] && glob_match(p.drop_first(), t.drop_first())
    }
}

/// The characters that a glob pattern gives a meaning of their own.
pub open spec fn is_glob_meta(c: char) -> bool {
    c == '*' || c == '?' || c == '\\' || c == '[' || c == ']'
}

/// A text written so that a glob pattern reads each character literally.
pub open spec fn glob_escaped(q: Seq<char>) -> Seq<char>
    decreases q.len(),
{
    if q.len() == 0 {
        Seq::empty()
    } else {
        (if is_glob_meta(q[0]) {
            seq!['\\', q[0]]
        } else {
            seq![q[0]]
        }) + glob_escaped(q.drop_first())
    }
}

/// `prefix` is where `t` begins.
pub open spec fn starts_with(t: Seq<char>, prefix: Seq<char>) -> bool {
    prefix.len() <= t.len() && t.subrange(0, prefix.len() as int) == prefix
}

/// A lone `*` matches every key.
proof fn lemma_star(t: Seq<char>)
    ensures
        glob_match(seq!['*'], t),
    decreases t.len(),
{
    let p = seq!['*'];
    assert(p[0] == '*');
    assert(p.drop_first() =~= Seq::<char>::empty());
    if t.len() > 0 {
        lemma_star(t.drop_first());
    } else {
        assert(glob_match(p.drop_first(), t));
    }
}

/// An escaped prefix followed by `*` matches exactly the keys that start
/// with that prefix.
pub proof fn lemma_family_pattern(prefix: Seq<char>, t: Seq<char>)
    ensures
        glob_match(glob_escaped(prefix) + seq!['*'], t) == starts_with(t, prefix),
    decreases prefix.len(),
{
    if prefix.len() == 0 {
        assert(glob_escaped(prefix) + seq!['*'] =~= seq!['*']);
        lemma_star(t);
        assert(t.subrange(0, 0) =~= prefix);
    } else {
        let c = prefix[0];
        let rest = prefix.drop_first();
        let tail = glob_escaped(rest) + seq!['*'];
        let p = glob_escaped(prefix) + seq!['*'];
        if is_glob_meta(c) {
            assert(p =~= seq!['\\', c] + tail);
            assert(p[0] == '\\' && p[1] == c);
            assert(p.subrange(2, p.len() as int) =~= tail);
        } else {
            assert(p =~= seq![c] + tail);
            assert(p[0] == c);
            assert(p.drop_first() =~= tail);
        }
        if t.len() > 0 {
            lemma_family_pattern(rest, t.drop_first());
            if prefix.len() <= t.len() {
                assert(t.subrange(0, prefix.len() as int).drop_first() =~= t.drop_first().subrange(
                    0,
                    rest.len() as int,
                ));
                if t.subrange(0, prefix.len() as int) == prefix {
                    assert(t[0] == t.subrange(0, prefix.len() as int)[0]);
                }
                if t[0] == c && t.drop_first().subrange(0, rest.len() as int) == rest {
                    assert forall|k: int| 0 <= k < prefix.len() implies t.subrange(
                        0,
                        prefix.len() as int,
                    )[k] == prefix[k] by {
                        if k > 0 {
                            assert(t.drop_first().subrange(0, rest.len() as int)[k - 1] == rest[k
                                - 1]);
                        }
                    }
                    assert(t.subrange(0, prefix.len() as int) =~= prefix);
                }
            }
        }
    }
}

/// Whether `t[j..]` matches `p[i..]`.
fn glob_from(p: &Vec<char>, i: usize, t: &Vec<char>, j: usize) -> (r: bool)
    requires
        i <= p.len(),
        j <= t.len(),
    ensures
        r == glob_match(p@.subrange(i as int, p.len() as int), t@.subrange(j as int, t.len() as int)),
    decreases p.len() - i + t.len() - j,
{
    let ghost ps = p@.subrange(i as int, p.len() as int);
    let ghost ts = t@.subrange(j as int, t.len() as int);
    if i == p.len() {
        return j == t.len();
    }
    assert(ps[0] == p@[i as int]);
    assert(ps.drop_first() =~= p@.subrange(i + 1, p.len() as int));
    if j < t.len() {
        assert(ts[0] == t@[j as int]);
        assert(ts.drop_first() =~= t@.subrange(j + 1, t.len() as int));
    }
    if p[i] == '*' {
        if glob_from(p, i + 1, t, j) {
            return true;
        }
        return j < t.len() && glob_from(p, i, t, j + 1);
    }
    if j == t.len() {
        return false;
    }
    if p[i] == '?' {
        return glob_from(p, i + 1, t, j + 1);
    }
    if p[i] == '\\' && i + 1 < p.len() {
        assert(ps[1] == p@[i + 1]);
        assert(ps.subrange(2, ps.len() as int) =~= p@.subrange(i + 2, p.len() as int));
        return t[j] == p[i + 1] && glob_from(p, i + 2, t, j + 1);
    }
    t[j] == p[i] && glob_from(p, i + 1, t, j + 1)
}

/// Whether key `key` matches glob pattern `pattern`.
pub fn glob_matches(pattern: &str, key: &str) -> (r: bool)
    ensures
        r == glob_match(pattern@, key@),
{
    let p = chars_of(pattern);
    let t = chars_of(key);
    assert(p@.subrange(0, p.len() as int) =~= p@);
    assert(t@.subrange(0, t.len() as int) =~= t@);
    glob_from(&p, 0, &t, 0)
}

/// The pattern that selects every key that starts with `prefix`.
pub fn family_pattern(prefix: &str) -> (r: String)
    ensures
        r@ == glob_escaped(prefix@) + seq!['*'],
{
    let cs = chars_of(prefix);
    let mut out = String::new();
    let mut i: usize = 0;
    while i < cs.len()
        invariant
            i <= cs.len(),
            out@ == glob_escaped(cs@.subrange(0, i as int)),
        decreases cs.len() - i,
    {
        let c = cs[i];
        if c == '*' || c == '?' || c == '\\' || c == '[' || c == ']' {
            push_char(&mut out, '\\');
        }
        push_char(&mut out, c);
        proof {
            lemma_glob_escaped_push(cs@.subrange(0, i as int), c);
            assert(cs@.subrange(0, i + 1) =~= cs@.subrange(0, i as int).push(c));
        }
        i = i + 1;
        assert(out@ =~= glob_escaped(cs@.subrange(0, i as int)));
    }
    assert(cs@.subrange(0, cs.len() as int) =~= cs@);
    push_char(&mut out, '*');
    out
}

proof fn lemma_glob_escaped_push(q: Seq<char>, c: char)
    ensures
        glob_escaped(q.push(c)) == glob_escaped(q) + (if is_glob_meta(c) {
            seq!['\\', c]
        } else {
            seq![c]
        }),
    decreases q.len(),
{
    let e = if is_glob_meta(c) {
        seq!['\\', c]
    } else {
        seq![c]
    };
    if q.len() == 0 {
        let z = q.push(c).drop_first();
        assert(z =~= Seq::<char>::empty());
        assert(glob_escaped(z) =~= Seq::<char>::empty());
        assert(glob_escaped(q) =~= Seq::<char>::empty());
        assert(glob_escaped(q.push(c)) =~= e);
    } else {
        assert(q.push(c).drop_first() =~= q.drop_first().push(c));
        lemma_glob_escaped_push(q.drop_first(), c);
        assert(glob_escaped(q.push(c)) =~= glob_escaped(q) + e);
    }
}

/// One stored value, with the instant (in seconds) from which it reads as
/// absent, if any.
#[derive(Debug, PartialEq, Eq)]
pub struct CacheEntry {
    pub key: String,
    pub value: String,
    pub expires_at: Option<u64>,
}

impl Clone for CacheEntry {
    fn clone(&self) -> (r: Self)
        ensures
            r == *self,
    {
        CacheEntry { key: self.key.clone(), value: self.value.clone(), expires_at: self.expires_at }
    }
}

/// The entry stored under `key`, if any.
pub open spec fn entry_of(entries: Seq<CacheEntry>, key: Seq<char>) -> Option<CacheEntry>
    decreases entries.len(),
{
    if entries.len() == 0 {
        None
    } else if entries.last().key@ == key {
        Some(entries.last())
    } else {
        entry_of(entries.drop_last(), key)
    }
}

/// An entry is fresh at `now` until its expiry instant.
pub open spec fn is_fresh(e: CacheEntry, now: u64) -> bool {
    match e.expires_at {
        Some(t) => now < t,
        None => true,
    }
}

/// What a read of `key` at `now` returns: the value of a fresh entry.
pub open spec fn read_at(entries: Seq<CacheEntry>, key: Seq<char>, now: u64) -> Option<Seq<char>> {
    match entry_of(entries, key) {
        Some(e) => if is_fresh(e, now) {
            Some(e.value@)
        } else {
            None
        },
        None => None,
    }
}

/// The expiry instant of a value written at `now` with time-to-live `ttl`
/// (seconds); none (no expiry) where the instant lies beyond the clock's
/// range.
pub open spec fn expiry(now: u64, ttl: Option<u64>) -> Option<u64> {
    match ttl {
        Some(d) => if now + d > u64::MAX {
            None
        } else {
            Some((now + d) as u64)
        },
        None => None,
    }
}

/// No key is stored twice.
pub open spec fn keys_unique(entries: Seq<CacheEntry>) -> bool {
    forall|i: int, j: int|
        0 <= i < j < entries.len() ==> #[trigger] entries[i].key@ != #[trigger] entries[j].key@
}

/// `after` is `before` with `value` written under `key` at `now`, fresh for
/// `ttl` seconds: that key holds the new entry, every other key its old one.
pub open spec fn is_set(
    before: MemoryStore,
    after: MemoryStore,
    key: Seq<char>,
    value: Seq<char>,
    ttl: Option<u64>,
    now: u64,
) -> bool {
    &&& after.wf()
    &&& after.entry(key) matches Some(e) && e.value@ == value && e.expires_at == expiry(now, ttl)
    &&& forall|k: Seq<char>| k != key ==> #[trigger] after.entry(k) == before.entry(k)
}

/// `after` is `before` without the entries whose keys match `pattern`.
pub open spec fn is_pattern_delete(before: MemoryStore, after: MemoryStore, pattern: Seq<char>) -> bool {
    &&& after.wf()
    &&& forall|k: Seq<char>|
        #[trigger] after.entry(k) == if glob_match(pattern, k) {
            None
        } else {
            before.entry(k)
        }
}

/// A value written under a key reads back unchanged, at any instant before
/// its time-to-live has passed.
pub proof fn lemma_set_then_get(
    before: MemoryStore,
    after: MemoryStore,
    key: Seq<char>,
    value: Seq<char>,
    ttl: Option<u64>,
    now: u64,
    later: u64,
)
    requires
        is_set(before, after, key, value, ttl, now),
        ttl matches Some(d) ==> later < now + d,
    ensures
        after.read(key, later) == Some(value),
{
}

/// A read of a key under which nothing is stored is a miss.
pub proof fn lemma_absent_key_misses(store: MemoryStore, key: Seq<char>, now: u64)
    requires
        store.entry(key) is None,
    ensures
        store.read(key, now) is None,
{
}

/// Deleting by the pattern of a key family removes every key that starts
/// with the family's prefix and leaves every other key as it was.
pub proof fn lemma_delete_family(before: MemoryStore, after: MemoryStore, prefix: Seq<char>, key: Seq<char>)
    requires
        is_pattern_delete(before, after, glob_escaped(prefix) + seq!['*']),
    ensures
        starts_with(key, prefix) ==> after.entry(key) is None,
        !starts_with(key, prefix) ==> after.entry(key) == before.entry(key),
{
    lemma_family_pattern(prefix, key);
    assert(after.entry(key) == if glob_match(glob_escaped(prefix) + seq!['*'], key) {
        None
    } else {
        before.entry(key)
    });
}

/// The in-memory store.
#[derive(Debug)]
pub struct MemoryStore {
    pub entries: Vec<CacheEntry>,
}

impl MemoryStore {
    pub open spec fn wf(&self) -> bool {
        keys_unique(self.entries@)
    }

    /// The entry stored under `key`, if any.
    pub open spec fn entry(&self, key: Seq<char>) -> Option<CacheEntry> {
        entry_of(self.entries@, key)
    }

    /// What a read of `key` at `now` returns.
    pub open spec fn read(&self, key: Seq<char>, now: u64) -> Option<Seq<char>> {
        read_at(self.entries@, key, now)
    }

    /// An empty store.
    pub fn new() -> (r: MemoryStore)
        ensures
            r.wf(),
            forall|k: Seq<char>| r.entry(k) is None,
    {
        MemoryStore { entries: Vec::new() }
    }

    /// Where `key` is stored.
    fn position(&self, key: &str) -> (r: Option<usize>)
        requires
            self.wf(),
        ensures
            match r {
                Some(i) => i < self.entries.len() && self.entries@[i as int].key@ == key@ && self.entry(key@)
                    == Some(self.entries@[i as int]),
                None => self.entry(key@) is None && forall|i: int|
                    0 <= i < self.entries.len() ==> #[trigger] self.entries@[i].key@ != key@,
            },
    {
        let mut i: usize = 0;
        while i < self.entries.len()
            invariant
                self.wf(),
                i <= self.entries.len(),
                forall|k: int| 0 <= k < i ==> #[trigger] self.entries@[k].key@ != key@,
            decreases self.entries.len() - i,
        {
            if same_text(self.entries[i].key.as_str(), key) {
                proof {
                    lemma_entry_at(self.entries@, i as int);
                }
                return Some(i);
            }
            i = i + 1;
        }
        proof {
            lemma_entry_absent(self.entries@, key@);
        }
        None
    }

    /// The value stored under `key`, where it is fresh at `now`.
    pub fn get(&self, key: &str, now: u64) -> (r: Option<String>)
        requires
            self.wf(),
        ensures
            match r {
                Some(v) => self.read(key@, now) == Some(v@),
                None => self.read(key@, now) is None,
            },
    {
        match self.position(key) {
            Some(i) => {
                let e = &self.entries[i];
                let fresh = match e.expires_at {
                    Some(t) => now < t,
                    None => true,
                };
                if fresh {
                    Some(e.value.clone())
                } else {
                    None
                }
            },
            None => None,
        }
    }

    /// Whether a fresh value is stored under `key` at `now`.
    pub fn has_key(&self, key: &str, now: u64) -> (r: bool)
        requires
            self.wf(),
        ensures
            r == (self.read(key@, now) is Some),
    {
        self.get(key, now).is_some()
    }

    /// Stores `value` under `key` at `now`, fresh for `ttl` seconds (for
    /// ever without one), in place of what was there.
    pub fn set(&mut self, key: &str, value: &str, ttl: Option<u64>, now: u64)
        requires
            old(self).wf(),
        ensures
            is_set(*old(self), *final(self), key@, value@, ttl, now),
    {
        let expires_at = match ttl {
            Some(d) => if d <= u64::MAX - now {
                Some(now + d)
            } else {
                None
            },
            None => None,
        };
        let entry = CacheEntry { key: copy_str(key), value: copy_str(value), expires_at };
        let ghost before = self.entries@;
        match self.position(key) {
            Some(i) => {
                self.entries.set(i, entry);
                proof {
                    lemma_entry_replace(before, i as int, self.entries@);
                }
            },
            None => {
                self.entries.push(entry);
                proof {
                    assert(self.entries@.drop_last() =~= before);
                    assert forall|k: Seq<char>| k != key@ implies #[trigger] entry_of(self.entries@, k)
                        == entry_of(before, k) by {}
                }
            },
        }
    }

    /// Removes what is stored under `key`.
    pub fn delete(&mut self, key: &str)
        requires
            old(self).wf(),
        ensures
            final(self).wf(),
            final(self).entry(key@) is None,
            forall|k: Seq<char>| k != key@ ==> #[trigger] final(self).entry(k) == old(self).entry(k),
    {
        let ghost before = self.entries@;
        if let Some(i) = self.position(key) {
            self.entries.remove(i);
            proof {
                lemma_entry_remove(before, i as int, self.entries@);
            }
        }
    }

    /// Removes every entry whose key matches the glob pattern `pattern`,
    /// and only those.
    pub fn delete_pattern(&mut self, pattern: &str)
        requires
            old(self).wf(),
        ensures
            is_pattern_delete(*old(self), *final(self), pattern@),
    {
        let ghost before = self.entries@;
        let mut kept: Vec<CacheEntry> = Vec::new();
        let mut i: usize = 0;
        while i < self.entries.len()
            invariant
                self.entries@ == before,
                keys_unique(before),
                i <= before.len(),
                keys_unique(kept@),
                forall|j: int|
                    0 <= j < kept@.len() ==> entry_of(before.subrange(0, i as int), #[trigger] kept@[j].key@) is Some,
                forall|k: Seq<char>|
                    #[trigger] entry_of(kept@, k) == if glob_match(pattern@, k) {
                        None
                    } else {
                        entry_of(before.subrange(0, i as int), k)
                    },
            decreases before.len() - i,
        {
            let ghost pre = before.subrange(0, i as int);
            let ghost next = before.subrange(0, i + 1);
            let ghost last = before[i as int];
            assert(next.drop_last() =~= pre);
            assert(next.last() == last);
            proof {
                assert forall|m: int| 0 <= m < pre.len() implies #[trigger] pre[m].key@ != last.key@ by {
                    assert(pre[m] == before[m]);
                }
                lemma_entry_absent(pre, last.key@);
            }
            let matched = glob_matches(pattern, self.entries[i].key.as_str());
            if !matched {
                let ghost old_kept = kept@;
                kept.push(self.entries[i].clone());
                proof {
                    assert(kept@.drop_last() =~= old_kept);
                    assert forall|a: int, b: int| 0 <= a < b < kept@.len() implies #[trigger] kept@[a].key@
                        != #[trigger] kept@[b].key@ by {
                        if b == kept@.len() - 1 {
                            assert(kept@[a] == old_kept[a]);
                            assert(entry_of(pre, old_kept[a].key@) is Some);
                        } else {
                            assert(kept@[a] == old_kept[a] && kept@[b] == old_kept[b]);
                        }
                    }
                    assert forall|j: int| 0 <= j < kept@.len() implies entry_of(next, #[trigger] kept@[j].key@) is Some by {
                        if j < kept@.len() - 1 {
                            assert(kept@[j] == old_kept[j]);
                        }
                    }
                    assert forall|k: Seq<char>| #[trigger] entry_of(kept@, k) == if glob_match(pattern@, k) {
                        None
                    } else {
                        entry_of(next, k)
                    } by {
                        assert(kept@.last() == last);
                        if k != last.key@ {
                            assert(entry_of(kept@, k) == entry_of(old_kept, k));
                            assert(entry_of(next, k) == entry_of(pre, k));
                        }
                    }
                }
            } else {
                proof {
                    assert forall|j: int| 0 <= j < kept@.len() implies entry_of(next, #[trigger] kept@[j].key@) is Some by {}
                    assert forall|k: Seq<char>| #[trigger] entry_of(kept@, k) == if glob_match(pattern@, k) {
                        None
                    } else {
                        entry_of(next, k)
                    } by {
                        if k != last.key@ {
                            assert(entry_of(next, k) == entry_of(pre, k));
                        }
                    }
                }
            }
            i = i + 1;
        }
        assert(before.subrange(0, before.len() as int) =~= before);
        self.entries = kept;
    }
}

/// The entry found for a key stored at index `i` is that entry.
proof fn lemma_entry_at(entries: Seq<CacheEntry>, i: int)
    requires
        keys_unique(entries),
        0 <= i < entries.len(),
    ensures
        entry_of(entries, entries[i].key@) == Some(entries[i]),
    decreases entries.len(),
{
    if i < entries.len() - 1 {
        assert(entries.last().key@ != entries[i].key@);
        assert(entries.drop_last()[i] == entries[i]);
        lemma_entry_at(entries.drop_last(), i);
    }
}

/// A key stored at no index has no entry.
proof fn lemma_entry_absent(entries: Seq<CacheEntry>, key: Seq<char>)
    requires
        forall|i: int| 0 <= i < entries.len() ==> #[trigger] entries[i].key@ != key,
    ensures
        entry_of(entries, key) is None,
    decreases entries.len(),
{
    if entries.len() > 0 {
        assert(entries[entries.len() - 1].key@ != key);
        assert forall|i: int| 0 <= i < entries.drop_last().len() implies #[trigger] entries.drop_last()[i].key@
            != key by {
            assert(entries.drop_last()[i] == entries[i]);
        }
        lemma_entry_absent(entries.drop_last(), key);
    }
}

/// For keys stored once, the entry of a key is the one stored under it.
proof fn lemma_entry_unique(entries: Seq<CacheEntry>, key: Seq<char>)
    requires
        keys_unique(entries),
    ensures
        forall|i: int| 0 <= i < entries.len() && #[trigger] entries[i].key@ == key ==> entry_of(entries, key) == Some(entries[i]),
        (forall|i: int| 0 <= i < entries.len() ==> #[trigger] entries[i].key@ != key) ==> entry_of(entries, key) is None,
{
    assert forall|i: int| 0 <= i < entries.len() && #[trigger] entries[i].key@ == key implies entry_of(entries, key) == Some(entries[i]) by {
        lemma_entry_at(entries, i);
    }
    if forall|i: int| 0 <= i < entries.len() ==> #[trigger] entries[i].key@ != key {
        lemma_entry_absent(entries, key);
    }
}

/// Every key other than the one at `i` keeps its entry when the entry at
/// `i` is replaced by one with the same key.
proof fn lemma_entry_replace(before: Seq<CacheEntry>, i: int, after: Seq<CacheEntry>)
    requires
        keys_unique(before),
        0 <= i < before.len(),
        after.len() == before.len(),
        forall|j: int| 0 <= j < before.len() && j != i ==> after[j] == before[j],
        after[i].key@ == before[i].key@,
    ensures
        keys_unique(after),
        entry_of(after, after[i].key@) == Some(after[i]),
        forall|k: Seq<char>| k != after[i].key@ ==> #[trigger] entry_of(after, k) == entry_of(before, k),
{
    assert forall|a: int, b: int| 0 <= a < b < after.len() implies #[trigger] after[a].key@ != #[trigger] after[b].key@ by {
        assert(after[a].key@ == before[a].key@);
        assert(after[b].key@ == before[b].key@);
    }
    lemma_entry_at(after, i);
    assert forall|k: Seq<char>| k != after[i].key@ implies #[trigger] entry_of(after, k) == entry_of(before, k) by {
        lemma_entry_unique(after, k);
        lemma_entry_unique(before, k);
        if exists|j: int| 0 <= j < before.len() && #[trigger] before[j].key@ == k {
            let j = choose|j: int| 0 <= j < before.len() && #[trigger] before[j].key@ == k;
            assert(after[j] == before[j]);
        } else {
            assert forall|j: int| 0 <= j < after.len() implies #[trigger] after[j].key@ != k by {
                if j != i {
                    assert(after[j] == before[j]);
                }
            }
        }
    }
}

/// Removing the entry at `i` removes its key and keeps every other.
proof fn lemma_entry_remove(before: Seq<CacheEntry>, i: int, after: Seq<CacheEntry>)
    requires
        keys_unique(before),
        0 <= i < before.len(),
        after == before.remove(i),
    ensures
        keys_unique(after),
        entry_of(after, before[i].key@) is None,
        forall|k: Seq<char>| k != before[i].key@ ==> #[trigger] entry_of(after, k) == entry_of(before, k),
{
    assert forall|j: int| 0 <= j < after.len() implies #[trigger] after[j] == if j < i { before[j] } else { before[j + 1] } by {}
    assert forall|a: int, b: int| 0 <= a < b < after.len() implies #[trigger] after[a].key@ != #[trigger] after[b].key@ by {
        let a2 = if a < i { a } else { a + 1 };
        let b2 = if b < i { b } else { b + 1 };
        assert(after[a] == before[a2]);
        assert(after[b] == before[b2]);
    }
    assert forall|j: int| 0 <= j < after.len() implies #[trigger] after[j].key@ != before[i].key@ by {
        let j2 = if j < i { j } else { j + 1 };
        assert(after[j] == before[j2]);
    }
    lemma_entry_absent(after, before[i].key@);
    assert forall|k: Seq<char>| k != before[i].key@ implies #[trigger] entry_of(after, k) == entry_of(before, k) by {
        lemma_entry_unique(after, k);
        lemma_entry_unique(before, k);
        if exists|j: int| 0 <= j < before.len() && #[trigger] before[j].key@ == k {
            let j = choose|j: int| 0 <= j < before.len() && #[trigger] before[j].key@ == k;
            assert(j != i);
            let j2 = if j < i { j } else { j - 1 };
            assert(after[j2] == before[j]);
        } else {
            assert forall|j: int| 0 <= j < after.len() implies #[trigger] after[j].key@ != k by {
                let j2 = if j < i { j } else { j + 1 };
                assert(after[j] == before[j2]);
            }
        }
    }
}

} // verus!
