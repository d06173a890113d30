//! The bot's memories, kept in the caches of the `cached` crate.
//!
//! Recent messages live in a least-recently-used `SizedCache` keyed by
//! (message id, channel id); users who deleted a message recently live in a
//! `TimedCache` keyed by (user id, discriminator).

use vstd::prelude::*;
use cached::{Cached, SizedCache, TimedCache};
use crate::model::{Message, SkyNetMsg, SkyNetUsr, msg_key};

verus! {

#[verifier::external_type_specification]
#[verifier::external_body]
#[verifier::reject_recursive_types(K)]
#[verifier::reject_recursive_types(V)]
pub struct ExSizedCache<K, V>(SizedCache<K, V>);

#[verifier::external_type_specification]
#[verifier::external_body]
#[verifier::reject_recursive_types(K)]
#[verifier::reject_recursive_types(V)]
pub struct ExTimedCache<K, V>(TimedCache<K, V>);

/// A remembered message under its key.
pub type MsgEntry = ((u64, u64), SkyNetMsg);

/// The message cache type.
pub type MsgCache = SizedCache<(u64, u64), SkyNetMsg>;

/// The recent-deleter cache type.
pub type UsrCache = TimedCache<(u64, u16), SkyNetUsr>;

/// What a message cache holds, from the most to the least recently used entry.
pub uninterp spec fn lru_entries(c: SizedCache<(u64, u64), SkyNetMsg>) -> Seq<((u64, u64), SkyNetMsg)>;

/// The number of entries a message cache was made to hold at most.
pub uninterp spec fn lru_capacity(c: SizedCache<(u64, u64), SkyNetMsg>) -> nat;

/// What a recent-deleter cache holds, whether or not an entry has outlived
/// its lifespan yet.
pub uninterp spec fn timed_entries(c: TimedCache<(u64, u16), SkyNetUsr>) -> Map<(u64, u16), SkyNetUsr>;

/// The number of seconds a recent-deleter cache keeps an entry.
pub uninterp spec fn timed_lifespan(c: TimedCache<(u64, u16), SkyNetUsr>) -> nat;

/// `s` holds key `k` at position `i`.
pub open spec fn has_key_at(s: Seq<MsgEntry>, k: (u64, u64), i: int) -> bool {
    0 <= i < s.len() && s[i].0 == k
}

/// `s` holds key `k`.
pub open spec fn holds_key(s: Seq<MsgEntry>, k: (u64, u64)) -> bool {
    exists|i: int| has_key_at(s, k, i)
}

/// No key occurs twice in `s`.
pub open spec fn distinct_keys(s: Seq<MsgEntry>) -> bool {
    forall|i: int, j: int| 0 <= i < s.len() && 0 <= j < s.len() && i != j ==> s[i].0 != s[j].0
}

/// The position of key `k` in `s` (meaningful when `s` holds it).
pub open spec fn key_index(s: Seq<MsgEntry>, k: (u64, u64)) -> int {
    choose|i: int| has_key_at(s, k, i)
}

/// `s` after a lookup of `k`: the entry found moves to the front.
pub open spec fn touched(s: Seq<MsgEntry>, k: (u64, u64)) -> Seq<MsgEntry> {
    if holds_key(s, k) {
        let i = key_index(s, k);
        seq![s[i]] + s.remove(i)
    } else {
        s
    }
}

/// `s` with room made for one more entry: the least recently used entry is
/// dropped when `s` is full.
pub open spec fn evicted(s: Seq<MsgEntry>, cap: nat) -> Seq<MsgEntry> {
    if s.len() >= cap {
        s.drop_last()
    } else {
        s
    }
}

/// `s` after storing `(k, v)`: a present key keeps its place and takes the
/// new value; a new key goes to the front, after eviction when full.
pub open spec fn stored(s: Seq<MsgEntry>, cap: nat, k: (u64, u64), v: SkyNetMsg) -> Seq<MsgEntry> {
    let t = evicted(s, cap);
    if holds_key(t, k) {
        t.update(key_index(t, k), (k, v))
    } else {
        seq![(k, v)] + t
    }
}

/// `s` after remembering message `m` the way a memoizing store does: a message
/// whose key is known only moves to the front, keeping the remembered
/// version; an unknown one is stored.
pub open spec fn remembered(s: Seq<MsgEntry>, cap: nat, m: SkyNetMsg) -> Seq<MsgEntry> {
    if holds_key(s, msg_key(m)) {
        touched(s, msg_key(m))
    } else {
        stored(s, cap, msg_key(m), m)
    }
}

/// A message cache as the bot keeps it: at most `cap` entries, each under the
/// key of the message it holds, no key twice.
pub open spec fn cache_ok(s: Seq<MsgEntry>, cap: nat) -> bool {
    &&& s.len() <= cap
    &&& distinct_keys(s)
    &&& forall|i: int| 0 <= i < s.len() ==> #[trigger] s[i].0 == msg_key(s[i].1)
}

/// Calls `SizedCache::with_size`: an empty least-recently-used cache that
/// holds at most `size` entries.  The crate panics on a size of zero.
#[verifier::external_body]
fn lru_new(size: usize) -> (c: MsgCache)
    requires
        size > 0,
    ensures
        lru_entries(c) == Seq::<MsgEntry>::empty(),
        lru_capacity(c) == size,
{
    SizedCache::with_size(size)
}

/// Calls `Cached::cache_get` on a `SizedCache` and clones the message part of
/// the value found.  A key that is present moves to the front of the recency
/// order and its message is returned; a missing key leaves the entries as
/// they were.  Only the hit and miss counters change besides, and they are
/// not modelled.  The crate keeps its keys in a hash map, so no key occurs
/// twice in a real cache; the `requires` states that.
#[verifier::external_body]
fn lru_get(c: &mut MsgCache, k: (u64, u64)) -> (r: Option<Message>)
    requires
        distinct_keys(lru_entries(*old(c))),
    ensures
        lru_capacity(*final(c)) == lru_capacity(*old(c)),
        lru_entries(*final(c)) == touched(lru_entries(*old(c)), k),
        holds_key(lru_entries(*old(c)), k) ==> r == Some(
            lru_entries(*old(c))[key_index(lru_entries(*old(c)), k)].1.msg,
        ),
        !holds_key(lru_entries(*old(c)), k) ==> r is None,
{
    c.cache_get(&k).map(|m| m.msg.clone())
}

/// Calls `Cached::cache_set` on a `SizedCache`.  When the cache is full the
/// least recently used entry is evicted first (even when the key is already
/// present); a present key then keeps its place and takes the new value, a
/// new key goes to the front.
#[verifier::external_body]
fn lru_set(c: &mut MsgCache, k: (u64, u64), v: SkyNetMsg)
    requires
        distinct_keys(lru_entries(*old(c))),
        lru_capacity(*old(c)) > 0,
    ensures
        lru_capacity(*final(c)) == lru_capacity(*old(c)),
        lru_entries(*final(c)) == stored(lru_entries(*old(c)), lru_capacity(*old(c)), k, v),
{
    c.cache_set(k, v)
}

/// Calls `Cached::cache_remove` on a `SizedCache`: the entry under the key,
/// if any, leaves the cache and its value is returned.
#[verifier::external_body]
fn lru_remove(c: &mut MsgCache, k: (u64, u64)) -> (r: Option<SkyNetMsg>)
    requires
        distinct_keys(lru_entries(*old(c))),
    ensures
        lru_capacity(*final(c)) == lru_capacity(*old(c)),
        holds_key(lru_entries(*old(c)), k) ==> {
            let i = key_index(lru_entries(*old(c)), k);
            &&& r == Some(lru_entries(*old(c))[i].1)
            &&& lru_entries(*final(c)) == lru_entries(*old(c)).remove(i)
        },
        !holds_key(lru_entries(*old(c)), k) ==> r is None && lru_entries(*final(c)) == lru_entries(
            *old(c),
        ),
{
    c.cache_remove(&k)
}

/// Calls `SizedCache::key_order` and collects the keys it yields, from the
/// most to the least recently used.
#[verifier::external_body]
fn lru_keys(c: &MsgCache) -> (r: Vec<(u64, u64)>)
    ensures
        r@.len() == lru_entries(*c).len(),
        forall|i: int| 0 <= i < r@.len() ==> #[trigger] r@[i] == lru_entries(*c)[i].0,
{
    c.key_order().cloned().collect()
}

/// Calls `TimedCache::with_lifespan`: an empty cache whose entries expire
/// `seconds` after they were stored.
#[verifier::external_body]
pub(crate) fn timed_new(seconds: u64) -> (c: UsrCache)
    ensures
        timed_entries(c).is_empty(),
        timed_lifespan(c) == seconds,
{
    TimedCache::with_lifespan(seconds)
}

/// Calls `Cached::cache_get` on a `TimedCache` and clones the value found.
/// An entry that is present and younger than the lifespan is returned and
/// stays; an expired one is removed and nothing is returned.  Which of the
/// two happens depends on the clock, so the contract says only what holds
/// either way.  The lifespan never changes after construction.
#[verifier::external_body]
pub(crate) fn timed_get(c: &mut UsrCache, k: (u64, u16)) -> (r: Option<SkyNetUsr>)
    ensures
        timed_lifespan(*final(c)) == timed_lifespan(*old(c)),
        r matches Some(v) ==> timed_entries(*old(c)).contains_key(k) && v == timed_entries(
            *old(c),
        )[k] && timed_entries(*final(c)) == timed_entries(*old(c)),
        r is None ==> timed_entries(*final(c)) == timed_entries(*old(c)).remove(k),
{
    c.cache_get(&k).cloned()
}

/// Calls `Cached::cache_set` on a `TimedCache`: the entry is stored (or
/// replaced) with the current time as its birth; the lifespan stays.
#[verifier::external_body]
pub(crate) fn timed_set(c: &mut UsrCache, k: (u64, u16), v: SkyNetUsr)
    ensures
        timed_lifespan(*final(c)) == timed_lifespan(*old(c)),
        timed_entries(*final(c)) == timed_entries(*old(c)).insert(k, v),
{
    c.cache_set(k, v)
}

} // verus!

verus! {

/// Under distinct keys, a key sits at exactly one position.
pub proof fn lemma_key_index(s: Seq<MsgEntry>, k: (u64, u64), i: int)
    requires
        distinct_keys(s),
        has_key_at(s, k, i),
    ensures
        holds_key(s, k),
        key_index(s, k) == i,
{
    let j = key_index(s, k);
    assert(has_key_at(s, k, j));
}

/// Moving one entry to the front keeps a cache well kept.
pub proof fn lemma_touched_ok(s: Seq<MsgEntry>, cap: nat, k: (u64, u64))
    requires
        cache_ok(s, cap),
    ensures
        cache_ok(touched(s, k), cap),
        touched(s, k).len() == s.len(),
        forall|kk: (u64, u64)| holds_key(touched(s, k), kk) == holds_key(s, kk),
{
    if holds_key(s, k) {
        let i = key_index(s, k);
        let t = touched(s, k);
        assert(has_key_at(s, k, i));
        assert forall|j: int| 0 <= j < t.len() implies #[trigger] t[j] == (if j == 0 {
            s[i]
        } else if j <= i {
            s[j - 1]
        } else {
            s[j]
        }) by {}
        assert forall|kk: (u64, u64)| holds_key(t, kk) == holds_key(s, kk) by {
            if holds_key(s, kk) {
                let a = choose|a: int| has_key_at(s, kk, a);
                if a == i {
                    assert(has_key_at(t, kk, 0));
                } else if a < i {
                    assert(has_key_at(t, kk, a + 1));
                } else {
                    assert(has_key_at(t, kk, a));
                }
            }
            if holds_key(t, kk) {
                let a = choose|a: int| has_key_at(t, kk, a);
                if a == 0 {
                    assert(has_key_at(s, kk, i));
                } else if a <= i {
                    assert(has_key_at(s, kk, a - 1));
                } else {
                    assert(has_key_at(s, kk, a));
                }
            }
        }
    }
}

/// Storing a message under a fresh key keeps a cache well kept.
pub proof fn lemma_stored_fresh_ok(s: Seq<MsgEntry>, cap: nat, m: SkyNetMsg)
    requires
        cache_ok(s, cap),
        cap > 0,
        !holds_key(s, msg_key(m)),
    ensures
        cache_ok(stored(s, cap, msg_key(m), m), cap),
        !holds_key(evicted(s, cap), msg_key(m)),
        stored(s, cap, msg_key(m), m) == seq![(msg_key(m), m)] + evicted(s, cap),
{
    let k = msg_key(m);
    let t = evicted(s, cap);
    assert forall|j: int| 0 <= j < t.len() implies #[trigger] t[j] == s[j] by {}
    if holds_key(t, k) {
        let a = choose|a: int| has_key_at(t, k, a);
        assert(has_key_at(s, k, a));
    }
    let u = seq![(k, m)] + t;
    assert(stored(s, cap, k, m) == u);
    assert forall|j: int| 0 < j < u.len() implies #[trigger] u[j] == t[j - 1] by {}
    assert forall|i: int, j: int| 0 <= i < u.len() && 0 <= j < u.len() && i != j implies u[i].0
        != u[j].0 by {
        if i == 0 {
            assert(!has_key_at(t, k, j - 1));
        } else if j == 0 {
            assert(!has_key_at(t, k, i - 1));
        }
    }
    assert forall|i: int| 0 <= i < u.len() implies #[trigger] u[i].0 == msg_key(u[i].1) by {
        if i > 0 {
            assert(u[i] == s[i - 1]);
        }
    }
}

/// Removing the entry at `i` keeps a cache well kept and forgets its key.
pub proof fn lemma_removed_ok(s: Seq<MsgEntry>, cap: nat, i: int)
    requires
        cache_ok(s, cap),
        0 <= i < s.len(),
    ensures
        cache_ok(s.remove(i), cap),
        !holds_key(s.remove(i), s[i].0),
{
    let t = s.remove(i);
    assert forall|j: int| 0 <= j < t.len() implies #[trigger] t[j] == (if j < i {
        s[j]
    } else {
        s[j + 1]
    }) by {}
    if holds_key(t, s[i].0) {
        let a = choose|a: int| has_key_at(t, s[i].0, a);
        if a < i {
            assert(s[a].0 == s[i].0);
        } else {
            assert(s[a + 1].0 == s[i].0);
        }
    }
}

/// A well kept cache rotated at `i` is still well kept.
proof fn lemma_rotated_ok(s: Seq<MsgEntry>, cap: nat, i: int)
    requires
        cache_ok(s, cap),
        0 <= i <= s.len(),
    ensures
        cache_ok(s.subrange(i, s.len() as int) + s.subrange(0, i), cap),
        forall|j: int|
            0 <= j < s.len() ==> #[trigger] (s.subrange(i, s.len() as int) + s.subrange(0, i))[j]
                == (if j < s.len() - i {
                s[i + j]
            } else {
                s[j - (s.len() - i)]
            }),
{
    let n = s.len() as int;
    let r = s.subrange(i, n) + s.subrange(0, i);
    assert forall|j: int| 0 <= j < n implies #[trigger] r[j] == (if j < n - i {
        s[i + j]
    } else {
        s[j - (n - i)]
    }) by {}
    assert forall|a: int, b: int| 0 <= a < r.len() && 0 <= b < r.len() && a != b implies r[a].0
        != r[b].0 by {
        let sa = if a < n - i {
            i + a
        } else {
            a - (n - i)
        };
        let sb = if b < n - i {
            i + b
        } else {
            b - (n - i)
        };
        assert(r[a] == s[sa]);
        assert(r[b] == s[sb]);
    }
    assert forall|a: int| 0 <= a < r.len() implies #[trigger] r[a].0 == msg_key(r[a].1) by {
        let sa = if a < n - i {
            i + a
        } else {
            a - (n - i)
        };
        assert(r[a] == s[sa]);
    }
}

/// A memory of recent messages, bounded in size, that forgets the least
/// recently used message first.
pub struct MessageMemory {
    cache: MsgCache,
}

impl MessageMemory {
    /// What the memory holds, most recently used first.
    pub closed spec fn entries(&self) -> Seq<MsgEntry> {
        lru_entries(self.cache)
    }

    /// How many messages the memory holds at most.
    pub closed spec fn capacity(&self) -> nat {
        lru_capacity(self.cache)
    }

    /// The memory is consistent: within its capacity, every message under its
    /// own key, no key twice.
    pub open spec fn wf(&self) -> bool {
        &&& self.capacity() > 0
        &&& cache_ok(self.entries(), self.capacity())
    }

    /// An empty memory for at most `capacity` messages.
    pub fn new(capacity: usize) -> (r: MessageMemory)
        requires
            capacity > 0,
        ensures
            r.wf(),
            r.entries() == Seq::<MsgEntry>::empty(),
            r.capacity() == capacity,
    {
        MessageMemory { cache: lru_new(capacity) }
    }

    /// Looks up the message under key `k`, which counts as a use of it: it
    /// moves to the front.
    pub fn look_up(&mut self, k: (u64, u64)) -> (r: Option<Message>)
        requires
            old(self).wf(),
        ensures
            final(self).wf(),
            final(self).capacity() == old(self).capacity(),
            final(self).entries() == touched(old(self).entries(), k),
            holds_key(old(self).entries(), k) ==> r == Some(
                old(self).entries()[key_index(old(self).entries(), k)].1.msg,
            ),
            !holds_key(old(self).entries(), k) ==> r is None,
    {
        proof {
            lemma_touched_ok(self.entries(), self.capacity(), k);
        }
        lru_get(&mut self.cache, k)
    }

    /// Forgets the message under key `k`, handing it back.
    pub fn take(&mut self, k: (u64, u64)) -> (r: Option<SkyNetMsg>)
        requires
            old(self).wf(),
        ensures
            final(self).wf(),
            final(self).capacity() == old(self).capacity(),
            holds_key(old(self).entries(), k) ==> {
                let i = key_index(old(self).entries(), k);
                &&& r == Some(old(self).entries()[i].1)
                &&& final(self).entries() == old(self).entries().remove(i)
            },
            !holds_key(old(self).entries(), k) ==> r is None && final(self).entries() == old(
                self,
            ).entries(),
    {
        proof {
            if holds_key(self.entries(), k) {
                let i = key_index(self.entries(), k);
                assert(has_key_at(self.entries(), k, i));
                lemma_removed_ok(self.entries(), self.capacity(), i);
            }
        }
        lru_remove(&mut self.cache, k)
    }

    /// The keys of the remembered messages, most recently used first.
    pub fn keys(&self) -> (r: Vec<(u64, u64)>)
        ensures
            r@.len() == self.entries().len(),
            forall|i: int| 0 <= i < r@.len() ==> #[trigger] r@[i] == self.entries()[i].0,
    {
        lru_keys(&self.cache)
    }

    /// Remembers a message the way the bot's memoizing store does: a message
    /// whose key is already known only moves to the front and the remembered
    /// version stays; otherwise the message is stored at the front, evicting the
    /// least recently used entry when the cache is full.
    pub fn remember(&mut self, m: SkyNetMsg)
        requires
            old(self).wf(),
        ensures
            final(self).wf(),
            final(self).capacity() == old(self).capacity(),
            final(self).entries() == remembered(old(self).entries(), old(self).capacity(), m),
    {
        let c = &mut self.cache;
        let ghost s = lru_entries(*c);
        let ghost cap = lru_capacity(*c);
        let k = m.key();
        let found = lru_get(c, k);
        proof {
            lemma_touched_ok(s, cap, k);
        }
        if found.is_none() {
            proof {
                lemma_stored_fresh_ok(s, cap, m);
            }
            lru_set(c, k, m);
        }
    }

    /// The messages a cache holds, from the most to the least recently used.
    /// Reading them leaves the cache as it was: each entry is looked up once,
    /// from the least recently used one forwards, which puts every entry back in
    /// its place.
    pub fn recent_messages(&mut self) -> (r: Vec<Message>)
        requires
            old(self).wf(),
        ensures
            final(self).wf(),
            final(self).capacity() == old(self).capacity(),
            final(self).entries() == old(self).entries(),
            r@.len() == old(self).entries().len(),
            forall|j: int| 0 <= j < r@.len() ==> #[trigger] r@[j] == old(self).entries()[j].1.msg,
    {
        let c = &mut self.cache;
        let ghost orig = lru_entries(*c);
        let ghost cap = lru_capacity(*c);
        let keys = lru_keys(c);
        let n = keys.len();
        let mut out: Vec<Message> = Vec::new();
        let mut i = n;
        proof {
            assert(orig.subrange(n as int, n as int) + orig.subrange(0, n as int) =~= orig);
        }
        while i > 0
            invariant
                n == orig.len(),
                n == keys@.len(),
                i <= n,
                forall|j: int| 0 <= j < n ==> #[trigger] keys@[j] == orig[j].0,
                cache_ok(orig, cap),
                lru_capacity(*c) == cap,
                lru_entries(*c) == orig.subrange(i as int, n as int) + orig.subrange(0, i as int),
                out@.len() == n - i,
                forall|j: int| 0 <= j < out@.len() ==> #[trigger] out@[j] == orig[i + j].1.msg,
            decreases i,
        {
            i = i - 1;
            let k = keys[i];
            let ghost cur = lru_entries(*c);
            proof {
                lemma_rotated_ok(orig, cap, i + 1);
                assert(cur[n - 1] == orig[i as int]);
                lemma_key_index(cur, k, n - 1);
            }
            let found = lru_get(c, k);
            proof {
                let next = orig.subrange(i as int, n as int) + orig.subrange(0, i as int);
                assert(seq![cur[n - 1]] + cur.remove(n - 1) =~= next);
            }
            let msg = found.unwrap();
            let ghost before = out@;
            out.insert(0, msg);
            assert forall|j: int| 0 <= j < out@.len() implies #[trigger] out@[j] == orig[i + j].1.msg by {
                if j > 0 {
                    assert(out@[j] == before[j - 1]);
                }
            }
        }
        proof {
            assert(orig.subrange(0, n as int) + orig.subrange(0, 0) =~= orig);
        }
        out
    }

}

} // verus!
