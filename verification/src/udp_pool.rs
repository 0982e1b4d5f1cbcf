//! UDP relay bookkeeping.
//!
//! The relay keeps an egress socket per target, reused while it stays warm
//! and evicted once it has sat unused for twice the TTL. The sockets
//! themselves live with the caller, keyed by the same target text; this
//! module owns the reuse and eviction rules.
//!
//! Time is a monotonic clock reading in milliseconds that callers pass in.

use vstd::prelude::*;

use crate::state::clamped_sub;

verus! {

/// How long an unused egress socket stays warm, in milliseconds.
pub const SOCKET_TTL_MS: u64 = 60_000;

/// What the caller should do for a datagram to a target.
#[derive(Debug, Clone, Copy, PartialEq, Eq, Structural)]
pub enum SocketUse {
    /// A warm socket for the target exists; send on it.
    Reuse,
    /// No warm socket exists; bind a fresh one and remember it.
    CreateNew,
}

/// The first index whose key reads like `key`, or the length.
pub open spec fn find_key(entries: Seq<(String, u64)>, key: Seq<char>, i: int) -> int
    decreases entries.len() - i,
    when 0 <= i <= entries.len()
{
    if i >= entries.len() {
        entries.len() as int
    } else if entries[i].0@ == key {
        i
    } else {
        find_key(entries, key, i + 1)
    }
}

/// The first occurrence is indeed an occurrence, and nothing before it is.
proof fn lemma_find_key_from(entries: Seq<(String, u64)>, key: Seq<char>, i: int)
    requires
        0 <= i <= entries.len(),
    ensures
        i <= find_key(entries, key, i) <= entries.len(),
        find_key(entries, key, i) < entries.len() ==> entries[find_key(entries, key, i)].0@
            == key,
        forall|j: int| i <= j < find_key(entries, key, i) ==> entries[j].0@ != key,
    decreases entries.len() - i,
{
    if i < entries.len() && entries[i].0@ != key {
        lemma_find_key_from(entries, key, i + 1);
    }
}

/// Everything before `k` misses the key and `k` hits it (or is the end), so
/// the first occurrence is `k`.
proof fn lemma_find_key_is(entries: Seq<(String, u64)>, key: Seq<char>, i: int, k: int)
    requires
        0 <= i <= k <= entries.len(),
        forall|j: int| i <= j < k ==> entries[j].0@ != key,
        k < entries.len() ==> entries[k].0@ == key,
    ensures
        find_key(entries, key, i) == k,
    decreases k - i,
{
    if i < k {
        lemma_find_key_is(entries, key, i + 1, k);
    }
}

/// Two entry lists with the same keys agree on where any key first occurs.
proof fn lemma_find_key_same_keys(
    e1: Seq<(String, u64)>,
    e2: Seq<(String, u64)>,
    key: Seq<char>,
    i: int,
)
    requires
        e1.len() == e2.len(),
        forall|j: int| 0 <= j < e1.len() ==> #[trigger] e1[j].0@ == #[trigger] e2[j].0@,
        0 <= i <= e1.len(),
    ensures
        find_key(e1, key, i) == find_key(e2, key, i),
    decreases e1.len() - i,
{
    if i < e1.len() && e1[i].0@ != key {
        lemma_find_key_same_keys(e1, e2, key, i + 1);
    }
}

/// Bookkeeping of the egress socket pool: one entry per target address (as
/// text), holding the clock reading of its last use.
pub struct UdpSocketPool {
    entries: Vec<(String, u64)>,
}

impl UdpSocketPool {
    /// No two entries share a key.
    pub closed spec fn wf(&self) -> bool {
        forall|i: int, j: int|
            0 <= i < j < self.entries@.len() ==> #[trigger] self.entries@[i].0@ != #[trigger] self.entries@[j].0@
    }

    /// Whether the pool has an entry for the target.
    pub closed spec fn spec_contains(&self, key: Seq<char>) -> bool {
        find_key(self.entries@, key, 0) < self.entries@.len()
    }

    /// When the target's entry was last used.
    pub closed spec fn spec_last_used(&self, key: Seq<char>) -> u64 {
        self.entries@[find_key(self.entries@, key, 0)].1
    }

    /// The number of entries.
    pub closed spec fn spec_len(&self) -> int {
        self.entries@.len() as int
    }

    /// An empty pool.
    pub fn new() -> (r: Self)
        ensures
            r.wf(),
            r.spec_len() == 0,
            forall|k: Seq<char>| !r.spec_contains(k),
    {
        UdpSocketPool { entries: Vec::new() }
    }

    /// The number of targets the pool remembers.
    pub fn len(&self) -> (r: usize)
        ensures
            r == self.spec_len(),
    {
        self.entries.len()
    }

    /// Whether the pool still remembers the target. The caller keeps its
    /// sockets keyed by the same text and drops those the pool forgot.
    pub fn contains(&self, target: &String) -> (r: bool)
        ensures
            r == self.spec_contains(target@),
    {
        self.position_of(target).is_some()
    }

    /// The index of the target's entry, if any.
    fn position_of(&self, target: &String) -> (r: Option<usize>)
        ensures
            match r {
                Some(i) => i < self.entries@.len() && i == find_key(self.entries@, target@, 0),
                None => find_key(self.entries@, target@, 0) == self.entries@.len(),
            },
    {
        let mut i: usize = 0;
        while i < self.entries.len()
            invariant
                i <= self.entries@.len(),
                forall|j: int| 0 <= j < i ==> self.entries@[j].0@ != target@,
            decreases self.entries@.len() - i,
        {
            if self.entries[i].0.eq(target) {
                proof {
                    lemma_find_key_is(self.entries@, target@, 0, i as int);
                }
                return Some(i);
            }
            i += 1;
        }
        proof {
            lemma_find_key_is(self.entries@, target@, 0, self.entries@.len() as int);
        }
        None
    }

    /// Decide whether a datagram to `target` at clock reading `now` reuses
    /// the warm socket or binds a fresh one, refresh the target's entry to
    /// `now`, and evict every other entry that has sat unused for at least
    /// twice the TTL.
    pub fn get_or_create(&mut self, target: &String, now: u64) -> (r: SocketUse)
        requires
            old(self).wf(),
        ensures
            final(self).wf(),
            r == (if old(self).spec_contains(target@) && clamped_sub(
                now,
                old(self).spec_last_used(target@),
            ) < SOCKET_TTL_MS {
                SocketUse::Reuse
            } else {
                SocketUse::CreateNew
            }),
            final(self).spec_contains(target@),
            final(self).spec_last_used(target@) == now,
            forall|k: Seq<char>|
                k != target@ ==> (#[trigger] final(self).spec_contains(k) <==> (old(self).spec_contains(k) && clamped_sub(now, old(self).spec_last_used(k)) < 2
                    * SOCKET_TTL_MS)),
            forall|k: Seq<char>|
                k != target@ && #[trigger] final(self).spec_contains(k) ==> final(self).spec_last_used(k) == old(self).spec_last_used(k),
    {
        let reuse: bool = match self.position_of(target) {
            Some(i) => {
                let fresh = now.saturating_sub(self.entries[i].1) < SOCKET_TTL_MS;
                let entry = &mut self.entries[i];
                entry.1 = now;
                proof {
                    // only the stamp changed, so every key sits where it was
                    lemma_find_key_from(old(self).entries@, target@, 0);
                    assert forall|k: Seq<char>| true implies #[trigger] find_key(
                        self.entries@,
                        k,
                        0,
                    ) == find_key(old(self).entries@, k, 0) by {
                        lemma_find_key_same_keys(old(self).entries@, self.entries@, k, 0);
                    }
                    assert(self.spec_contains(target@) && self.spec_last_used(target@) == now);
                    assert forall|k: Seq<char>|
                        k != target@ && #[trigger] self.spec_contains(k) implies {
                        &&& old(self).spec_contains(k)
                        &&& self.spec_last_used(k) == old(self).spec_last_used(k)
                    } by {
                        lemma_find_key_from(old(self).entries@, k, 0);
                        assert(old(self).entries@[find_key(old(self).entries@, k, 0)].0@ == k);
                        assert(find_key(old(self).entries@, k, 0) != i);
                    }
                    assert forall|k: Seq<char>|
                        k != target@ && old(self).spec_contains(k) implies #[trigger] self
                            .spec_contains(k) by {}
                }
                fresh
            },
            None => {
                let ghost pre = self.entries@;
                self.entries.push((target.clone(), now));
                proof {
                    assert(self.entries@[pre.len() as int].0@ == target@);
                    lemma_find_key_from(pre, target@, 0);
                    lemma_find_key_is(self.entries@, target@, 0, pre.len() as int);
                    assert(self.spec_contains(target@) && self.spec_last_used(target@) == now);
                    assert forall|k: Seq<char>| k != target@ implies {
                        &&& (#[trigger] self.spec_contains(k) <==> old(self).spec_contains(k))
                        &&& (self.spec_contains(k) ==> self.spec_last_used(k) == old(self).spec_last_used(k))
                    } by {
                        lemma_find_key_from(pre, k, 0);
                        let fp = find_key(pre, k, 0);
                        assert forall|j: int| 0 <= j < fp implies self.entries@[j].0@ != k by {
                            assert(self.entries@[j] == pre[j]);
                        }
                        if fp < pre.len() {
                            assert(self.entries@[fp] == pre[fp]);
                            lemma_find_key_is(self.entries@, k, 0, fp);
                        } else {
                            assert forall|j: int|
                                0 <= j < self.entries@.len() implies self.entries@[j].0@
                                != k by {
                                if j < pre.len() {
                                    assert(self.entries@[j] == pre[j]);
                                }
                            }
                            lemma_find_key_is(self.entries@, k, 0, self.entries@.len() as int);
                        }
                    }
                    assert forall|i: int, j: int|
                        0 <= i < j < self.entries@.len() implies #[trigger] self.entries@[i].0@
                        != #[trigger] self.entries@[j].0@ by {
                        if j == pre.len() {
                            lemma_find_key_from(pre, target@, 0);
                        }
                    }
                }
                false
            },
        };
        self.evict_stale(now);
        proof {
            assert(self.spec_contains(target@));
            assert(self.spec_last_used(target@) == now);
        }
        if reuse {
            SocketUse::Reuse
        } else {
            SocketUse::CreateNew
        }
    }

    /// Drop every entry that has sat unused for at least twice the TTL at
    /// clock reading `now`.
    fn evict_stale(&mut self, now: u64)
        requires
            old(self).wf(),
        ensures
            final(self).wf(),
            forall|k: Seq<char>|
                #[trigger] final(self).spec_contains(k) <==> (old(self).spec_contains(k)
                    && clamped_sub(now, old(self).spec_last_used(k)) < 2 * SOCKET_TTL_MS),
            forall|k: Seq<char>|
                #[trigger] final(self).spec_contains(k) ==> final(self).spec_last_used(k) == old(self).spec_last_used(k),
    {
        let mut keep: Vec<(String, u64)> = Vec::new();
        let mut i: usize = 0;
        while i < self.entries.len()
            invariant
                i <= self.entries@.len(),
                *self == *old(self),
                keep@ == self.entries@.take(i as int).filter(fresh_pred(now)),
            decreases self.entries@.len() - i,
        {
            let stamp = self.entries[i].1;
            let ghost pre_keep = keep@;
            if now.saturating_sub(stamp) < 2 * SOCKET_TTL_MS {
                let entry_key = self.entries[i].0.clone();
                keep.push((entry_key, stamp));
                proof {
                    assert(keep@.last() == self.entries@[i as int]) by {
                        assert(keep@.last().0 == self.entries@[i as int].0);
                        assert(keep@.last().1 == self.entries@[i as int].1);
                    }
                }
            }
            proof {
                reveal(Seq::filter);
                let next = self.entries@.take(i as int + 1);
                assert(next.drop_last() =~= self.entries@.take(i as int));
                assert(next.last() == self.entries@[i as int]);
                if fresh_pred(now)(self.entries@[i as int]) {
                    assert(keep@ == pre_keep.push(self.entries@[i as int]));
                } else {
                    assert(keep@ == pre_keep);
                }
                assert(keep@ == next.filter(fresh_pred(now)));
            }
            i += 1;
        }
        proof {
            assert(self.entries@.take(self.entries@.len() as int) =~= self.entries@);
            lemma_evict_characterises(self.entries@, now);
        }
        self.entries = keep;
    }
}

/// Whether an entry has been used within twice the TTL of clock reading
/// `now`.
pub open spec fn fresh_pred(now: u64) -> spec_fn((String, u64)) -> bool {
    |e: (String, u64)| clamped_sub(now, e.1) < 2 * SOCKET_TTL_MS
}

/// Every element of a filtered sequence is an element of the original.
proof fn lemma_filter_element_of(s: Seq<(String, u64)>, pred: spec_fn((String, u64)) -> bool)
    ensures
        forall|a: int|
            0 <= a < s.filter(pred).len() ==> s.contains(#[trigger] s.filter(pred)[a]),
    decreases s.len(),
{
    reveal(Seq::filter);
    if s.len() > 0 {
        lemma_filter_element_of(s.drop_last(), pred);
        let out = s.filter(pred);
        let inner = s.drop_last().filter(pred);
        assert forall|a: int|
            0 <= a < out.len() implies s.contains(#[trigger] out[a]) by {
            if a < inner.len() {
                assert(inner[a] == out[a]);
                let b = choose|b: int|
                    0 <= b < s.drop_last().len() && s.drop_last()[b] == inner[a];
                assert(s[b] == out[a]);
            } else {
                assert(out[a] == s.last());
                assert(s[s.len() - 1] == out[a]);
            }
        }
    }
}

/// Filtering keeps keys pairwise distinct.
proof fn lemma_filter_distinct_keys(s: Seq<(String, u64)>, pred: spec_fn((String, u64)) -> bool)
    requires
        forall|i: int, j: int| 0 <= i < j < s.len() ==> #[trigger] s[i].0@ != #[trigger] s[j].0@,
    ensures
        forall|a: int, b: int|
            0 <= a < b < s.filter(pred).len() ==> #[trigger] s.filter(pred)[a].0@
                != #[trigger] s.filter(pred)[b].0@,
    decreases s.len(),
{
    reveal(Seq::filter);
    if s.len() > 0 {
        assert forall|i: int, j: int|
            0 <= i < j < s.drop_last().len() implies #[trigger] s.drop_last()[i].0@
            != #[trigger] s.drop_last()[j].0@ by {
            assert(s.drop_last()[i] == s[i] && s.drop_last()[j] == s[j]);
        }
        lemma_filter_distinct_keys(s.drop_last(), pred);
        lemma_filter_element_of(s.drop_last(), pred);
        let out = s.filter(pred);
        let inner = s.drop_last().filter(pred);
        assert forall|a: int, b: int|
            0 <= a < b < out.len() implies #[trigger] out[a].0@ != #[trigger] out[b].0@ by {
            if b < inner.len() {
                assert(out[a] == inner[a] && out[b] == inner[b]);
            } else {
                assert(out[b] == s.last());
                assert(out[a] == inner[a]);
                let c = choose|c: int|
                    0 <= c < s.drop_last().len() && s.drop_last()[c] == inner[a];
                assert(s[c] == out[a]);
                assert(s[c].0@ != s[s.len() - 1].0@);
            }
        }
    }
}

/// What eviction leaves: a key stays exactly when its entry was fresh, with
/// its value unchanged, and the keys stay pairwise distinct.
proof fn lemma_evict_characterises(orig: Seq<(String, u64)>, now: u64)
    requires
        forall|i: int, j: int|
            0 <= i < j < orig.len() ==> #[trigger] orig[i].0@ != #[trigger] orig[j].0@,
    ensures
        ({
            let kept = orig.filter(fresh_pred(now));
            &&& forall|a: int, b: int|
                0 <= a < b < kept.len() ==> #[trigger] kept[a].0@ != #[trigger] kept[b].0@
            &&& forall|k: Seq<char>|
                (#[trigger] find_key(kept, k, 0) < kept.len()) <==> (find_key(orig, k, 0)
                    < orig.len() && clamped_sub(now, orig[find_key(orig, k, 0)].1) < 2
                    * SOCKET_TTL_MS)
            &&& forall|k: Seq<char>|
                #[trigger] find_key(kept, k, 0) < kept.len() ==> kept[find_key(kept, k, 0)].1
                    == orig[find_key(orig, k, 0)].1
        }),
{
    broadcast use vstd::seq_lib::group_filter_ensures;

    let kept = orig.filter(fresh_pred(now));
    lemma_filter_distinct_keys(orig, fresh_pred(now));
    lemma_filter_element_of(orig, fresh_pred(now));
    assert forall|k: Seq<char>| true implies {
        &&& ((#[trigger] find_key(kept, k, 0) < kept.len()) <==> (find_key(orig, k, 0)
            < orig.len() && clamped_sub(now, orig[find_key(orig, k, 0)].1) < 2 * SOCKET_TTL_MS))
        &&& (find_key(kept, k, 0) < kept.len() ==> kept[find_key(kept, k, 0)].1 == orig[find_key(
            orig,
            k,
            0,
        )].1)
    } by {
        lemma_find_key_from(kept, k, 0);
        lemma_find_key_from(orig, k, 0);
        let fk = find_key(kept, k, 0);
        let fo = find_key(orig, k, 0);
        if fk < kept.len() {
            // the found kept entry sits somewhere in the original
            let b = choose|b: int| 0 <= b < orig.len() && orig[b] == kept[fk];
            assert(orig.contains(kept[fk]));
            assert(orig[b].0@ == k);
            assert(b == fo) by {
                if b != fo {
                    assert(fo < orig.len() ==> orig[fo].0@ == k);
                }
            }
            assert(fresh_pred(now)(kept[fk]));
        } else {
            if fo < orig.len() && clamped_sub(now, orig[fo].1) < 2 * SOCKET_TTL_MS {
                assert(fresh_pred(now)(orig[fo]));
                assert(kept.contains(orig[fo]));
                let a = choose|a: int| 0 <= a < kept.len() && kept[a] == orig[fo];
                assert(kept[a].0@ == k);
                assert(false);
            }
        }
    }
}

} // verus!
