//! Pending UDP relay requests.
//!
//! The client's UDP association remembers, for each relayed `(host, port)`,
//! which local client asked and when, so a relay response finds its way back
//! to that client. An entry is refreshed whenever the same target is asked
//! again, and entries that have sat unanswered past the retention window are
//! dropped on every insertion.
//!
//! Time is a monotonic clock reading in milliseconds that callers pass in.

use vstd::prelude::*;

use crate::state::clamped_sub;

verus! {

/// How long a pending request is remembered, in milliseconds.
pub const PENDING_TTL_MS: u64 = 30_000;

/// One pending relay request: the target asked, who asked, and when.
struct PendingEntry {
    host: String,
    port: u16,
    client: String,
    stamp: u64,
}

/// The first index whose target reads like `(host, port)`, or the length.
spec fn find_pending(entries: Seq<PendingEntry>, host: Seq<char>, port: u16, i: int) -> int
    decreases entries.len() - i,
    when 0 <= i <= entries.len()
{
    if i >= entries.len() {
        entries.len() as int
    } else if entries[i].host@ == host && entries[i].port == port {
        i
    } else {
        find_pending(entries, host, port, i + 1)
    }
}

/// The first occurrence is indeed an occurrence, and nothing before it is.
proof fn lemma_find_pending_from(entries: Seq<PendingEntry>, host: Seq<char>, port: u16, i: int)
    requires
        0 <= i <= entries.len(),
    ensures
        i <= find_pending(entries, host, port, i) <= entries.len(),
        find_pending(entries, host, port, i) < entries.len() ==> entries[find_pending(
            entries,
            host,
            port,
            i,
        )].host@ == host && entries[find_pending(entries, host, port, i)].port == port,
        forall|j: int|
            i <= j < find_pending(entries, host, port, i) ==> !(entries[j].host@ == host
                && entries[j].port == port),
    decreases entries.len() - i,
{
    if i < entries.len() && !(entries[i].host@ == host && entries[i].port == port) {
        lemma_find_pending_from(entries, host, port, i + 1);
    }
}

/// Everything before `k` misses the target and `k` hits it (or is the end),
/// so the first occurrence is `k`.
proof fn lemma_find_pending_is(
    entries: Seq<PendingEntry>,
    host: Seq<char>,
    port: u16,
    i: int,
    k: int,
)
    requires
        0 <= i <= k <= entries.len(),
        forall|j: int| i <= j < k ==> !(entries[j].host@ == host && entries[j].port == port),
        k < entries.len() ==> entries[k].host@ == host && entries[k].port == port,
    ensures
        find_pending(entries, host, port, i) == k,
    decreases k - i,
{
    if i < k {
        lemma_find_pending_is(entries, host, port, i + 1, k);
    }
}

/// Two entry lists with the same targets agree on where any target first
/// occurs.
proof fn lemma_find_pending_same_keys(
    e1: Seq<PendingEntry>,
    e2: Seq<PendingEntry>,
    host: Seq<char>,
    port: u16,
    i: int,
)
    requires
        e1.len() == e2.len(),
        forall|j: int|
            0 <= j < e1.len() ==> #[trigger] e1[j].host@ == #[trigger] e2[j].host@ && e1[j].port
                == e2[j].port,
        0 <= i <= e1.len(),
    ensures
        find_pending(e1, host, port, i) == find_pending(e2, host, port, i),
    decreases e1.len() - i,
{
    if i < e1.len() && !(e1[i].host@ == host && e1[i].port == port) {
        lemma_find_pending_same_keys(e1, e2, host, port, i + 1);
    }
}

/// Whether an entry was asked within the retention window of clock reading
/// `now`.
spec fn pending_fresh_pred(now: u64) -> spec_fn(PendingEntry) -> bool {
    |e: PendingEntry| clamped_sub(now, e.stamp) < PENDING_TTL_MS
}

/// The table of pending relay requests, one entry per `(host, port)` target.
pub struct PendingRequests {
    entries: Vec<PendingEntry>,
}

impl PendingRequests {
    /// No two entries name the same target.
    pub closed spec fn wf(&self) -> bool {
        forall|i: int, j: int|
            0 <= i < j < self.entries@.len() ==> !(#[trigger] self.entries@[i].host@
                == #[trigger] self.entries@[j].host@ && self.entries@[i].port
                == self.entries@[j].port)
    }

    /// Whether the table remembers the target.
    pub closed spec fn spec_contains(&self, host: Seq<char>, port: u16) -> bool {
        find_pending(self.entries@, host, port, 0) < self.entries@.len()
    }

    /// Which client asked for the target.
    pub closed spec fn spec_client(&self, host: Seq<char>, port: u16) -> Seq<char> {
        self.entries@[find_pending(self.entries@, host, port, 0)].client@
    }

    /// When the target was last asked.
    pub closed spec fn spec_stamp(&self, host: Seq<char>, port: u16) -> u64 {
        self.entries@[find_pending(self.entries@, host, port, 0)].stamp
    }

    /// The number of pending targets.
    pub closed spec fn spec_len(&self) -> int {
        self.entries@.len() as int
    }

    /// An empty table.
    pub fn new() -> (r: Self)
        ensures
            r.wf(),
            r.spec_len() == 0,
            forall|h: Seq<char>, p: u16| !r.spec_contains(h, p),
    {
        PendingRequests { entries: Vec::new() }
    }

    /// The number of pending targets.
    pub fn len(&self) -> (r: usize)
        ensures
            r == self.spec_len(),
    {
        self.entries.len()
    }

    /// The index of the target's entry, if any.
    fn position_of(&self, host: &String, port: u16) -> (r: Option<usize>)
        ensures
            match r {
                Some(i) => i < self.entries@.len() && i == find_pending(
                    self.entries@,
                    host@,
                    port,
                    0,
                ),
                None => find_pending(self.entries@, host@, port, 0) == self.entries@.len(),
            },
    {
        let mut i: usize = 0;
        while i < self.entries.len()
            invariant
                i <= self.entries@.len(),
                forall|j: int|
                    0 <= j < i ==> !(self.entries@[j].host@ == host@ && self.entries@[j].port
                        == port),
            decreases self.entries@.len() - i,
        {
            if self.entries[i].port == port && self.entries[i].host.eq(host) {
                proof {
                    lemma_find_pending_is(self.entries@, host@, port, 0, i as int);
                }
                return Some(i);
            }
            i += 1;
        }
        proof {
            lemma_find_pending_is(self.entries@, host@, port, 0, self.entries@.len() as int);
        }
        None
    }

    /// Which client asked for the target, if it is still pending.
    pub fn lookup(&self, host: &String, port: u16) -> (r: Option<&String>)
        ensures
            match r {
                Some(c) => self.spec_contains(host@, port) && c@ == self.spec_client(host@, port),
                None => !self.spec_contains(host@, port),
            },
    {
        match self.position_of(host, port) {
            Some(i) => Some(&self.entries[i].client),
            None => None,
        }
    }

    /// Remember that `client` asked for `(host, port)` at clock reading
    /// `now`, and drop every other entry that has sat past the retention
    /// window.
    pub fn remember(&mut self, host: &String, port: u16, client: String, now: u64)
        requires
            old(self).wf(),
        ensures
            final(self).wf(),
            final(self).spec_contains(host@, port),
            final(self).spec_client(host@, port) == client@,
            final(self).spec_stamp(host@, port) == now,
            forall|h: Seq<char>, p: u16|
                !(h == host@ && p == port) ==> (#[trigger] final(self).spec_contains(h, p) <==> (
                old(self).spec_contains(h, p) && clamped_sub(now, old(self).spec_stamp(h, p))
                    < PENDING_TTL_MS)),
            forall|h: Seq<char>, p: u16|
                !(h == host@ && p == port) && #[trigger] final(self).spec_contains(h, p) ==> final(self).spec_client(h, p) == old(self).spec_client(h, p) && final(self).spec_stamp(h, p)
                    == old(self).spec_stamp(h, p),
    {
        match self.position_of(host, port) {
            Some(i) => {
                let entry = &mut self.entries[i];
                entry.client = client;
                entry.stamp = now;
                proof {
                    lemma_find_pending_from(old(self).entries@, host@, port, 0);
                    assert forall|h: Seq<char>, p: u16| true implies #[trigger] find_pending(
                        self.entries@,
                        h,
                        p,
                        0,
                    ) == find_pending(old(self).entries@, h, p, 0) by {
                        lemma_find_pending_same_keys(old(self).entries@, self.entries@, h, p, 0);
                    }
                    assert(self.spec_contains(host@, port) && self.spec_stamp(host@, port)
                        == now);
                    assert forall|h: Seq<char>, p: u16|
                        !(h == host@ && p == port) && #[trigger] self.spec_contains(
                            h,
                            p,
                        ) implies {
                        &&& old(self).spec_contains(h, p)
                        &&& self.spec_client(h, p) == old(self).spec_client(h, p)
                        &&& self.spec_stamp(h, p) == old(self).spec_stamp(h, p)
                    } by {
                        lemma_find_pending_from(old(self).entries@, h, p, 0);
                        let f = find_pending(old(self).entries@, h, p, 0);
                        assert(old(self).entries@[f].host@ == h && old(self).entries@[f].port
                            == p);
                        assert(f != i);
                    }
                }
            },
            None => {
                let ghost pre = self.entries@;
                self.entries.push(
                    PendingEntry { host: host.clone(), port, client, stamp: now },
                );
                proof {
                    assert(self.entries@[pre.len() as int].host@ == host@);
                    lemma_find_pending_from(pre, host@, port, 0);
                    lemma_find_pending_is(self.entries@, host@, port, 0, pre.len() as int);
                    assert(self.spec_contains(host@, port) && self.spec_stamp(host@, port)
                        == now);
                    assert forall|h: Seq<char>, p: u16| !(h == host@ && p == port) implies {
                        &&& (#[trigger] self.spec_contains(h, p) <==> old(self).spec_contains(
                            h,
                            p,
                        ))
                        &&& (self.spec_contains(h, p) ==> self.spec_client(h, p) == old(self).spec_client(h, p) && self.spec_stamp(h, p) == old(self).spec_stamp(h, p))
                    } by {
                        lemma_find_pending_from(pre, h, p, 0);
                        let fp = find_pending(pre, h, p, 0);
                        assert forall|j: int|
                            0 <= j < fp implies !(self.entries@[j].host@ == h
                                && self.entries@[j].port == p) by {
                            assert(self.entries@[j] == pre[j]);
                        }
                        if fp < pre.len() {
                            assert(self.entries@[fp] == pre[fp]);
                            lemma_find_pending_is(self.entries@, h, p, 0, fp);
                        } else {
                            assert forall|j: int|
                                0 <= j < self.entries@.len() implies !(self.entries@[j].host@
                                == h && self.entries@[j].port == p) by {
                                if j < pre.len() {
                                    assert(self.entries@[j] == pre[j]);
                                }
                            }
                            lemma_find_pending_is(
                                self.entries@,
                                h,
                                p,
                                0,
                                self.entries@.len() as int,
                            );
                        }
                    }
                    assert forall|i: int, j: int|
                        0 <= i < j < self.entries@.len() implies !(#[trigger] self.entries@[i]
                            .host@ == #[trigger] self.entries@[j].host@ && self.entries@[i].port
                            == self.entries@[j].port) by {
                        if j == pre.len() {
                            lemma_find_pending_from(pre, host@, port, 0);
                        }
                    }
                }
            },
        };
        self.evict_expired(now);
        proof {
            assert(self.spec_contains(host@, port));
            assert(self.spec_stamp(host@, port) == now);
        }
    }

    /// Drop every entry that has sat past the retention window at clock
    /// reading `now`.
    fn evict_expired(&mut self, now: u64)
        requires
            old(self).wf(),
        ensures
            final(self).wf(),
            forall|h: Seq<char>, p: u16|
                #[trigger] final(self).spec_contains(h, p) <==> (old(self).spec_contains(h, p)
                    && clamped_sub(now, old(self).spec_stamp(h, p)) < PENDING_TTL_MS),
            forall|h: Seq<char>, p: u16|
                #[trigger] final(self).spec_contains(h, p) ==> final(self).spec_client(h, p)
                    == old(self).spec_client(h, p) && final(self).spec_stamp(h, p) == old(self).spec_stamp(h, p),
    {
        let mut keep: Vec<PendingEntry> = Vec::new();
        let mut i: usize = 0;
        while i < self.entries.len()
            invariant
                i <= self.entries@.len(),
                *self == *old(self),
                keep@ == self.entries@.take(i as int).filter(pending_fresh_pred(now)),
            decreases self.entries@.len() - i,
        {
            let stamp = self.entries[i].stamp;
            let ghost pre_keep = keep@;
            if now.saturating_sub(stamp) < PENDING_TTL_MS {
                let entry = &self.entries[i];
                keep.push(
                    PendingEntry {
                        host: entry.host.clone(),
                        port: entry.port,
                        client: entry.client.clone(),
                        stamp: entry.stamp,
                    },
                );
                proof {
                    assert(keep@.last() == self.entries@[i as int]) by {
                        assert(keep@.last().host == self.entries@[i as int].host);
                        assert(keep@.last().client == self.entries@[i as int].client);
                    }
                }
            }
            proof {
                reveal(Seq::filter);
                let next = self.entries@.take(i as int + 1);
                assert(next.drop_last() =~= self.entries@.take(i as int));
                assert(next.last() == self.entries@[i as int]);
                if pending_fresh_pred(now)(self.entries@[i as int]) {
                    assert(keep@ == pre_keep.push(self.entries@[i as int]));
                } else {
                    assert(keep@ == pre_keep);
                }
                assert(keep@ == next.filter(pending_fresh_pred(now)));
            }
            i += 1;
        }
        proof {
            assert(self.entries@.take(self.entries@.len() as int) =~= self.entries@);
            lemma_pending_evict_characterises(self.entries@, now);
        }
        self.entries = keep;
    }
}

/// Every element of a filtered sequence is an element of the original.
proof fn lemma_pending_filter_element_of(
    s: Seq<PendingEntry>,
    pred: spec_fn(PendingEntry) -> bool,
)
    ensures
        forall|a: int|
            0 <= a < s.filter(pred).len() ==> s.contains(#[trigger] s.filter(pred)[a]),
    decreases s.len(),
{
    reveal(Seq::filter);
    if s.len() > 0 {
        lemma_pending_filter_element_of(s.drop_last(), pred);
        let out = s.filter(pred);
        let inner = s.drop_last().filter(pred);
        assert forall|a: int| 0 <= a < out.len() implies s.contains(#[trigger] out[a]) by {
            if a < inner.len() {
                assert(inner[a] == out[a]);
                let b = choose|b: int|
                    0 <= b < s.drop_last().len() && s.drop_last()[b] == inner[a];
                assert(s[b] == out[a]);
            } else {
                assert(out[a] == s.last());
                assert(s[s.len() - 1] == out[a]);
            }
        }
    }
}

/// Filtering keeps targets pairwise distinct.
proof fn lemma_pending_filter_distinct(s: Seq<PendingEntry>, pred: spec_fn(PendingEntry) -> bool)
    requires
        forall|i: int, j: int|
            0 <= i < j < s.len() ==> !(#[trigger] s[i].host@ == #[trigger] s[j].host@ && s[i].port
                == s[j].port),
    ensures
        forall|a: int, b: int|
            0 <= a < b < s.filter(pred).len() ==> !(#[trigger] s.filter(pred)[a].host@
                == #[trigger] s.filter(pred)[b].host@ && s.filter(pred)[a].port == s.filter(
                pred,
            )[b].port),
    decreases s.len(),
{
    reveal(Seq::filter);
    if s.len() > 0 {
        assert forall|i: int, j: int|
            0 <= i < j < s.drop_last().len() implies !(#[trigger] s.drop_last()[i].host@
            == #[trigger] s.drop_last()[j].host@ && s.drop_last()[i].port
            == s.drop_last()[j].port) by {
            assert(s.drop_last()[i] == s[i] && s.drop_last()[j] == s[j]);
        }
        lemma_pending_filter_distinct(s.drop_last(), pred);
        lemma_pending_filter_element_of(s.drop_last(), pred);
        let out = s.filter(pred);
        let inner = s.drop_last().filter(pred);
        assert forall|a: int, b: int|
            0 <= a < b < out.len() implies !(#[trigger] out[a].host@ == #[trigger] out[b].host@
            && out[a].port == out[b].port) by {
            if b < inner.len() {
                assert(out[a] == inner[a] && out[b] == inner[b]);
            } else {
                assert(out[b] == s.last());
                assert(out[a] == inner[a]);
                let c = choose|c: int|
                    0 <= c < s.drop_last().len() && s.drop_last()[c] == inner[a];
                assert(s[c] == out[a]);
                assert(!(s[c].host@ == s[s.len() - 1].host@ && s[c].port == s[s.len() - 1].port));
            }
        }
    }
}

/// What eviction leaves: a target stays exactly when its entry was fresh,
/// with its client and stamp unchanged, and the targets stay pairwise
/// distinct.
proof fn lemma_pending_evict_characterises(orig: Seq<PendingEntry>, now: u64)
    requires
        forall|i: int, j: int|
            0 <= i < j < orig.len() ==> !(#[trigger] orig[i].host@ == #[trigger] orig[j].host@
                && orig[i].port == orig[j].port),
    ensures
        ({
            let kept = orig.filter(pending_fresh_pred(now));
            &&& forall|a: int, b: int|
                0 <= a < b < kept.len() ==> !(#[trigger] kept[a].host@ == #[trigger] kept[b].host@
                    && kept[a].port == kept[b].port)
            &&& forall|h: Seq<char>, p: u16|
                (#[trigger] find_pending(kept, h, p, 0) < kept.len()) <==> (find_pending(
                    orig,
                    h,
                    p,
                    0,
                ) < orig.len() && clamped_sub(now, orig[find_pending(orig, h, p, 0)].stamp)
                    < PENDING_TTL_MS)
            &&& forall|h: Seq<char>, p: u16|
                #[trigger] find_pending(kept, h, p, 0) < kept.len() ==> kept[find_pending(
                    kept,
                    h,
                    p,
                    0,
                )].client@ == orig[find_pending(orig, h, p, 0)].client@ && kept[find_pending(
                    kept,
                    h,
                    p,
                    0,
                )].stamp == orig[find_pending(orig, h, p, 0)].stamp
        }),
{
    broadcast use vstd::seq_lib::group_filter_ensures;

    let kept = orig.filter(pending_fresh_pred(now));
    lemma_pending_filter_distinct(orig, pending_fresh_pred(now));
    lemma_pending_filter_element_of(orig, pending_fresh_pred(now));
    assert forall|h: Seq<char>, p: u16| true implies {
        &&& ((#[trigger] find_pending(kept, h, p, 0) < kept.len()) <==> (find_pending(
            orig,
            h,
            p,
            0,
        ) < orig.len() && clamped_sub(now, orig[find_pending(orig, h, p, 0)].stamp)
            < PENDING_TTL_MS))
        &&& (find_pending(kept, h, p, 0) < kept.len() ==> kept[find_pending(kept, h, p, 0)].client@
            == orig[find_pending(orig, h, p, 0)].client@ && kept[find_pending(kept, h, p, 0)].stamp
            == orig[find_pending(orig, h, p, 0)].stamp)
    } by {
        lemma_find_pending_from(kept, h, p, 0);
        lemma_find_pending_from(orig, h, p, 0);
        let fk = find_pending(kept, h, p, 0);
        let fo = find_pending(orig, h, p, 0);
        if fk < kept.len() {
            // the found kept entry sits somewhere in the original
            let b = choose|b: int| 0 <= b < orig.len() && orig[b] == kept[fk];
            assert(orig.contains(kept[fk]));
            assert(orig[b].host@ == h && orig[b].port == p);
            assert(b == fo) by {
                if b != fo {
                    assert(fo < orig.len() ==> orig[fo].host@ == h && orig[fo].port == p);
                }
            }
            assert(pending_fresh_pred(now)(kept[fk]));
        } else {
            if fo < orig.len() && clamped_sub(now, orig[fo].stamp) < PENDING_TTL_MS {
                assert(pending_fresh_pred(now)(orig[fo]));
                assert(kept.contains(orig[fo]));
                let a = choose|a: int| 0 <= a < kept.len() && kept[a] == orig[fo];
                assert(kept[a].host@ == h && kept[a].port == p);
                assert(false);
            }
        }
    }
}

} // verus!
