//! Connection manager.
//!
//! Owns the connection slab plus a keyed map from connection id to slab slot
//! for O(1) lookup. Ids are minted monotonically from 1, so every id ever
//! issued is strictly greater than the ids issued before it. Shutdown
//! broadcasting and drain polling are scheduling concerns and live with the
//! caller; the manager supplies [`ConnectionManager::mark_all_draining`] and
//! the counts the caller polls.

use vstd::prelude::*;

use crate::metrics::{sat64, Metrics};
use crate::slab::{num_occupied, ConnectionSlab, SlabHandle};
use crate::state::{clamped_sub, ConnectionId, ConnectionInfo, ConnectionPhase, ConnectionState};

verus! {

/// The id map: connection id to slab slot index.
pub type IdMap = dashmap::DashMap<u64, usize>;

/// What the id map holds: connection id to slab slot index.
pub uninterp spec fn id_map_view(m: IdMap) -> Map<u64, usize>;

/// The empty id map contents.
pub open spec fn empty_id_map() -> Map<u64, usize> {
    Map::empty()
}

#[verifier::external_type_specification]
#[verifier::external_body]
#[verifier::reject_recursive_types(K)]
#[verifier::reject_recursive_types(V)]
#[verifier::reject_recursive_types(S)]
pub struct ExDashMap<K, V, S>(dashmap::DashMap<K, V, S>);

/// Relies on dashmap's `DashMap::with_capacity`: an empty map.
#[verifier::external_body]
fn id_map_new(capacity: usize) -> (m: IdMap)
    ensures
        id_map_view(m) == empty_id_map(),
{
    dashmap::DashMap::with_capacity(capacity)
}

/// Relies on dashmap's `DashMap::insert`: maps the key to the value and
/// returns the value it replaced, if the key was present.
#[verifier::external_body]
fn id_map_insert(m: &mut IdMap, key: u64, value: usize) -> (r: Option<usize>)
    ensures
        id_map_view(*final(m)) == id_map_view(*old(m)).insert(key, value),
        match r {
            Some(v0) => id_map_view(*old(m)).contains_key(key) && id_map_view(*old(m))[key] == v0,
            None => !id_map_view(*old(m)).contains_key(key),
        },
{
    m.insert(key, value)
}

/// Relies on dashmap's `DashMap::get`: the value under the key, if present.
/// No reference into the map is held when this returns, only the copied value.
#[verifier::external_body]
fn id_map_get(m: &IdMap, key: u64) -> (r: Option<usize>)
    ensures
        match r {
            Some(v) => id_map_view(*m).contains_key(key) && id_map_view(*m)[key] == v,
            None => !id_map_view(*m).contains_key(key),
        },
{
    m.get(&key).map(|entry| *entry.value())
}

/// Relies on dashmap's `DashMap::remove`: takes the entry out, returning its
/// value if the key was present.
#[verifier::external_body]
fn id_map_remove(m: &mut IdMap, key: u64) -> (r: Option<usize>)
    ensures
        id_map_view(*final(m)) == id_map_view(*old(m)).remove(key),
        match r {
            Some(v) => id_map_view(*old(m)).contains_key(key) && id_map_view(*old(m))[key] == v,
            None => !id_map_view(*old(m)).contains_key(key),
        },
{
    m.remove(&key).map(|(_, v)| v)
}

/// Connection manager configuration.
pub struct ConnectionManagerConfig {
    /// Maximum concurrent connections: the slab's capacity.
    pub max_connections: usize,
    /// Idle timeout in milliseconds; the sweep removes quieter connections.
    pub idle_timeout_ms: u64,
}

/// The map and the slab mirror each other: every mapped slot is occupied by
/// the well-formed record of its own id, every id stays below the mint
/// counter, and every occupied slot is mapped at its own index.
spec fn mirror(slab: Seq<Option<ConnectionState>>, map: Map<u64, usize>, next_id: u64) -> bool {
    &&& forall|id: u64| #[trigger]
        map.contains_key(id) ==> {
            &&& map[id] < slab.len()
            &&& slab[map[id] as int] is Some
            &&& (slab[map[id] as int]->0).id.0 == id
            &&& (slab[map[id] as int]->0).wf()
            &&& id < next_id
        }
    &&& forall|i: int|
        0 <= i < slab.len() && slab[i] is Some ==> #[trigger] map.contains_key(
            (slab[i]->0).id.0,
        ) && map[(slab[i]->0).id.0] == i
}

/// Rewriting one occupied slot keeps the mirror and the occupied count, as
/// long as the new record keeps the slot's id and its own invariant; every
/// other mapped slot reads unchanged.
proof fn lemma_mirror_rewrite_one(
    slab: Seq<Option<ConnectionState>>,
    map: Map<u64, usize>,
    next_id: u64,
    h: int,
    st: ConnectionState,
)
    requires
        mirror(slab, map, next_id),
        0 <= h < slab.len(),
        slab[h] is Some,
        st.id == (slab[h]->0).id,
        st.wf(),
    ensures
        mirror(slab.update(h, Some(st)), map, next_id),
{
    let s2 = slab.update(h, Some(st));
    assert forall|id: u64| #[trigger] map.contains_key(id) implies {
        &&& map[id] < s2.len()
        &&& s2[map[id] as int] is Some
        &&& (s2[map[id] as int]->0).id.0 == id
        &&& (s2[map[id] as int]->0).wf()
        &&& id < next_id
    } by {
        if map[id] == h {
            assert((slab[h]->0).id.0 == id);
        }
    }
    assert forall|i: int|
        0 <= i < s2.len() && s2[i] is Some implies #[trigger] map.contains_key(
        (s2[i]->0).id.0,
    ) && map[(s2[i]->0).id.0] == i by {
        if i == h {
            assert(map.contains_key((slab[h]->0).id.0));
            assert(map[(slab[h]->0).id.0] == h);
            assert((s2[h]->0).id.0 == (slab[h]->0).id.0);
        } else {
            assert(slab[i] is Some);
            assert(map.contains_key((slab[i]->0).id.0));
            assert(map[(slab[i]->0).id.0] == i);
            assert((s2[i]->0).id.0 == (slab[i]->0).id.0);
        }
    }
}

/// Rewriting an occupied slot keeps the mirror and the occupied count, for
/// any record that keeps the slot's id and its own invariant; every other
/// mapped slot reads unchanged.
proof fn lemma_mirror_rewrite(
    slab: Seq<Option<ConnectionState>>,
    map: Map<u64, usize>,
    next_id: u64,
    h: int,
)
    requires
        mirror(slab, map, next_id),
        0 <= h < slab.len(),
        slab[h] is Some,
    ensures
        forall|st: ConnectionState|
            (st.id == (slab[h]->0).id && st.wf()) ==> #[trigger] mirror(
                slab.update(h, Some(st)),
                map,
                next_id,
            ),
        forall|st: ConnectionState|
            num_occupied(#[trigger] slab.update(h, Some(st))) == num_occupied(slab),
        forall|st: ConnectionState, j: u64|
            map.contains_key(j) && j != (slab[h]->0).id.0 ==> #[trigger] slab.update(
                h,
                Some(st),
            )[map[j] as int] == slab[map[j] as int],
{
    assert forall|st: ConnectionState|
        (st.id == (slab[h]->0).id && st.wf()) implies #[trigger] mirror(
        slab.update(h, Some(st)),
        map,
        next_id,
    ) by {
        lemma_mirror_rewrite_one(slab, map, next_id, h, st);
    }
    assert forall|st: ConnectionState|
        num_occupied(#[trigger] slab.update(h, Some(st))) == num_occupied(slab) by {
        crate::slab::lemma_num_occupied_update(slab, h, Some(st));
    }
    assert forall|st: ConnectionState, j: u64|
        map.contains_key(j) && j != (slab[h]->0).id.0 implies #[trigger] slab.update(
        h,
        Some(st),
    )[map[j] as int] == slab[map[j] as int] by {
        assert((slab[map[j] as int]->0).id.0 == j);
        assert(map[j] != h);
    }
}

/// Manages all live connections.
pub struct ConnectionManager {
    /// Connection state slab.
    connections: ConnectionSlab<ConnectionState>,
    /// Fast slot lookup by connection id.
    id_to_handle: IdMap,
    /// The next id to mint.
    next_id: u64,
    /// Configuration.
    config: ConnectionManagerConfig,
}

impl ConnectionManager {
    /// The slot index map, id to slot.
    spec fn handles(&self) -> Map<u64, usize> {
        id_map_view(self.id_to_handle)
    }

    /// The ids of the live connections.
    pub closed spec fn spec_ids(&self) -> Set<u64> {
        id_map_view(self.id_to_handle).dom()
    }

    /// The next id the manager will mint.
    pub closed spec fn spec_next_id(&self) -> u64 {
        self.next_id
    }

    /// The number of live connections.
    pub closed spec fn spec_count(&self) -> int {
        num_occupied(self.connections@)
    }

    /// The slab's capacity.
    pub closed spec fn spec_capacity(&self) -> int {
        self.connections.spec_capacity()
    }

    /// The configured idle timeout in milliseconds.
    pub closed spec fn spec_idle_timeout_ms(&self) -> u64 {
        self.config.idle_timeout_ms
    }

    /// The state of the live connection with this id.
    pub closed spec fn spec_state_of(&self, id: u64) -> ConnectionState {
        self.connections@[self.handles()[id] as int]->0
    }

    /// Well-formedness: the map and the slab mirror each other, every mapped
    /// slot holds the state of its own id, ids never reach the mint counter,
    /// and every stored record is itself well formed.
    pub closed spec fn wf(&self) -> bool {
        &&& self.connections.wf()
        &&& self.connections@.len() == self.connections.spec_capacity()
        &&& self.connections.spec_capacity() == self.config.max_connections
        &&& self.next_id >= 1
        &&& mirror(self.connections@, self.handles(), self.next_id)
    }

    /// A manager for at most `config.max_connections` connections, none live,
    /// minting ids from 1.
    pub fn new(config: ConnectionManagerConfig) -> (r: Self)
        requires
            config.max_connections + 63 <= usize::MAX,
        ensures
            r.wf(),
            r.spec_capacity() == config.max_connections,
            r.spec_idle_timeout_ms() == config.idle_timeout_ms,
            r.spec_next_id() == 1,
            r.spec_count() == 0,
            r.spec_ids() == Set::<u64>::empty(),
    {
        let connections = ConnectionSlab::new(config.max_connections);
        let id_to_handle = id_map_new(config.max_connections);
        let r = ConnectionManager { connections, id_to_handle, next_id: 1, config };
        proof {
            assert(r.spec_ids() =~= Set::<u64>::empty());
            crate::slab::lemma_all_free_num_occupied(r.connections@);
        }
        r
    }

    /// Register a new connection at clock reading `now`: mint the next id,
    /// store a fresh `Connecting` record, and count the connection opened.
    /// Returns `None`, changing nothing but possibly consuming an id, when
    /// the slab is full or the id space is spent.
    pub fn register(&mut self, client_addr: String, now: u64, metrics: &mut Metrics) -> (r: Option<
        ConnectionId,
    >)
        requires
            old(self).wf(),
        ensures
            final(self).wf(),
            final(self).spec_capacity() == old(self).spec_capacity(),
            final(self).spec_idle_timeout_ms() == old(self).spec_idle_timeout_ms(),
            match r {
                Some(id) => {
                    &&& id.0 == old(self).spec_next_id()
                    &&& final(self).spec_next_id() == old(self).spec_next_id() + 1
                    &&& !old(self).spec_ids().contains(id.0)
                    &&& forall|j: u64| old(self).spec_ids().contains(j) ==> j < id.0
                    &&& final(self).spec_ids() == old(self).spec_ids().insert(id.0)
                    &&& final(self).spec_count() == old(self).spec_count() + 1
                    &&& old(self).spec_count() < old(self).spec_capacity()
                    &&& final(self).spec_state_of(id.0).id == id
                    &&& final(self).spec_state_of(id.0).client_addr@ == client_addr@
                    &&& final(self).spec_state_of(id.0).phase == ConnectionPhase::Connecting
                    &&& final(self).spec_state_of(id.0).connected_at == now
                    &&& final(self).spec_state_of(id.0).last_active == now
                    &&& final(self).spec_state_of(id.0).bytes_rx == 0
                    &&& final(self).spec_state_of(id.0).bytes_tx == 0
                    &&& final(self).spec_state_of(id.0).active_streams == 0
                    &&& final(self).spec_state_of(id.0).active_udp_flows == 0
                    &&& forall|j: u64|
                        j != id.0 && old(self).spec_ids().contains(j) ==> #[trigger] final(self).spec_state_of(j) == old(self).spec_state_of(j)
                    &&& final(metrics).connections_total == sat64(
                        old(metrics).connections_total + 1,
                    )
                    &&& final(metrics).connections_active == sat64(
                        old(metrics).connections_active + 1,
                    )
                    &&& *final(metrics) == (Metrics {
                        connections_total: final(metrics).connections_total,
                        connections_active: final(metrics).connections_active,
                        ..*old(metrics)
                    })
                },
                None => {
                    &&& old(self).spec_count() == old(self).spec_capacity() || old(self).spec_next_id() == u64::MAX
                    &&& final(self).spec_next_id() == (if old(self).spec_next_id() == u64::MAX {
                        old(self).spec_next_id()
                    } else {
                        (old(self).spec_next_id() + 1) as u64
                    })
                    &&& final(self).spec_ids() == old(self).spec_ids()
                    &&& final(self).spec_count() == old(self).spec_count()
                    &&& forall|j: u64|
                        old(self).spec_ids().contains(j) ==> #[trigger] final(self).spec_state_of(
                            j,
                        ) == old(self).spec_state_of(j)
                    &&& *final(metrics) == *old(metrics)
                },
            },
    {
        if self.next_id == u64::MAX {
            return None;
        }
        let id = ConnectionId::from_raw(self.next_id);
        self.next_id = self.next_id + 1;

        let state = ConnectionState::new(id, client_addr, now);
        let ghost pre_slab = self.connections@;
        match self.connections.insert(state) {
            Some(handle) => {
                let ghost pre_map = self.handles();
                let replaced = id_map_insert(&mut self.id_to_handle, id.0, handle.0);
                proof {
                    assert(pre_slab == old(self).connections@);
                    assert(pre_map == old(self).handles());
                    crate::slab::lemma_num_occupied_update(pre_slab, handle.0 as int, Some(state));
                    crate::slab::lemma_num_occupied_bounds(self.connections@);
                    // a live id would be below the old mint counter, so the
                    // fresh id was not mapped
                    assert(replaced is None);
                    assert(self.spec_ids() =~= old(self).spec_ids().insert(id.0));
                    assert forall|j: u64| #[trigger]
                        self.handles().contains_key(j) implies {
                        &&& self.handles()[j] < self.connections@.len()
                        &&& self.connections@[self.handles()[j] as int] is Some
                        &&& (self.connections@[self.handles()[j] as int]->0).id.0 == j
                        &&& (self.connections@[self.handles()[j] as int]->0).wf()
                        &&& j < self.next_id
                    } by {
                        if j != id.0 {
                            assert(pre_map.contains_key(j));
                            // the slot of a live id was occupied, so it is not
                            // the slot the insert chose
                            assert(pre_slab[pre_map[j] as int] is Some);
                            assert(pre_map[j] != handle.0);
                        }
                    }
                    assert forall|i: int|
                        0 <= i < self.connections@.len() && self.connections@[i]
                            is Some implies #[trigger] self.handles().contains_key(
                        (self.connections@[i]->0).id.0,
                    ) && self.handles()[(self.connections@[i]->0).id.0] == i by {
                        if i != handle.0 {
                            assert(pre_slab[i] is Some);
                            assert(pre_map.contains_key((pre_slab[i]->0).id.0));
                            assert((pre_slab[i]->0).id.0 < id.0);
                        }
                    }
                    assert forall|j: u64|
                        j != id.0 && old(self).spec_ids().contains(j) implies #[trigger] self
                            .spec_state_of(j) == old(self).spec_state_of(j) by {
                        assert(pre_map.contains_key(j));
                        assert(pre_slab[pre_map[j] as int] is Some);
                        assert(pre_map[j] != handle.0);
                    }
                }
                metrics.connection_opened();
                Some(id)
            },
            None => {
                proof {
                    assert(self.spec_ids() =~= old(self).spec_ids());
                }
                None
            },
        }
    }

    /// Remove the connection with this id, free its slot, and count the
    /// connection closed. Unknown ids change nothing.
    pub fn unregister(&mut self, id: ConnectionId, metrics: &mut Metrics)
        requires
            old(self).wf(),
        ensures
            final(self).wf(),
            final(self).spec_capacity() == old(self).spec_capacity(),
            final(self).spec_idle_timeout_ms() == old(self).spec_idle_timeout_ms(),
            final(self).spec_next_id() == old(self).spec_next_id(),
            if old(self).spec_ids().contains(id.0) {
                &&& final(self).spec_ids() == old(self).spec_ids().remove(id.0)
                &&& final(self).spec_count() == old(self).spec_count() - 1
                &&& final(metrics).connections_active == clamped_sub(
                    old(metrics).connections_active,
                    1,
                )
                &&& *final(metrics) == (Metrics {
                    connections_active: final(metrics).connections_active,
                    ..*old(metrics)
                })
            } else {
                &&& final(self).spec_ids() == old(self).spec_ids()
                &&& final(self).spec_count() == old(self).spec_count()
                &&& *final(metrics) == *old(metrics)
            },
            forall|j: u64|
                j != id.0 && old(self).spec_ids().contains(j) ==> #[trigger] final(self).spec_state_of(j) == old(self).spec_state_of(j),
    {
        let ghost pre_slab = self.connections@;
        let ghost pre_map = self.handles();
        match id_map_remove(&mut self.id_to_handle, id.0) {
            Some(handle) => {
                let removed = self.connections.remove(SlabHandle(handle));
                proof {
                    assert(pre_slab == old(self).connections@);
                    assert(pre_map == old(self).handles());
                    assert(removed is Some);
                    crate::slab::lemma_num_occupied_update(pre_slab, handle as int, None);
                    assert(self.spec_ids() =~= old(self).spec_ids().remove(id.0));
                    assert forall|j: u64| #[trigger]
                        self.handles().contains_key(j) implies {
                        &&& self.handles()[j] < self.connections@.len()
                        &&& self.connections@[self.handles()[j] as int] is Some
                        &&& (self.connections@[self.handles()[j] as int]->0).id.0 == j
                        &&& (self.connections@[self.handles()[j] as int]->0).wf()
                        &&& j < self.next_id
                    } by {
                        assert(pre_map.contains_key(j) && j != id.0);
                        // two live ids never share a slot
                        assert((pre_slab[pre_map[j] as int]->0).id.0 == j);
                        assert(pre_map[j] != handle);
                    }
                    assert forall|j: u64|
                        j != id.0 && old(self).spec_ids().contains(j) implies #[trigger] self
                            .spec_state_of(j) == old(self).spec_state_of(j) by {
                        assert(pre_map.contains_key(j));
                        assert((pre_slab[pre_map[j] as int]->0).id.0 == j);
                        assert(pre_map[j] != handle);
                    }
                }
                metrics.connection_closed();
            },
            None => {
                proof {
                    assert(self.spec_ids() =~= old(self).spec_ids());
                }
            },
        }
    }

    /// The number of live connections.
    pub fn connection_count(&self) -> (r: usize)
        requires
            self.wf(),
        ensures
            r == self.spec_count(),
    {
        self.connections.len()
    }

    /// Whether the slab is at capacity.
    pub fn is_full(&self) -> (r: bool)
        requires
            self.wf(),
        ensures
            r == (self.spec_count() == self.spec_capacity()),
    {
        self.connections.is_full()
    }

    /// Borrow the state of a live connection.
    pub fn get(&self, id: ConnectionId) -> (r: Option<&ConnectionState>)
        requires
            self.wf(),
        ensures
            match r {
                Some(st) => self.spec_ids().contains(id.0) && *st == self.spec_state_of(id.0),
                None => !self.spec_ids().contains(id.0),
            },
    {
        match id_map_get(&self.id_to_handle, id.0) {
            Some(handle) => self.connections.get(SlabHandle(handle)),
            None => None,
        }
    }

    /// Borrow the state of a live connection mutably. The manager stays well
    /// formed as long as the caller neither changes the record's id nor
    /// breaks the record's own invariant.
    pub fn get_mut(&mut self, id: ConnectionId) -> (r: Option<&mut ConnectionState>)
        requires
            old(self).wf(),
        ensures
            final(self).spec_capacity() == old(self).spec_capacity(),
            final(self).spec_idle_timeout_ms() == old(self).spec_idle_timeout_ms(),
            final(self).spec_next_id() == old(self).spec_next_id(),
            final(self).spec_ids() == old(self).spec_ids(),
            final(self).spec_count() == old(self).spec_count(),
            match r {
                Some(st) => {
                    &&& old(self).spec_ids().contains(id.0)
                    &&& *st == old(self).spec_state_of(id.0)
                    &&& final(self).spec_state_of(id.0) == *final(st)
                    &&& forall|j: u64|
                        j != id.0 && old(self).spec_ids().contains(j) ==> #[trigger] final(self).spec_state_of(j) == old(self).spec_state_of(j)
                    &&& (final(st).id == st.id && final(st).wf()) ==> final(self).wf()
                },
                None => {
                    &&& !old(self).spec_ids().contains(id.0)
                    &&& final(self).wf()
                    &&& forall|j: u64|
                        old(self).spec_ids().contains(j) ==> #[trigger] final(self).spec_state_of(
                            j,
                        ) == old(self).spec_state_of(j)
                },
            },
    {
        let ghost pre_slab = self.connections@;
        let ghost pre_map = self.handles();
        proof {
            if pre_map.contains_key(id.0) {
                lemma_mirror_rewrite(pre_slab, pre_map, old(self).next_id, pre_map[id.0] as int);
            }
        }
        match id_map_get(&self.id_to_handle, id.0) {
            Some(handle) => {
                let got = self.connections.get_mut(SlabHandle(handle));
                match got {
                    Some(st) => Some(st),
                    None => {
                        proof {
                            // a mapped slot is occupied, so the borrow exists
                            assert(pre_slab[pre_map[id.0] as int] is Some);
                            assert(false);
                        }
                        None
                    },
                }
            },
            None => None,
        }
    }

    /// Mark the connection active at clock reading `now`, if it is live.
    pub fn activate(&mut self, id: ConnectionId, now: u64)
        requires
            old(self).wf(),
        ensures
            final(self).wf(),
            final(self).spec_capacity() == old(self).spec_capacity(),
            final(self).spec_idle_timeout_ms() == old(self).spec_idle_timeout_ms(),
            final(self).spec_next_id() == old(self).spec_next_id(),
            final(self).spec_ids() == old(self).spec_ids(),
            final(self).spec_count() == old(self).spec_count(),
            old(self).spec_ids().contains(id.0) ==> final(self).spec_state_of(id.0) == (
            ConnectionState {
                phase: if old(self).spec_state_of(id.0).phase == ConnectionPhase::Connecting {
                    ConnectionPhase::Active
                } else {
                    old(self).spec_state_of(id.0).phase
                },
                last_active: if now > old(self).spec_state_of(id.0).last_active {
                    now
                } else {
                    old(self).spec_state_of(id.0).last_active
                },
                ..old(self).spec_state_of(id.0)
            }),
            forall|j: u64|
                j != id.0 && old(self).spec_ids().contains(j) ==> #[trigger] final(self).spec_state_of(j) == old(self).spec_state_of(j),
    {
        match self.get_mut(id) {
            Some(st) => {
                st.set_active(now);
            },
            None => {},
        }
    }

    /// Record relayed traffic on a live connection at clock reading `now`:
    /// update the record's counters and the process-wide metrics, and touch
    /// the record so the idle sweep sees progress. Unknown ids change
    /// nothing.
    pub fn record_traffic(&mut self, id: ConnectionId, rx: u64, tx: u64, now: u64,
        metrics: &mut Metrics)
        requires
            old(self).wf(),
        ensures
            final(self).wf(),
            final(self).spec_capacity() == old(self).spec_capacity(),
            final(self).spec_idle_timeout_ms() == old(self).spec_idle_timeout_ms(),
            final(self).spec_next_id() == old(self).spec_next_id(),
            final(self).spec_ids() == old(self).spec_ids(),
            final(self).spec_count() == old(self).spec_count(),
            forall|j: u64|
                j != id.0 && old(self).spec_ids().contains(j) ==> #[trigger] final(self).spec_state_of(j) == old(self).spec_state_of(j),
            if old(self).spec_ids().contains(id.0) {
                &&& final(self).spec_state_of(id.0) == (ConnectionState {
                    bytes_rx: if rx > 0 {
                        sat64(old(self).spec_state_of(id.0).bytes_rx + rx)
                    } else {
                        old(self).spec_state_of(id.0).bytes_rx
                    },
                    bytes_tx: if tx > 0 {
                        sat64(old(self).spec_state_of(id.0).bytes_tx + tx)
                    } else {
                        old(self).spec_state_of(id.0).bytes_tx
                    },
                    last_active: if (rx > 0 || tx > 0) && now > old(self).spec_state_of(
                        id.0,
                    ).last_active {
                        now
                    } else {
                        old(self).spec_state_of(id.0).last_active
                    },
                    ..old(self).spec_state_of(id.0)
                })
                &&& final(metrics).bytes_received == (if rx > 0 {
                    sat64(old(metrics).bytes_received + rx)
                } else {
                    old(metrics).bytes_received
                })
                &&& final(metrics).packets_received == (if rx > 0 {
                    sat64(old(metrics).packets_received + 1)
                } else {
                    old(metrics).packets_received
                })
                &&& final(metrics).bytes_sent == (if tx > 0 {
                    sat64(old(metrics).bytes_sent + tx)
                } else {
                    old(metrics).bytes_sent
                })
                &&& final(metrics).packets_sent == (if tx > 0 {
                    sat64(old(metrics).packets_sent + 1)
                } else {
                    old(metrics).packets_sent
                })
                &&& *final(metrics) == (Metrics {
                    bytes_received: final(metrics).bytes_received,
                    packets_received: final(metrics).packets_received,
                    bytes_sent: final(metrics).bytes_sent,
                    packets_sent: final(metrics).packets_sent,
                    ..*old(metrics)
                })
            } else {
                *final(metrics) == *old(metrics)
            },
    {
        match self.get_mut(id) {
            Some(st) => {
                if rx > 0 {
                    st.record_rx(rx, now);
                }
                if tx > 0 {
                    st.record_tx(tx, now);
                }
                if rx > 0 {
                    metrics.bytes_rx(rx);
                }
                if tx > 0 {
                    metrics.bytes_tx(tx);
                }
            },
            None => {},
        }
    }

    /// Mark every live connection `Draining` (connections already draining
    /// or closed keep their phase). The drain deadline itself is the
    /// caller's: it polls [`ConnectionManager::connection_count`] until zero
    /// or the deadline passes.
    pub fn mark_all_draining(&mut self)
        requires
            old(self).wf(),
        ensures
            final(self).wf(),
            final(self).spec_capacity() == old(self).spec_capacity(),
            final(self).spec_idle_timeout_ms() == old(self).spec_idle_timeout_ms(),
            final(self).spec_next_id() == old(self).spec_next_id(),
            final(self).spec_ids() == old(self).spec_ids(),
            final(self).spec_count() == old(self).spec_count(),
            forall|j: u64|
                old(self).spec_ids().contains(j) ==> #[trigger] final(self).spec_state_of(j) == (
                ConnectionState {
                    phase: drained_phase(old(self).spec_state_of(j).phase),
                    ..old(self).spec_state_of(j)
                }),
    {
        let cap = self.connections.capacity();
        let mut i: usize = 0;
        while i < cap
            invariant
                i <= cap,
                cap == self.connections@.len(),
                self.wf(),
                self.handles() == old(self).handles(),
                self.next_id == old(self).next_id,
                self.config.max_connections == old(self).config.max_connections,
                self.config.idle_timeout_ms == old(self).config.idle_timeout_ms,
                self.connections.spec_capacity() == old(self).connections.spec_capacity(),
                self.connections@.len() == old(self).connections@.len(),
                num_occupied(self.connections@) == num_occupied(old(self).connections@),
                forall|k: int|
                    0 <= k < i ==> #[trigger] self.connections@[k] == drained_slot(
                        old(self).connections@[k],
                    ),
                forall|k: int|
                    i <= k < cap ==> #[trigger] self.connections@[k] == old(self).connections@[k],
            decreases cap - i,
        {
            let ghost pre_slab = self.connections@;
            let ghost pre_map = self.handles();
            let ghost pre_next = self.next_id;
            proof {
                if pre_slab[i as int] is Some {
                    lemma_mirror_rewrite(pre_slab, pre_map, pre_next, i as int);
                    assert(pre_map.contains_key((pre_slab[i as int]->0).id.0));
                    assert((pre_slab[i as int]->0).wf());
                }
            }
            match self.connections.get_mut(SlabHandle(i)) {
                Some(st) => {
                    st.set_draining();
                },
                None => {},
            }
            proof {
                assert forall|k: int|
                    0 <= k < i + 1 implies #[trigger] self.connections@[k] == drained_slot(
                    old(self).connections@[k],
                ) by {
                    if k < i {
                        assert(self.connections@[k] == pre_slab[k]);
                    }
                }
            }
            i += 1;
        }
        proof {
            assert forall|j: u64|
                old(self).spec_ids().contains(j) implies #[trigger] final(self).spec_state_of(j)
                == (ConnectionState {
                phase: drained_phase(old(self).spec_state_of(j).phase),
                ..old(self).spec_state_of(j)
            }) by {
                assert(old(self).handles().contains_key(j));
                assert(self.connections@[self.handles()[j] as int] == drained_slot(
                    old(self).connections@[old(self).handles()[j] as int],
                ));
            }
        }
    }

    /// Remove every connection that has sat idle longer than the configured
    /// timeout at clock reading `now`, counting each as closed, and return
    /// how many were removed. Connections at or under the timeout survive
    /// untouched.
    pub fn cleanup_idle(&mut self, now: u64, metrics: &mut Metrics) -> (r: usize)
        requires
            old(self).wf(),
        ensures
            final(self).wf(),
            final(self).spec_capacity() == old(self).spec_capacity(),
            final(self).spec_idle_timeout_ms() == old(self).spec_idle_timeout_ms(),
            final(self).spec_next_id() == old(self).spec_next_id(),
            forall|j: u64|
                #[trigger] final(self).spec_ids().contains(j) <==> (old(
                    self,
                ).spec_ids().contains(j) && clamped_sub(
                    now,
                    old(self).spec_state_of(j).last_active,
                ) <= old(self).spec_idle_timeout_ms()),
            forall|j: u64|
                final(self).spec_ids().contains(j) ==> #[trigger] final(self).spec_state_of(j)
                    == old(self).spec_state_of(j),
            final(self).spec_count() == old(self).spec_count() - r,
            final(metrics).connections_active == clamped_sub(
                old(metrics).connections_active,
                r as u64,
            ),
            *final(metrics) == (Metrics {
                connections_active: final(metrics).connections_active,
                ..*old(metrics)
            }),
    {
        let timeout = self.config.idle_timeout_ms;
        let cap = self.connections.capacity();
        let mut stale: Vec<u64> = Vec::new();
        let mut i: usize = 0;
        while i < cap
            invariant
                i <= cap,
                cap == old(self).connections@.len(),
                *self == *old(self),
                self.wf(),
                timeout == old(self).config.idle_timeout_ms,
                forall|k: int|
                    0 <= k < stale@.len() ==> {
                        &&& old(self).handles().contains_key(#[trigger] stale@[k])
                        &&& old(self).handles()[stale@[k]] < i
                        &&& clamped_sub(
                            now,
                            old(self).spec_state_of(stale@[k]).last_active,
                        ) > timeout
                    },
                forall|j: u64|
                    old(self).handles().contains_key(j) && old(self).handles()[j] < i
                        && clamped_sub(now, old(self).spec_state_of(j).last_active) > timeout
                        ==> #[trigger] stale@.contains(j),
                forall|k1: int, k2: int|
                    0 <= k1 < k2 < stale@.len() ==> stale@[k1] != stale@[k2],
            decreases cap - i,
        {
            match self.connections.get(SlabHandle(i)) {
                Some(st) => {
                    let ghost sid = (old(self).connections@[i as int]->0).id.0;
                    proof {
                        assert(old(self).handles().contains_key(sid));
                        assert(old(self).handles()[sid] == i);
                        assert(old(self).spec_state_of(sid) == old(self).connections@[i as int]
                            ->0);
                    }
                    if st.idle_duration_ms(now) > timeout {
                        let raw = st.id.as_u64();
                        let ghost pre_stale = stale@;
                        stale.push(raw);
                        proof {
                            assert(raw == sid);
                            assert(stale@ == pre_stale.push(sid));
                            assert(stale@[stale@.len() - 1] == sid);
                            assert forall|k: int| 0 <= k < stale@.len() implies {
                                &&& old(self).handles().contains_key(#[trigger] stale@[k])
                                &&& old(self).handles()[stale@[k]] < i + 1
                                &&& clamped_sub(
                                    now,
                                    old(self).spec_state_of(stale@[k]).last_active,
                                ) > timeout
                            } by {
                                if k < pre_stale.len() {
                                    assert(stale@[k] == pre_stale[k]);
                                }
                            }
                            assert forall|j: u64|
                                old(self).handles().contains_key(j) && old(self).handles()[j] < i
                                    + 1 && clamped_sub(
                                    now,
                                    old(self).spec_state_of(j).last_active,
                                ) > timeout implies #[trigger] stale@.contains(j) by {
                                if old(self).handles()[j] == i {
                                    assert(j == sid);
                                    assert(stale@[stale@.len() - 1] == j);
                                } else {
                                    assert(pre_stale.contains(j));
                                    let k = choose|k: int|
                                        0 <= k < pre_stale.len() && #[trigger] pre_stale[k] == j;
                                    assert(stale@[k] == j);
                                }
                            }
                            assert forall|k1: int, k2: int|
                                0 <= k1 < k2 < stale@.len() implies stale@[k1] != stale@[k2] by {
                                if k2 == stale@.len() - 1 {
                                    assert(old(self).handles()[stale@[k1]] < i);
                                    assert(old(self).handles()[sid] == i);
                                }
                            }
                        }
                    }
                },
                None => {
                    proof {
                        assert forall|j: u64|
                            old(self).handles().contains_key(j) && old(self).handles()[j] < i + 1
                                && clamped_sub(now, old(self).spec_state_of(j).last_active)
                                > timeout implies #[trigger] stale@.contains(j) by {
                            assert(old(self).connections@[old(self).handles()[j] as int]
                                is Some);
                            assert(old(self).handles()[j] != i);
                        }
                    }
                },
            }
            i += 1;
        }

        let ghost stale_all = stale@;
        let n = stale.len();
        let mut t: usize = 0;
        while t < n
            invariant
                t <= n,
                n == stale@.len(),
                stale@ == stale_all,
                self.wf(),
                old(self).wf(),
                self.next_id == old(self).next_id,
                self.config.max_connections == old(self).config.max_connections,
                self.config.idle_timeout_ms == old(self).config.idle_timeout_ms,
                self.connections.spec_capacity() == old(self).connections.spec_capacity(),
                forall|k: int|
                    0 <= k < stale_all.len() ==> {
                        &&& old(self).handles().contains_key(#[trigger] stale_all[k])
                        &&& clamped_sub(
                            now,
                            old(self).spec_state_of(stale_all[k]).last_active,
                        ) > old(self).config.idle_timeout_ms
                    },
                forall|j: u64|
                    old(self).handles().contains_key(j) && clamped_sub(
                        now,
                        old(self).spec_state_of(j).last_active,
                    ) > old(self).config.idle_timeout_ms ==> #[trigger] stale_all.contains(j),
                forall|k1: int, k2: int|
                    0 <= k1 < k2 < stale_all.len() ==> stale_all[k1] != stale_all[k2],
                forall|j: u64|
                    #[trigger] self.spec_ids().contains(j) <==> (old(self).spec_ids().contains(j)
                        && !stale_all.take(t as int).contains(j)),
                forall|j: u64|
                    self.spec_ids().contains(j) ==> #[trigger] self.spec_state_of(j) == old(
                        self,
                    ).spec_state_of(j),
                self.spec_count() == old(self).spec_count() - t,
                metrics.connections_active == clamped_sub(
                    old(metrics).connections_active,
                    t as u64,
                ),
                *metrics == (Metrics {
                    connections_active: metrics.connections_active,
                    ..*old(metrics)
                }),
            decreases n - t,
        {
            let raw = stale[t];
            proof {
                assert(stale_all[t as int] == raw);
                assert(old(self).handles().contains_key(raw));
                assert(old(self).spec_ids().contains(raw));
                assert(!stale_all.take(t as int).contains(raw)) by {
                    if stale_all.take(t as int).contains(raw) {
                        let k = choose|k: int|
                            0 <= k < t && #[trigger] stale_all.take(t as int)[k] == raw;
                        assert(stale_all[k] == stale_all[t as int]);
                    }
                }
                assert(self.spec_ids().contains(raw));
            }
            let ghost pre_ids = self.spec_ids();
            self.unregister(ConnectionId(raw), metrics);
            proof {
                assert forall|j: u64| #[trigger]
                    self.spec_ids().contains(j) <==> (old(self).spec_ids().contains(j)
                        && !stale_all.take(t as int + 1).contains(j)) by {
                    if stale_all.take(t as int + 1).contains(j) {
                        let k = choose|k: int|
                            0 <= k < t + 1 && #[trigger] stale_all.take(t as int + 1)[k] == j;
                        if k < t {
                            assert(stale_all.take(t as int)[k] == j);
                            assert(stale_all.take(t as int).contains(j));
                        } else {
                            assert(j == raw);
                        }
                    } else {
                        assert(!stale_all.take(t as int).contains(j)) by {
                            if stale_all.take(t as int).contains(j) {
                                let k = choose|k: int|
                                    0 <= k < t && #[trigger] stale_all.take(t as int)[k] == j;
                                assert(stale_all.take(t as int + 1)[k] == j);
                                assert(stale_all.take(t as int + 1).contains(j));
                            }
                        }
                        assert(j != raw) by {
                            if j == raw {
                                assert(stale_all.take(t as int + 1)[t as int] == j);
                                assert(stale_all.take(t as int + 1).contains(j));
                            }
                        }
                    }
                }
            }
            t += 1;
        }
        proof {
            assert(stale_all.take(n as int) =~= stale_all);
            assert forall|j: u64| #[trigger]
                self.spec_ids().contains(j) <==> (old(self).spec_ids().contains(j) && clamped_sub(
                    now,
                    old(self).spec_state_of(j).last_active,
                ) <= old(self).spec_idle_timeout_ms()) by {
                if old(self).spec_ids().contains(j) {
                    if stale_all.contains(j) {
                        let k = choose|k: int|
                            0 <= k < stale_all.len() && #[trigger] stale_all[k] == j;
                        assert(clamped_sub(now, old(self).spec_state_of(j).last_active) > old(
                            self,
                        ).config.idle_timeout_ms);
                    }
                }
            }
        }
        n
    }

    /// Snapshot every live connection into a plain report row at clock
    /// reading `now`. Every row describes a live connection and every live
    /// connection gets a row.
    pub fn list_connections(&self, now: u64) -> (r: Vec<ConnectionInfo>)
        requires
            self.wf(),
        ensures
            r@.len() == self.spec_count(),
            forall|k: int| 0 <= k < r@.len() ==> row_is_live(self, #[trigger] r@[k], now),
            forall|j: u64|
                #[trigger] self.spec_ids().contains(j) ==> exists|k: int|
                    0 <= k < r@.len() && info_matches(r@[k], self.spec_state_of(j), now),
    {
        let cap = self.connections.capacity();
        let mut out: Vec<ConnectionInfo> = Vec::new();
        let mut i: usize = 0;
        while i < cap
            invariant
                i <= cap,
                cap == self.connections@.len(),
                self.wf(),
                out@.len() == num_occupied(self.connections@.take(i as int)),
                forall|k: int| 0 <= k < out@.len() ==> row_is_live(self, #[trigger] out@[k], now),
                forall|idx: int|
                    0 <= idx < i && self.connections@[idx] is Some ==> exists|k: int|
                        0 <= k < out@.len() && info_matches(
                            #[trigger] out@[k],
                            (self.connections@[idx]->0),
                            now,
                        ),
            decreases cap - i,
        {
            proof {
                assert(self.connections@.take(i as int + 1).drop_last() =~= self.connections@.take(
                    i as int,
                ));
                assert(self.connections@.take(i as int + 1).last() == self.connections@[i as int]);
            }
            match self.connections.get(SlabHandle(i)) {
                Some(st) => {
                    let ghost sid = (self.connections@[i as int]->0).id.0;
                    proof {
                        assert(self.handles().contains_key(sid));
                        assert(self.handles()[sid] == i);
                        assert(self.spec_state_of(sid) == self.connections@[i as int]->0);
                    }
                    let info = st.to_info(now);
                    let ghost pre_out = out@;
                    out.push(info);
                    proof {
                        assert(out@[out@.len() - 1] == info);
                        assert(info_matches(info, self.spec_state_of(sid), now));
                        assert forall|k: int|
                            0 <= k < out@.len() implies row_is_live(
                            self,
                            #[trigger] out@[k],
                            now,
                        ) by {
                            if k < pre_out.len() {
                                assert(out@[k] == pre_out[k]);
                                assert(row_is_live(self, pre_out[k], now));
                            } else {
                                assert(self.spec_ids().contains(sid) && info_matches(
                                    out@[k],
                                    self.spec_state_of(sid),
                                    now,
                                ));
                            }
                        }
                        assert forall|idx: int|
                            0 <= idx < i + 1 && self.connections@[idx] is Some implies exists|
                            k: int,
                        |
                            0 <= k < out@.len() && info_matches(
                                #[trigger] out@[k],
                                (self.connections@[idx]->0),
                                now,
                            ) by {
                            if idx < i {
                                let k0 = choose|k0: int|
                                    0 <= k0 < pre_out.len() && info_matches(
                                        #[trigger] pre_out[k0],
                                        (self.connections@[idx]->0),
                                        now,
                                    );
                                assert(out@[k0] == pre_out[k0]);
                                assert(info_matches(out@[k0], (self.connections@[idx]->0), now));
                            } else {
                                assert(info_matches(
                                    out@[out@.len() - 1],
                                    (self.connections@[idx]->0),
                                    now,
                                ));
                            }
                        }
                    }
                },
                None => {},
            }
            i += 1;
        }
        proof {
            assert(self.connections@.take(cap as int) =~= self.connections@);
            assert forall|j: u64| #[trigger] self.spec_ids().contains(j) implies exists|k: int|
                0 <= k < out@.len() && info_matches(out@[k], self.spec_state_of(j), now) by {
                let idx = self.handles()[j] as int;
                assert(self.connections@[idx] is Some);
                assert(self.spec_state_of(j) == self.connections@[idx]->0);
            }
        }
        out
    }
}

/// Whether a report row shows exactly the state of some live connection of
/// the manager at clock reading `now`.
pub open spec fn row_is_live(m: &ConnectionManager, info: ConnectionInfo, now: u64) -> bool {
    exists|j: u64| #[trigger] m.spec_ids().contains(j) && info_matches(info, m.spec_state_of(j), now)
}

/// Whether a report row shows exactly this connection state at clock
/// reading `now`.
pub open spec fn info_matches(info: ConnectionInfo, st: ConnectionState, now: u64) -> bool {
    &&& info.id@ == crate::state::u64_hex(st.id.0)
    &&& info.client_addr@ == st.client_addr@
    &&& info.phase == st.phase
    &&& info.duration_ms == clamped_sub(now, st.connected_at)
    &&& info.idle_ms == clamped_sub(now, st.last_active)
    &&& info.bytes_rx == st.bytes_rx
    &&& info.bytes_tx == st.bytes_tx
    &&& info.active_streams == st.active_streams
    &&& info.active_udp_flows == st.active_udp_flows
}

/// The phase a record drains to: draining, unless it is already draining or
/// closed.
pub open spec fn drained_phase(p: ConnectionPhase) -> ConnectionPhase {
    if crate::state::phase_rank(p) < crate::state::phase_rank(ConnectionPhase::Draining) {
        ConnectionPhase::Draining
    } else {
        p
    }
}

/// What draining does to one slot.
pub open spec fn drained_slot(s: Option<ConnectionState>) -> Option<ConnectionState> {
    match s {
        None => None,
        Some(st) => Some(ConnectionState { phase: drained_phase(st.phase), ..st }),
    }
}

/// Law: the pair of one `register` and one `unregister` of the id it issued
/// leaves the set of live ids, and with it the connection count, exactly
/// where it began: `register` adds the one fresh id and one connection, and
/// `unregister` of that id takes exactly them away again.
pub proof fn lemma_register_unregister_ids(ids: Set<u64>, id: u64)
    requires
        !ids.contains(id),
    ensures
        ids.insert(id).remove(id) == ids,
{
    assert(ids.insert(id).remove(id) =~= ids);
}

} // verus!
