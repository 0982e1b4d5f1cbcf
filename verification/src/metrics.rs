//! Counters for hot-path metrics.
//!
//! One process-wide record of 64-bit counters, updated on every connection,
//! stream, datagram and buffer event. All counters are monotone except
//! `connections_active`, which is a gauge and goes down when a connection
//! closes. Counters saturate instead of wrapping, so a snapshot never shows a
//! monotone counter going backwards.

use vstd::prelude::*;

verus! {

/// `v` clamped to the 64-bit unsigned range from above.
pub open spec fn sat64(v: int) -> u64 {
    if v > u64::MAX {
        u64::MAX
    } else {
        v as u64
    }
}

/// Every monotone counter of `a` is at or below its counterpart in `b`.
/// `connections_active` is a gauge and is not constrained.
pub open spec fn monotone_le(a: &Metrics, b: &Metrics) -> bool {
    &&& a.connections_total <= b.connections_total
    &&& a.connections_failed <= b.connections_failed
    &&& a.bytes_received <= b.bytes_received
    &&& a.bytes_sent <= b.bytes_sent
    &&& a.packets_received <= b.packets_received
    &&& a.packets_sent <= b.packets_sent
    &&& a.streams_opened <= b.streams_opened
    &&& a.streams_closed <= b.streams_closed
    &&& a.datagrams_received <= b.datagrams_received
    &&& a.datagrams_sent <= b.datagrams_sent
    &&& a.errors_total <= b.errors_total
    &&& a.timeouts_total <= b.timeouts_total
    &&& a.buffer_pool_acquires <= b.buffer_pool_acquires
    &&& a.buffer_pool_releases <= b.buffer_pool_releases
    &&& a.buffer_pool_misses <= b.buffer_pool_misses
}

/// The metrics counters.
#[derive(Debug, Clone, Copy, PartialEq, Eq, Structural)]
pub struct Metrics {
    /// Connections ever opened.
    pub connections_total: u64,
    /// Connections open right now; a gauge, not monotone.
    pub connections_active: u64,
    /// Connections whose handshake failed.
    pub connections_failed: u64,
    /// Bytes received from tunnel clients.
    pub bytes_received: u64,
    /// Bytes sent to tunnel clients.
    pub bytes_sent: u64,
    /// Receive events counted alongside `bytes_received`.
    pub packets_received: u64,
    /// Send events counted alongside `bytes_sent`.
    pub packets_sent: u64,
    /// Bidirectional streams accepted.
    pub streams_opened: u64,
    /// Bidirectional streams finished.
    pub streams_closed: u64,
    /// Datagrams read from QUIC connections.
    pub datagrams_received: u64,
    /// Datagrams sent back to QUIC connections.
    pub datagrams_sent: u64,
    /// Errors swallowed at stream or datagram scope.
    pub errors_total: u64,
    /// Timeouts of UDP relay responses.
    pub timeouts_total: u64,
    /// Buffers taken from the pool.
    pub buffer_pool_acquires: u64,
    /// Buffers handed back to the pool.
    pub buffer_pool_releases: u64,
    /// Acquisitions that found the pool drained.
    pub buffer_pool_misses: u64,
}

/// A snapshot of the exported counters.
#[derive(Debug, Clone, Copy, PartialEq, Eq, Structural)]
pub struct MetricsSnapshot {
    /// Connections ever opened.
    pub connections_total: u64,
    /// Connections open at snapshot time.
    pub connections_active: u64,
    /// Connections whose handshake failed.
    pub connections_failed: u64,
    /// Bytes received from tunnel clients.
    pub bytes_received: u64,
    /// Bytes sent to tunnel clients.
    pub bytes_sent: u64,
    /// Receive events counted alongside `bytes_received`.
    pub packets_received: u64,
    /// Send events counted alongside `bytes_sent`.
    pub packets_sent: u64,
    /// Bidirectional streams accepted.
    pub streams_opened: u64,
    /// Bidirectional streams finished.
    pub streams_closed: u64,
    /// Datagrams read from QUIC connections.
    pub datagrams_received: u64,
    /// Datagrams sent back to QUIC connections.
    pub datagrams_sent: u64,
    /// Errors swallowed at stream or datagram scope.
    pub errors_total: u64,
    /// Timeouts of UDP relay responses.
    pub timeouts_total: u64,
}

impl Metrics {
    /// All counters at zero.
    pub fn new() -> (r: Self)
        ensures
            r == Metrics::spec_zero(),
    {
        Metrics {
            connections_total: 0,
            connections_active: 0,
            connections_failed: 0,
            bytes_received: 0,
            bytes_sent: 0,
            packets_received: 0,
            packets_sent: 0,
            streams_opened: 0,
            streams_closed: 0,
            datagrams_received: 0,
            datagrams_sent: 0,
            errors_total: 0,
            timeouts_total: 0,
            buffer_pool_acquires: 0,
            buffer_pool_releases: 0,
            buffer_pool_misses: 0,
        }
    }

    /// The all-zero counter record.
    pub open spec fn spec_zero() -> Metrics {
        Metrics {
            connections_total: 0,
            connections_active: 0,
            connections_failed: 0,
            bytes_received: 0,
            bytes_sent: 0,
            packets_received: 0,
            packets_sent: 0,
            streams_opened: 0,
            streams_closed: 0,
            datagrams_received: 0,
            datagrams_sent: 0,
            errors_total: 0,
            timeouts_total: 0,
            buffer_pool_acquires: 0,
            buffer_pool_releases: 0,
            buffer_pool_misses: 0,
        }
    }

    /// A connection was accepted: one more total, one more active.
    pub fn connection_opened(&mut self)
        ensures
            final(self).connections_total == sat64(old(self).connections_total + 1),
            final(self).connections_active == sat64(old(self).connections_active + 1),
            *final(self) == (Metrics {
                connections_total: final(self).connections_total,
                connections_active: final(self).connections_active,
                ..*old(self)
            }),
            monotone_le(old(self), final(self)),
    {
        self.connections_total = self.connections_total.saturating_add(1);
        self.connections_active = self.connections_active.saturating_add(1);
    }

    /// A connection closed: one fewer active.
    pub fn connection_closed(&mut self)
        ensures
            final(self).connections_active == if old(self).connections_active > 0 {
                (old(self).connections_active - 1) as u64
            } else {
                0u64
            },
            *final(self) == (Metrics {
                connections_active: final(self).connections_active,
                ..*old(self)
            }),
            monotone_le(old(self), final(self)),
    {
        self.connections_active = self.connections_active.saturating_sub(1);
    }

    /// A handshake failed.
    pub fn connection_failed(&mut self)
        ensures
            final(self).connections_failed == sat64(old(self).connections_failed + 1),
            *final(self) == (Metrics {
                connections_failed: final(self).connections_failed,
                ..*old(self)
            }),
            monotone_le(old(self), final(self)),
    {
        self.connections_failed = self.connections_failed.saturating_add(1);
    }

    /// `count` bytes arrived; counts one receive event.
    pub fn bytes_rx(&mut self, count: u64)
        ensures
            final(self).bytes_received == sat64(old(self).bytes_received + count),
            final(self).packets_received == sat64(old(self).packets_received + 1),
            *final(self) == (Metrics {
                bytes_received: final(self).bytes_received,
                packets_received: final(self).packets_received,
                ..*old(self)
            }),
            monotone_le(old(self), final(self)),
    {
        self.bytes_received = self.bytes_received.saturating_add(count);
        self.packets_received = self.packets_received.saturating_add(1);
    }

    /// `count` bytes left; counts one send event.
    pub fn bytes_tx(&mut self, count: u64)
        ensures
            final(self).bytes_sent == sat64(old(self).bytes_sent + count),
            final(self).packets_sent == sat64(old(self).packets_sent + 1),
            *final(self) == (Metrics {
                bytes_sent: final(self).bytes_sent,
                packets_sent: final(self).packets_sent,
                ..*old(self)
            }),
            monotone_le(old(self), final(self)),
    {
        self.bytes_sent = self.bytes_sent.saturating_add(count);
        self.packets_sent = self.packets_sent.saturating_add(1);
    }

    /// A bidirectional stream was accepted.
    pub fn stream_opened(&mut self)
        ensures
            final(self).streams_opened == sat64(old(self).streams_opened + 1),
            *final(self) == (Metrics { streams_opened: final(self).streams_opened, ..*old(self) }),
            monotone_le(old(self), final(self)),
    {
        self.streams_opened = self.streams_opened.saturating_add(1);
    }

    /// A bidirectional stream finished.
    pub fn stream_closed(&mut self)
        ensures
            final(self).streams_closed == sat64(old(self).streams_closed + 1),
            *final(self) == (Metrics { streams_closed: final(self).streams_closed, ..*old(self) }),
            monotone_le(old(self), final(self)),
    {
        self.streams_closed = self.streams_closed.saturating_add(1);
    }

    /// A datagram arrived on a QUIC connection.
    pub fn datagram_rx(&mut self)
        ensures
            final(self).datagrams_received == sat64(old(self).datagrams_received + 1),
            *final(self) == (Metrics {
                datagrams_received: final(self).datagrams_received,
                ..*old(self)
            }),
            monotone_le(old(self), final(self)),
    {
        self.datagrams_received = self.datagrams_received.saturating_add(1);
    }

    /// A datagram was sent back on a QUIC connection.
    pub fn datagram_tx(&mut self)
        ensures
            final(self).datagrams_sent == sat64(old(self).datagrams_sent + 1),
            *final(self) == (Metrics { datagrams_sent: final(self).datagrams_sent, ..*old(self) }),
            monotone_le(old(self), final(self)),
    {
        self.datagrams_sent = self.datagrams_sent.saturating_add(1);
    }

    /// An error was swallowed at stream or datagram scope.
    pub fn error(&mut self)
        ensures
            final(self).errors_total == sat64(old(self).errors_total + 1),
            *final(self) == (Metrics { errors_total: final(self).errors_total, ..*old(self) }),
            monotone_le(old(self), final(self)),
    {
        self.errors_total = self.errors_total.saturating_add(1);
    }

    /// A UDP relay response timed out.
    pub fn timeout(&mut self)
        ensures
            final(self).timeouts_total == sat64(old(self).timeouts_total + 1),
            *final(self) == (Metrics { timeouts_total: final(self).timeouts_total, ..*old(self) }),
            monotone_le(old(self), final(self)),
    {
        self.timeouts_total = self.timeouts_total.saturating_add(1);
    }

    /// A buffer left the pool.
    pub fn buffer_acquired(&mut self)
        ensures
            final(self).buffer_pool_acquires == sat64(old(self).buffer_pool_acquires + 1),
            *final(self) == (Metrics {
                buffer_pool_acquires: final(self).buffer_pool_acquires,
                ..*old(self)
            }),
            monotone_le(old(self), final(self)),
    {
        self.buffer_pool_acquires = self.buffer_pool_acquires.saturating_add(1);
    }

    /// A buffer returned to the pool.
    pub fn buffer_released(&mut self)
        ensures
            final(self).buffer_pool_releases == sat64(old(self).buffer_pool_releases + 1),
            *final(self) == (Metrics {
                buffer_pool_releases: final(self).buffer_pool_releases,
                ..*old(self)
            }),
            monotone_le(old(self), final(self)),
    {
        self.buffer_pool_releases = self.buffer_pool_releases.saturating_add(1);
    }

    /// An acquisition found the pool drained.
    pub fn buffer_miss(&mut self)
        ensures
            final(self).buffer_pool_misses == sat64(old(self).buffer_pool_misses + 1),
            *final(self) == (Metrics {
                buffer_pool_misses: final(self).buffer_pool_misses,
                ..*old(self)
            }),
            monotone_le(old(self), final(self)),
    {
        self.buffer_pool_misses = self.buffer_pool_misses.saturating_add(1);
    }

    /// The snapshot a metrics record exports.
    pub open spec fn spec_snapshot(&self) -> MetricsSnapshot {
        MetricsSnapshot {
            connections_total: self.connections_total,
            connections_active: self.connections_active,
            connections_failed: self.connections_failed,
            bytes_received: self.bytes_received,
            bytes_sent: self.bytes_sent,
            packets_received: self.packets_received,
            packets_sent: self.packets_sent,
            streams_opened: self.streams_opened,
            streams_closed: self.streams_closed,
            datagrams_received: self.datagrams_received,
            datagrams_sent: self.datagrams_sent,
            errors_total: self.errors_total,
            timeouts_total: self.timeouts_total,
        }
    }

    /// Read all exported counters at once.
    pub fn snapshot(&self) -> (r: MetricsSnapshot)
        ensures
            r == self.spec_snapshot(),
    {
        MetricsSnapshot {
            connections_total: self.connections_total,
            connections_active: self.connections_active,
            connections_failed: self.connections_failed,
            bytes_received: self.bytes_received,
            bytes_sent: self.bytes_sent,
            packets_received: self.packets_received,
            packets_sent: self.packets_sent,
            streams_opened: self.streams_opened,
            streams_closed: self.streams_closed,
            datagrams_received: self.datagrams_received,
            datagrams_sent: self.datagrams_sent,
            errors_total: self.errors_total,
            timeouts_total: self.timeouts_total,
        }
    }
}

/// The per-counter increases between two snapshots, each clamped at zero so
/// a reset or a wrapped reading never produces a negative delta.
#[derive(Debug, Clone, Copy, PartialEq, Eq, Structural)]
pub struct MetricsDeltas {
    /// Increase of `connections_total`.
    pub connections_total: u64,
    /// Increase of `connections_failed`.
    pub connections_failed: u64,
    /// Increase of `bytes_received`.
    pub bytes_received: u64,
    /// Increase of `bytes_sent`.
    pub bytes_sent: u64,
    /// Increase of `packets_received`.
    pub packets_received: u64,
    /// Increase of `packets_sent`.
    pub packets_sent: u64,
    /// Increase of `streams_opened`.
    pub streams_opened: u64,
    /// Increase of `streams_closed`.
    pub streams_closed: u64,
    /// Increase of `datagrams_received`.
    pub datagrams_received: u64,
    /// Increase of `datagrams_sent`.
    pub datagrams_sent: u64,
    /// Increase of `errors_total`.
    pub errors_total: u64,
    /// Increase of `timeouts_total`.
    pub timeouts_total: u64,
}

/// `a - b` clamped at zero.
pub open spec fn delta64(a: u64, b: u64) -> u64 {
    if a >= b {
        (a - b) as u64
    } else {
        0u64
    }
}

/// The increases an exporter feeds its counters: the difference of each
/// monotone counter between the last snapshot and the current one.
pub fn snapshot_deltas(last: &MetricsSnapshot, current: &MetricsSnapshot) -> (r: MetricsDeltas)
    ensures
        r.connections_total == delta64(current.connections_total, last.connections_total),
        r.connections_failed == delta64(current.connections_failed, last.connections_failed),
        r.bytes_received == delta64(current.bytes_received, last.bytes_received),
        r.bytes_sent == delta64(current.bytes_sent, last.bytes_sent),
        r.packets_received == delta64(current.packets_received, last.packets_received),
        r.packets_sent == delta64(current.packets_sent, last.packets_sent),
        r.streams_opened == delta64(current.streams_opened, last.streams_opened),
        r.streams_closed == delta64(current.streams_closed, last.streams_closed),
        r.datagrams_received == delta64(current.datagrams_received, last.datagrams_received),
        r.datagrams_sent == delta64(current.datagrams_sent, last.datagrams_sent),
        r.errors_total == delta64(current.errors_total, last.errors_total),
        r.timeouts_total == delta64(current.timeouts_total, last.timeouts_total),
{
    MetricsDeltas {
        connections_total: current.connections_total.saturating_sub(last.connections_total),
        connections_failed: current.connections_failed.saturating_sub(last.connections_failed),
        bytes_received: current.bytes_received.saturating_sub(last.bytes_received),
        bytes_sent: current.bytes_sent.saturating_sub(last.bytes_sent),
        packets_received: current.packets_received.saturating_sub(last.packets_received),
        packets_sent: current.packets_sent.saturating_sub(last.packets_sent),
        streams_opened: current.streams_opened.saturating_sub(last.streams_opened),
        streams_closed: current.streams_closed.saturating_sub(last.streams_closed),
        datagrams_received: current.datagrams_received.saturating_sub(last.datagrams_received),
        datagrams_sent: current.datagrams_sent.saturating_sub(last.datagrams_sent),
        errors_total: current.errors_total.saturating_sub(last.errors_total),
        timeouts_total: current.timeouts_total.saturating_sub(last.timeouts_total),
    }
}

/// Every monotone counter of snapshot `a` is at or below its counterpart in
/// `b`; `connections_active` is a gauge and is not constrained.
pub open spec fn snapshot_le(a: MetricsSnapshot, b: MetricsSnapshot) -> bool {
    &&& a.connections_total <= b.connections_total
    &&& a.connections_failed <= b.connections_failed
    &&& a.bytes_received <= b.bytes_received
    &&& a.bytes_sent <= b.bytes_sent
    &&& a.packets_received <= b.packets_received
    &&& a.packets_sent <= b.packets_sent
    &&& a.streams_opened <= b.streams_opened
    &&& a.streams_closed <= b.streams_closed
    &&& a.datagrams_received <= b.datagrams_received
    &&& a.datagrams_sent <= b.datagrams_sent
    &&& a.errors_total <= b.errors_total
    &&& a.timeouts_total <= b.timeouts_total
}

/// Law: sequential snapshots never show a monotone counter going backwards.
/// Any chain of counter updates only moves the record forwards, so the
/// snapshot taken after is pointwise at or above the one taken before,
/// `connections_active` excepted.
pub proof fn lemma_snapshot_monotone(a: &Metrics, b: &Metrics)
    requires
        monotone_le(a, b),
    ensures
        snapshot_le(a.spec_snapshot(), b.spec_snapshot()),
{
}

} // verus!
