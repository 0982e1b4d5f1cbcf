//! Per-connection state.
//!
//! Time is a monotonic clock reading in milliseconds that callers pass in;
//! the state machine itself never reads a clock. Phases only move forwards:
//! `Connecting`, then `Active`, then `Draining`, then `Closed`.

use vstd::prelude::*;
use vstd::string::StringExecFns;

verus! {

/// Unique connection identifier, minted monotonically from 1 and shown as 16
/// hexadecimal digits.
#[derive(Debug, Clone, Copy, PartialEq, Eq, Hash, Structural)]
pub struct ConnectionId(pub u64);

/// The lowercase hexadecimal digit of a value below 16.
pub open spec fn hex_digit(n: int) -> char {
    if n == 0 {
        '0'
    } else if n == 1 {
        '1'
    } else if n == 2 {
        '2'
    } else if n == 3 {
        '3'
    } else if n == 4 {
        '4'
    } else if n == 5 {
        '5'
    } else if n == 6 {
        '6'
    } else if n == 7 {
        '7'
    } else if n == 8 {
        '8'
    } else if n == 9 {
        '9'
    } else if n == 10 {
        'a'
    } else if n == 11 {
        'b'
    } else if n == 12 {
        'c'
    } else if n == 13 {
        'd'
    } else if n == 14 {
        'e'
    } else {
        'f'
    }
}

/// The `i`-th nibble of `v`, most significant first.
pub open spec fn nibble_of(v: u64, i: int) -> int {
    ((v >> (((15 - i) * 4) as u64)) & 0xf) as int
}

/// The sixteen hexadecimal digits of `v`, most significant first.
pub open spec fn u64_hex(v: u64) -> Seq<char> {
    Seq::new(16, |i: int| hex_digit(nibble_of(v, i)))
}

impl ConnectionId {
    /// Wrap a raw 64-bit value.
    pub fn from_raw(id: u64) -> (r: Self)
        ensures
            r.0 == id,
    {
        ConnectionId(id)
    }

    /// The raw 64-bit value.
    pub fn as_u64(&self) -> (r: u64)
        ensures
            r == self.0,
    {
        self.0
    }

    /// The identifier as sixteen lowercase hexadecimal digits.
    pub fn hex_string(&self) -> (r: String)
        ensures
            r@ == u64_hex(self.0),
    {
        let v = self.0;
        let mut s = String::new();
        let mut i: usize = 0;
        while i < 16
            invariant
                i <= 16,
                s@ == u64_hex(v).take(i as int),
            decreases 16 - i,
        {
            let shift: u64 = (15 - i as u64) * 4;
            let nib: u64 = (v >> shift) & 0xf;
            proof {
                let sh = shift;
                assert((v >> sh) & 0xf < 16) by (bit_vector);
            }
            let digit: &str = match nib {
                0 => "0",
                1 => "1",
                2 => "2",
                3 => "3",
                4 => "4",
                5 => "5",
                6 => "6",
                7 => "7",
                8 => "8",
                9 => "9",
                10 => "a",
                11 => "b",
                12 => "c",
                13 => "d",
                14 => "e",
                _ => "f",
            };
            proof {
                reveal_strlit("0");
                reveal_strlit("1");
                reveal_strlit("2");
                reveal_strlit("3");
                reveal_strlit("4");
                reveal_strlit("5");
                reveal_strlit("6");
                reveal_strlit("7");
                reveal_strlit("8");
                reveal_strlit("9");
                reveal_strlit("a");
                reveal_strlit("b");
                reveal_strlit("c");
                reveal_strlit("d");
                reveal_strlit("e");
                reveal_strlit("f");
                assert(digit@ =~= seq![hex_digit(nib as int)]);
                assert(nib as int == nibble_of(v, i as int));
            }
            s.append(digit);
            proof {
                assert(s@ =~= u64_hex(v).take(i as int + 1));
            }
            i += 1;
        }
        proof {
            assert(u64_hex(v).take(16) =~= u64_hex(v));
        }
        s
    }
}

/// Connection lifecycle phase.
#[derive(Debug, Clone, Copy, PartialEq, Eq, Structural)]
pub enum ConnectionPhase {
    /// The connection is being established.
    Connecting,
    /// The handshake finished and the connection serves requests.
    Active,
    /// The connection drains before a graceful close.
    Draining,
    /// The connection is closed.
    Closed,
}

/// The position of a phase in the lifecycle order.
pub open spec fn phase_rank(p: ConnectionPhase) -> int {
    match p {
        ConnectionPhase::Connecting => 0,
        ConnectionPhase::Active => 1,
        ConnectionPhase::Draining => 2,
        ConnectionPhase::Closed => 3,
    }
}

/// Whether `a` comes at or before `b` in the lifecycle order.
pub open spec fn phase_le(a: ConnectionPhase, b: ConnectionPhase) -> bool {
    phase_rank(a) <= phase_rank(b)
}

/// Per-connection state record.
#[derive(Debug, Clone)]
pub struct ConnectionState {
    /// Unique identifier.
    pub id: ConnectionId,
    /// The client's socket address, as text.
    pub client_addr: String,
    /// Lifecycle phase.
    pub phase: ConnectionPhase,
    /// Monotonic clock reading at creation, in milliseconds.
    pub connected_at: u64,
    /// Monotonic clock reading of the last activity, in milliseconds.
    pub last_active: u64,
    /// Bytes received, saturating.
    pub bytes_rx: u64,
    /// Bytes sent, saturating.
    pub bytes_tx: u64,
    /// Streams open right now, saturating.
    pub active_streams: u32,
    /// UDP flows open right now, saturating.
    pub active_udp_flows: u32,
}

/// `a - b` clamped at zero, for durations of possibly stale clock readings.
pub open spec fn clamped_sub(a: u64, b: u64) -> u64 {
    if a >= b {
        (a - b) as u64
    } else {
        0u64
    }
}

impl ConnectionState {
    /// Activity never predates creation.
    pub open spec fn wf(&self) -> bool {
        self.last_active >= self.connected_at
    }

    /// A fresh record in phase `Connecting` at clock reading `now`.
    pub fn new(id: ConnectionId, client_addr: String, now: u64) -> (r: Self)
        ensures
            r.wf(),
            r.id == id,
            r.client_addr@ == client_addr@,
            r.phase == ConnectionPhase::Connecting,
            r.connected_at == now,
            r.last_active == now,
            r.bytes_rx == 0,
            r.bytes_tx == 0,
            r.active_streams == 0,
            r.active_udp_flows == 0,
    {
        ConnectionState {
            id,
            client_addr,
            phase: ConnectionPhase::Connecting,
            connected_at: now,
            last_active: now,
            bytes_rx: 0,
            bytes_tx: 0,
            active_streams: 0,
            active_udp_flows: 0,
        }
    }

    /// Record activity at clock reading `now`. A stale reading never moves
    /// the timestamp backwards.
    pub fn touch(&mut self, now: u64)
        ensures
            final(self).last_active == if now > old(self).last_active {
                now
            } else {
                old(self).last_active
            },
            *final(self) == (ConnectionState { last_active: final(self).last_active, ..*old(self) }),
            old(self).wf() ==> final(self).wf(),
    {
        if now > self.last_active {
            self.last_active = now;
        }
    }

    /// The handshake finished: enter `Active`, from `Connecting` only, and
    /// record activity. The phase never moves backwards.
    pub fn set_active(&mut self, now: u64)
        ensures
            final(self).phase == if old(self).phase == ConnectionPhase::Connecting {
                ConnectionPhase::Active
            } else {
                old(self).phase
            },
            phase_le(old(self).phase, final(self).phase),
            final(self).last_active == if now > old(self).last_active {
                now
            } else {
                old(self).last_active
            },
            *final(self) == (ConnectionState {
                phase: final(self).phase,
                last_active: final(self).last_active,
                ..*old(self)
            }),
            old(self).wf() ==> final(self).wf(),
    {
        if self.phase == ConnectionPhase::Connecting {
            self.phase = ConnectionPhase::Active;
        }
        self.touch(now);
    }

    /// Begin draining, unless the connection is already draining or closed.
    /// The phase never moves backwards.
    pub fn set_draining(&mut self)
        ensures
            final(self).phase == if phase_rank(old(self).phase) < phase_rank(
                ConnectionPhase::Draining,
            ) {
                ConnectionPhase::Draining
            } else {
                old(self).phase
            },
            phase_le(old(self).phase, final(self).phase),
            *final(self) == (ConnectionState { phase: final(self).phase, ..*old(self) }),
            old(self).wf() ==> final(self).wf(),
    {
        if self.phase == ConnectionPhase::Connecting || self.phase == ConnectionPhase::Active {
            self.phase = ConnectionPhase::Draining;
        }
    }

    /// Close the connection. `Closed` is the last phase, so this never moves
    /// the phase backwards.
    pub fn set_closed(&mut self)
        ensures
            final(self).phase == ConnectionPhase::Closed,
            phase_le(old(self).phase, final(self).phase),
            *final(self) == (ConnectionState { phase: final(self).phase, ..*old(self) }),
            old(self).wf() ==> final(self).wf(),
    {
        self.phase = ConnectionPhase::Closed;
    }

    /// Count received bytes, saturating, and record activity.
    pub fn record_rx(&mut self, bytes: u64, now: u64)
        ensures
            final(self).bytes_rx == crate::metrics::sat64(old(self).bytes_rx + bytes),
            final(self).bytes_rx >= old(self).bytes_rx,
            final(self).last_active == if now > old(self).last_active {
                now
            } else {
                old(self).last_active
            },
            *final(self) == (ConnectionState {
                bytes_rx: final(self).bytes_rx,
                last_active: final(self).last_active,
                ..*old(self)
            }),
            old(self).wf() ==> final(self).wf(),
    {
        self.bytes_rx = self.bytes_rx.saturating_add(bytes);
        self.touch(now);
    }

    /// Count sent bytes, saturating, and record activity.
    pub fn record_tx(&mut self, bytes: u64, now: u64)
        ensures
            final(self).bytes_tx == crate::metrics::sat64(old(self).bytes_tx + bytes),
            final(self).bytes_tx >= old(self).bytes_tx,
            final(self).last_active == if now > old(self).last_active {
                now
            } else {
                old(self).last_active
            },
            *final(self) == (ConnectionState {
                bytes_tx: final(self).bytes_tx,
                last_active: final(self).last_active,
                ..*old(self)
            }),
            old(self).wf() ==> final(self).wf(),
    {
        self.bytes_tx = self.bytes_tx.saturating_add(bytes);
        self.touch(now);
    }

    /// How long the connection has lived at clock reading `now`.
    pub fn duration_ms(&self, now: u64) -> (r: u64)
        ensures
            r == clamped_sub(now, self.connected_at),
    {
        now.saturating_sub(self.connected_at)
    }

    /// How long the connection has sat idle at clock reading `now`.
    pub fn idle_duration_ms(&self, now: u64) -> (r: u64)
        ensures
            r == clamped_sub(now, self.last_active),
    {
        now.saturating_sub(self.last_active)
    }

    /// Whether the connection is in phase `Active`.
    pub fn is_active(&self) -> (r: bool)
        ensures
            r == (self.phase == ConnectionPhase::Active),
    {
        self.phase == ConnectionPhase::Active
    }

    /// A stream opened on this connection; the count saturates.
    pub fn stream_opened(&mut self)
        ensures
            final(self).active_streams == if old(self).active_streams < u32::MAX {
                (old(self).active_streams + 1) as u32
            } else {
                u32::MAX
            },
            *final(self) == (ConnectionState {
                active_streams: final(self).active_streams,
                ..*old(self)
            }),
            old(self).wf() ==> final(self).wf(),
    {
        self.active_streams = self.active_streams.saturating_add(1);
    }

    /// A stream closed on this connection; the count saturates at zero.
    pub fn stream_closed(&mut self)
        ensures
            final(self).active_streams == if old(self).active_streams > 0 {
                (old(self).active_streams - 1) as u32
            } else {
                0u32
            },
            *final(self) == (ConnectionState {
                active_streams: final(self).active_streams,
                ..*old(self)
            }),
            old(self).wf() ==> final(self).wf(),
    {
        self.active_streams = self.active_streams.saturating_sub(1);
    }

    /// A UDP flow opened on this connection; the count saturates.
    pub fn udp_flow_opened(&mut self)
        ensures
            final(self).active_udp_flows == if old(self).active_udp_flows < u32::MAX {
                (old(self).active_udp_flows + 1) as u32
            } else {
                u32::MAX
            },
            *final(self) == (ConnectionState {
                active_udp_flows: final(self).active_udp_flows,
                ..*old(self)
            }),
            old(self).wf() ==> final(self).wf(),
    {
        self.active_udp_flows = self.active_udp_flows.saturating_add(1);
    }

    /// A UDP flow closed on this connection; the count saturates at zero.
    pub fn udp_flow_closed(&mut self)
        ensures
            final(self).active_udp_flows == if old(self).active_udp_flows > 0 {
                (old(self).active_udp_flows - 1) as u32
            } else {
                0u32
            },
            *final(self) == (ConnectionState {
                active_udp_flows: final(self).active_udp_flows,
                ..*old(self)
            }),
            old(self).wf() ==> final(self).wf(),
    {
        self.active_udp_flows = self.active_udp_flows.saturating_sub(1);
    }

    /// Snapshot the record into a plain report row at clock reading `now`.
    pub fn to_info(&self, now: u64) -> (r: ConnectionInfo)
        ensures
            r.id@ == u64_hex(self.id.0),
            r.client_addr@ == self.client_addr@,
            r.phase == self.phase,
            r.duration_ms == clamped_sub(now, self.connected_at),
            r.idle_ms == clamped_sub(now, self.last_active),
            r.bytes_rx == self.bytes_rx,
            r.bytes_tx == self.bytes_tx,
            r.active_streams == self.active_streams,
            r.active_udp_flows == self.active_udp_flows,
    {
        ConnectionInfo {
            id: self.id.hex_string(),
            client_addr: self.client_addr.clone(),
            phase: self.phase,
            duration_ms: self.duration_ms(now),
            idle_ms: self.idle_duration_ms(now),
            bytes_rx: self.bytes_rx,
            bytes_tx: self.bytes_tx,
            active_streams: self.active_streams,
            active_udp_flows: self.active_udp_flows,
        }
    }
}

/// A plain report row for the monitoring surface.
#[derive(Debug, Clone)]
pub struct ConnectionInfo {
    /// Connection id as sixteen hexadecimal digits.
    pub id: String,
    /// The client's socket address, as text.
    pub client_addr: String,
    /// Lifecycle phase.
    pub phase: ConnectionPhase,
    /// Milliseconds since the connection was created.
    pub duration_ms: u64,
    /// Milliseconds since the last activity.
    pub idle_ms: u64,
    /// Bytes received.
    pub bytes_rx: u64,
    /// Bytes sent.
    pub bytes_tx: u64,
    /// Streams open at snapshot time.
    pub active_streams: u32,
    /// UDP flows open at snapshot time.
    pub active_udp_flows: u32,
}

} // verus!
