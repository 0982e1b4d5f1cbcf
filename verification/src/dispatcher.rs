//! Request dispatching.
//!
//! The pure decisions of the per-connection loop: what to do with each event
//! the loop selects on, and what to do with a parsed tunnel request before
//! any dial. The loop itself, the spawning and the dialing are scheduling
//! and I/O and live with the caller.

use vstd::prelude::*;

use crate::metrics::{sat64, Metrics};
use crate::policy::{spec_decide, RouteDecision, RoutingPolicy};
use crate::protocol::{TcpRequest, UdpPacket, STATUS_ERROR, TCP_CONNECT};
use vstd::utf8::{decode_utf8, valid_utf8};

verus! {

/// Request types.
#[derive(Debug, Clone, Copy, PartialEq, Eq, Structural)]
pub enum RequestType {
    /// TCP connection request.
    TcpConnect,
    /// UDP datagram relay.
    UdpRelay,
    /// DNS query.
    DnsQuery,
}

/// A request to be routed.
#[derive(Debug)]
pub struct Request {
    /// The type of request.
    pub request_type: RequestType,
    /// The target host.
    pub target_host: String,
    /// The target port.
    pub target_port: u16,
    /// The requesting client's socket address, as text.
    pub source_addr: String,
}

/// Routes requests based on a policy.
pub struct RequestRouter {
    policy: RoutingPolicy,
}

impl RequestRouter {
    /// The policy the router consults.
    pub closed spec fn spec_policy(&self) -> RoutingPolicy {
        self.policy
    }

    /// A router with the default allow-everything policy.
    pub fn new() -> (r: Self)
        ensures
            r.spec_policy().default_allow == true,
            r.spec_policy().blocked_hosts@.len() == 0,
            r.spec_policy().blocked_ports@.len() == 0,
            r.spec_policy().allowed_ports@.len() == 0,
    {
        RequestRouter { policy: RoutingPolicy::default() }
    }

    /// A router with the given policy.
    pub fn with_policy(policy: RoutingPolicy) -> (r: Self)
        ensures
            r.spec_policy() == policy,
    {
        RequestRouter { policy }
    }

    /// Route a request through the policy.
    pub fn route(&self, request: &Request) -> (r: RouteDecision)
        ensures
            r == spec_decide(&self.spec_policy(), request.target_host@, request.target_port),
    {
        self.policy.decide(request)
    }

    /// Whether the policy lets the request proceed.
    pub fn is_allowed(&self, request: &Request) -> (r: bool)
        ensures
            r == (spec_decide(&self.spec_policy(), request.target_host@, request.target_port)
                is Allow),
    {
        match self.route(request) {
            RouteDecision::Allow { .. } => true,
            _ => false,
        }
    }
}

impl Default for RequestRouter {
    /// A router with the default allow-everything policy.
    fn default() -> (r: Self)
        ensures
            r.spec_policy().default_allow == true,
            r.spec_policy().blocked_hosts@.len() == 0,
            r.spec_policy().blocked_ports@.len() == 0,
            r.spec_policy().allowed_ports@.len() == 0,
    {
        RequestRouter::new()
    }
}

/// One event the per-connection loop can wake up on.
#[derive(Debug, Clone, Copy, PartialEq, Eq, Structural)]
pub enum ConnEvent {
    /// A bidirectional stream arrived.
    StreamAccepted,
    /// Accepting a stream failed; `app_closed` says whether the peer closed
    /// the connection at application level.
    StreamAcceptFailed {
        /// The peer closed the connection at application level.
        app_closed: bool,
    },
    /// A datagram arrived.
    DatagramReceived,
    /// Reading a datagram failed; `app_closed` says whether the peer closed
    /// the connection at application level.
    DatagramFailed {
        /// The peer closed the connection at application level.
        app_closed: bool,
    },
    /// The shutdown broadcast fired.
    ShutdownSignal,
}

/// What the per-connection loop does next.
#[derive(Debug, Clone, Copy, PartialEq, Eq, Structural)]
pub enum ConnAction {
    /// Hand the stream to a stream handler task and keep listening.
    SpawnStreamHandler,
    /// Hand the datagram to a datagram handler task and keep listening.
    SpawnDatagramHandler,
    /// Ignore the event and keep listening.
    ContinueListening,
    /// Close the connection with this transport code and leave the loop.
    CloseConnection {
        /// The transport close code to send.
        close_code: u32,
    },
    /// Leave the loop without closing explicitly.
    ExitLoop,
}

/// The action each loop event calls for: streams spawn handlers, stream
/// accept errors end the loop, datagram read errors are tolerated unless the
/// peer closed, and the shutdown signal closes with code 0.
pub open spec fn spec_dispatch(event: ConnEvent) -> ConnAction {
    match event {
        ConnEvent::StreamAccepted => ConnAction::SpawnStreamHandler,
        ConnEvent::StreamAcceptFailed { .. } => ConnAction::ExitLoop,
        ConnEvent::DatagramReceived => ConnAction::SpawnDatagramHandler,
        ConnEvent::DatagramFailed { app_closed } => if app_closed {
            ConnAction::ExitLoop
        } else {
            ConnAction::ContinueListening
        },
        ConnEvent::ShutdownSignal => ConnAction::CloseConnection { close_code: 0 },
    }
}

/// Decide what the per-connection loop does with one event, and count it:
/// an accepted stream counts one stream opened, an arrived datagram one
/// datagram received. Failures at stream or datagram scope never touch
/// other counters here; connection-scope accounting is the caller's.
pub fn dispatch_connection_event(event: ConnEvent, metrics: &mut Metrics) -> (r: ConnAction)
    ensures
        r == spec_dispatch(event),
        final(metrics).streams_opened == (if event == ConnEvent::StreamAccepted {
            sat64(old(metrics).streams_opened + 1)
        } else {
            old(metrics).streams_opened
        }),
        final(metrics).datagrams_received == (if event == ConnEvent::DatagramReceived {
            sat64(old(metrics).datagrams_received + 1)
        } else {
            old(metrics).datagrams_received
        }),
        *final(metrics) == (Metrics {
            streams_opened: final(metrics).streams_opened,
            datagrams_received: final(metrics).datagrams_received,
            ..*old(metrics)
        }),
{
    match event {
        ConnEvent::StreamAccepted => {
            metrics.stream_opened();
            ConnAction::SpawnStreamHandler
        },
        ConnEvent::StreamAcceptFailed { .. } => ConnAction::ExitLoop,
        ConnEvent::DatagramReceived => {
            metrics.datagram_rx();
            ConnAction::SpawnDatagramHandler
        },
        ConnEvent::DatagramFailed { app_closed } => {
            if app_closed {
                ConnAction::ExitLoop
            } else {
                ConnAction::ContinueListening
            }
        },
        ConnEvent::ShutdownSignal => ConnAction::CloseConnection { close_code: 0 },
    }
}

/// What the stream handler does with one parsed tunnel request.
#[derive(Debug)]
pub enum StreamAction {
    /// Dial this target and pump bytes both ways once connected.
    Dial {
        /// The target host name.
        host: String,
        /// The target port.
        port: u16,
    },
    /// Answer with this status byte and end the stream.
    Reject {
        /// The status byte to write back.
        status: u8,
    },
    /// End the stream without an answer; the request was not readable.
    Drop,
}

/// Relies on `String::from_utf8`: succeeds exactly on valid UTF-8 and keeps
/// the decoded text.
#[verifier::external_body]
fn string_from_utf8(v: Vec<u8>) -> (r: Option<String>)
    ensures
        match r {
            Some(s) => valid_utf8(v@) && s@ == decode_utf8(v@),
            None => !valid_utf8(v@),
        },
{
    String::from_utf8(v).ok()
}

/// What the datagram handler does with one decoded relay datagram.
#[derive(Debug)]
pub enum DatagramAction {
    /// Relay the payload to this target and send any response back.
    Relay {
        /// The target host name.
        host: String,
        /// The target port.
        port: u16,
        /// The payload to relay.
        payload: Vec<u8>,
    },
    /// The datagram is not readable; drop it silently.
    Drop,
}

/// Decide what to do with a decoded relay datagram: a host that is not
/// UTF-8 makes the datagram a parse failure, silently dropped; any other
/// datagram is relayed to its decoded host and port with its payload
/// untouched.
pub fn decide_datagram_relay(packet: UdpPacket) -> (r: DatagramAction)
    ensures
        match r {
            DatagramAction::Relay { host, port, payload } => valid_utf8(packet.host@) && host@
                == decode_utf8(packet.host@) && port == packet.port && payload@
                == packet.payload@,
            DatagramAction::Drop => !valid_utf8(packet.host@),
        },
{
    match string_from_utf8(packet.host) {
        Some(host) => DatagramAction::Relay { host, port: packet.port, payload: packet.payload },
        None => DatagramAction::Drop,
    }
}

/// Decide what to do with a parsed tunnel request before any dial: unknown
/// request types are rejected with the error status, a host that is not
/// UTF-8 ends the stream unanswered, a policy denial is rejected with the
/// error status, and an allowed request dials the decoded host.
pub fn decide_stream_request(policy: &RoutingPolicy, request: TcpRequest) -> (r: StreamAction)
    ensures
        match r {
            StreamAction::Dial { host, port } => request.req_type == TCP_CONNECT && valid_utf8(
                request.host@,
            ) && host@ == decode_utf8(request.host@) && port == request.port && spec_decide(
                policy,
                decode_utf8(request.host@),
                request.port,
            ) is Allow,
            StreamAction::Reject { status } => status == STATUS_ERROR && (request.req_type
                != TCP_CONNECT || (valid_utf8(request.host@) && !(spec_decide(
                policy,
                decode_utf8(request.host@),
                request.port,
            ) is Allow))),
            StreamAction::Drop => request.req_type == TCP_CONNECT && !valid_utf8(request.host@),
        },
{
    if request.req_type != TCP_CONNECT {
        return StreamAction::Reject { status: STATUS_ERROR };
    }
    let port = request.port;
    match string_from_utf8(request.host) {
        None => StreamAction::Drop,
        Some(host) => {
            match policy.decide_host_port(&host, port) {
                RouteDecision::Allow { .. } => StreamAction::Dial { host, port },
                _ => StreamAction::Reject { status: STATUS_ERROR },
            }
        },
    }
}

} // verus!
