//! Routing policy and dispatcher tests.

use mytunnel::dispatcher::{
    decide_datagram_relay, decide_stream_request, dispatch_connection_event, ConnAction,
    ConnEvent, DatagramAction, Request, RequestRouter, RequestType, StreamAction,
};
use mytunnel::metrics::Metrics;
use mytunnel::policy::{DenyReason, RouteDecision, RoutingPolicy};
use mytunnel::protocol::{TcpRequest, STATUS_ERROR};

fn make_request(host: &str, port: u16) -> Request {
    Request {
        request_type: RequestType::TcpConnect,
        target_host: host.to_string(),
        target_port: port,
        source_addr: "127.0.0.1:12345".to_string(),
    }
}

#[test]
fn test_default_allow() {
    let policy = RoutingPolicy::default();
    let request = make_request("example.com", 443);

    assert!(matches!(policy.decide(&request), RouteDecision::Allow { .. }));
}

#[test]
fn test_blocked_host() {
    let policy = RoutingPolicy {
        blocked_hosts: vec!["blocked.com".to_string()],
        ..Default::default()
    };

    let request = make_request("blocked.com", 443);
    assert!(matches!(policy.decide(&request), RouteDecision::Deny { .. }));

    let request = make_request("allowed.com", 443);
    assert!(matches!(policy.decide(&request), RouteDecision::Allow { .. }));
}

#[test]
fn test_blocked_port() {
    let policy = RoutingPolicy {
        blocked_ports: vec![25],
        ..Default::default()
    };

    let request = make_request("example.com", 25);
    assert!(matches!(policy.decide(&request), RouteDecision::Deny { .. }));

    let request = make_request("example.com", 443);
    assert!(matches!(policy.decide(&request), RouteDecision::Allow { .. }));
}

#[test]
fn test_basic_routing() {
    let router = RequestRouter::new();

    let request = Request {
        request_type: RequestType::TcpConnect,
        target_host: "example.com".to_string(),
        target_port: 443,
        source_addr: "127.0.0.1:12345".to_string(),
    };

    assert!(router.is_allowed(&request));
}

#[test]
fn test_decide_is_pure() {
    // identical input gives the identical decision, call after call
    let policy = RoutingPolicy {
        blocked_hosts: vec!["blocked.test".to_string()],
        blocked_ports: vec![25],
        ..Default::default()
    };
    let request = make_request("blocked.test", 443);
    for _ in 0..3 {
        match policy.decide(&request) {
            RouteDecision::Deny { reason } => assert_eq!(reason, DenyReason::HostBlocked),
            _ => panic!("expected a denial"),
        }
    }
}

#[test]
fn test_rule_order_and_reasons() {
    let policy = RoutingPolicy {
        default_allow: false,
        blocked_hosts: vec!["bad.test".to_string()],
        blocked_ports: vec![25],
        allowed_ports: vec![443],
    };
    // the blocked host is checked before the blocked port
    match policy.decide(&make_request("bad.test", 25)) {
        RouteDecision::Deny { reason } => assert_eq!(reason, DenyReason::HostBlocked),
        _ => panic!("expected a denial"),
    }
    match policy.decide(&make_request("ok.test", 25)) {
        RouteDecision::Deny { reason } => assert_eq!(reason, DenyReason::PortBlocked),
        _ => panic!("expected a denial"),
    }
    match policy.decide(&make_request("ok.test", 80)) {
        RouteDecision::Deny { reason } => assert_eq!(reason, DenyReason::PortNotAllowed),
        _ => panic!("expected a denial"),
    }
    // on the whitelist, but the default still denies
    let strict = RoutingPolicy {
        default_allow: false,
        blocked_hosts: vec![],
        blocked_ports: vec![],
        allowed_ports: vec![],
    };
    match strict.decide(&make_request("ok.test", 443)) {
        RouteDecision::Deny { reason } => {
            assert_eq!(reason, DenyReason::DefaultDeny);
            assert_eq!(reason.message(), "Default deny policy");
        },
        _ => panic!("expected a denial"),
    }
}

#[test]
fn test_policy_deny_blocks_dial() {
    // a CONNECT to a blocked host is rejected before any dial
    let policy = RoutingPolicy {
        blocked_hosts: vec!["blocked.test".to_string()],
        ..Default::default()
    };
    let req = TcpRequest { req_type: 0x01, host: b"blocked.test".to_vec(), port: 443 };
    match decide_stream_request(&policy, req) {
        StreamAction::Reject { status } => assert_eq!(status, STATUS_ERROR),
        _ => panic!("expected a rejection"),
    }
}

#[test]
fn test_stream_request_actions() {
    let policy = RoutingPolicy::default();

    let dial = TcpRequest { req_type: 0x01, host: b"example.com".to_vec(), port: 80 };
    match decide_stream_request(&policy, dial) {
        StreamAction::Dial { host, port } => {
            assert_eq!(host, "example.com");
            assert_eq!(port, 80);
        },
        _ => panic!("expected a dial"),
    }

    let unknown = TcpRequest { req_type: 0x02, host: b"example.com".to_vec(), port: 80 };
    match decide_stream_request(&policy, unknown) {
        StreamAction::Reject { status } => assert_eq!(status, STATUS_ERROR),
        _ => panic!("expected a rejection"),
    }

    // a host that is not UTF-8 ends the stream unanswered
    let garbled = TcpRequest { req_type: 0x01, host: vec![0xff, 0xfe], port: 80 };
    assert!(matches!(
        decide_stream_request(&policy, garbled),
        StreamAction::Drop
    ));
}

#[test]
fn test_datagram_relay_decision() {
    // a readable host relays with the payload untouched
    let data = mytunnel::protocol::encode_udp_packet("dns.google", 53, &[0x12, 0x34, 1, 0]).unwrap();
    let packet = mytunnel::protocol::decode_udp_packet(&data).unwrap();
    match decide_datagram_relay(packet) {
        DatagramAction::Relay { host, port, payload } => {
            assert_eq!(host, "dns.google");
            assert_eq!(port, 53);
            // the transaction id and flags pass through unmodified
            assert_eq!(payload, vec![0x12, 0x34, 1, 0]);
        },
        DatagramAction::Drop => panic!("expected a relay"),
    }

    // a well-framed datagram whose host is not UTF-8 is a parse failure
    let garbled = mytunnel::protocol::decode_udp_packet(&[0, 53, 2, 0xff, 0xfe, 9]).unwrap();
    assert!(matches!(decide_datagram_relay(garbled), DatagramAction::Drop));
}

#[test]
fn test_dispatch_connection_events() {
    let mut metrics = Metrics::new();
    assert_eq!(
        dispatch_connection_event(ConnEvent::StreamAccepted, &mut metrics),
        ConnAction::SpawnStreamHandler
    );
    assert_eq!(metrics.snapshot().streams_opened, 1);

    assert_eq!(
        dispatch_connection_event(ConnEvent::DatagramReceived, &mut metrics),
        ConnAction::SpawnDatagramHandler
    );
    assert_eq!(metrics.snapshot().datagrams_received, 1);

    assert_eq!(
        dispatch_connection_event(
            ConnEvent::DatagramFailed { app_closed: false },
            &mut metrics
        ),
        ConnAction::ContinueListening
    );
    assert_eq!(
        dispatch_connection_event(
            ConnEvent::DatagramFailed { app_closed: true },
            &mut metrics
        ),
        ConnAction::ExitLoop
    );
    assert_eq!(
        dispatch_connection_event(
            ConnEvent::StreamAcceptFailed { app_closed: true },
            &mut metrics
        ),
        ConnAction::ExitLoop
    );
    assert_eq!(
        dispatch_connection_event(ConnEvent::ShutdownSignal, &mut metrics),
        ConnAction::CloseConnection { close_code: 0 }
    );
    // only the stream and datagram counters moved
    let snap = metrics.snapshot();
    assert_eq!(snap.streams_opened, 1);
    assert_eq!(snap.datagrams_received, 1);
    assert_eq!(snap.errors_total, 0);
}
