//! Metrics and connection state tests.

use mytunnel::api::{route_api_path, ApiRoute};
use mytunnel::pending::{PendingRequests, PENDING_TTL_MS};
use mytunnel::metrics::{snapshot_deltas, Metrics};
use mytunnel::state::{ConnectionId, ConnectionPhase, ConnectionState};
use mytunnel::udp_pool::{SocketUse, UdpSocketPool, SOCKET_TTL_MS};

#[test]
fn test_snapshot_monotone() {
    // sequential snapshots never show a monotone counter going backwards
    let mut m = Metrics::new();
    let s0 = m.snapshot();
    m.connection_opened();
    m.bytes_rx(100);
    m.bytes_tx(50);
    m.stream_opened();
    m.datagram_rx();
    m.error();
    m.timeout();
    let s1 = m.snapshot();
    assert!(s0.connections_total <= s1.connections_total);
    assert!(s0.bytes_received <= s1.bytes_received);
    assert!(s0.bytes_sent <= s1.bytes_sent);
    assert!(s0.streams_opened <= s1.streams_opened);
    assert!(s0.datagrams_received <= s1.datagrams_received);
    assert!(s0.errors_total <= s1.errors_total);
    assert!(s0.timeouts_total <= s1.timeouts_total);

    // the active gauge may go down on close; everything else stays put
    m.connection_closed();
    let s2 = m.snapshot();
    assert_eq!(s2.connections_active, 0);
    assert!(s1.connections_total <= s2.connections_total);
}

#[test]
fn test_counter_saturation() {
    let mut m = Metrics::new();
    m.connection_closed();
    assert_eq!(m.snapshot().connections_active, 0);
    m.bytes_rx(u64::MAX);
    m.bytes_rx(5);
    assert_eq!(m.snapshot().bytes_received, u64::MAX);
}

#[test]
fn test_snapshot_deltas() {
    let mut m = Metrics::new();
    m.bytes_rx(100);
    let last = m.snapshot();
    m.bytes_rx(40);
    m.stream_opened();
    let current = m.snapshot();
    let d = snapshot_deltas(&last, &current);
    assert_eq!(d.bytes_received, 40);
    assert_eq!(d.packets_received, 1);
    assert_eq!(d.streams_opened, 1);
    assert_eq!(d.bytes_sent, 0);
}

#[test]
fn test_connection_id_hex() {
    assert_eq!(ConnectionId::from_raw(0).hex_string(), "0000000000000000");
    assert_eq!(ConnectionId::from_raw(1).hex_string(), "0000000000000001");
    assert_eq!(
        ConnectionId::from_raw(0x0123_4567_89ab_cdef).hex_string(),
        "0123456789abcdef"
    );
    assert_eq!(ConnectionId::from_raw(u64::MAX).hex_string(), "ffffffffffffffff");
    assert_eq!(ConnectionId::from_raw(7).as_u64(), 7);
}

#[test]
fn test_phase_transitions_forward_only() {
    let mut st = ConnectionState::new(ConnectionId::from_raw(1), "10.0.0.1:1".to_string(), 100);
    assert_eq!(st.phase, ConnectionPhase::Connecting);
    st.set_active(150);
    assert_eq!(st.phase, ConnectionPhase::Active);
    assert_eq!(st.last_active, 150);
    st.set_draining();
    assert_eq!(st.phase, ConnectionPhase::Draining);
    // activation after draining never moves the phase backwards
    st.set_active(200);
    assert_eq!(st.phase, ConnectionPhase::Draining);
    st.set_closed();
    assert_eq!(st.phase, ConnectionPhase::Closed);
}

#[test]
fn test_state_counters_and_touch() {
    let mut st = ConnectionState::new(ConnectionId::from_raw(2), "10.0.0.2:2".to_string(), 100);
    st.record_rx(10, 200);
    st.record_tx(20, 300);
    assert_eq!(st.bytes_rx, 10);
    assert_eq!(st.bytes_tx, 20);
    assert_eq!(st.last_active, 300);
    // a stale clock reading never moves activity backwards
    st.touch(250);
    assert_eq!(st.last_active, 300);
    assert_eq!(st.idle_duration_ms(450), 150);
    assert_eq!(st.duration_ms(450), 350);

    st.stream_opened();
    st.stream_opened();
    st.stream_closed();
    assert_eq!(st.active_streams, 1);
    st.udp_flow_opened();
    st.udp_flow_closed();
    st.udp_flow_closed();
    assert_eq!(st.active_udp_flows, 0);

    let info = st.to_info(450);
    assert_eq!(info.id, "0000000000000002");
    assert_eq!(info.client_addr, "10.0.0.2:2");
    assert_eq!(info.phase, ConnectionPhase::Connecting);
    assert_eq!(info.bytes_rx, 10);
}

#[test]
fn test_socket_pool_reuse_and_expiry() {
    let mut pool = UdpSocketPool::new();
    let target = "8.8.8.8:53".to_string();

    assert_eq!(pool.get_or_create(&target, 0), SocketUse::CreateNew);
    // warm within the TTL
    assert_eq!(pool.get_or_create(&target, SOCKET_TTL_MS - 1), SocketUse::Reuse);
    // gone cold: one full TTL after the refresh above
    assert_eq!(
        pool.get_or_create(&target, 2 * SOCKET_TTL_MS),
        SocketUse::CreateNew
    );
    assert_eq!(pool.len(), 1);
}

#[test]
fn test_socket_pool_eviction() {
    let mut pool = UdpSocketPool::new();
    let a = "192.0.2.1:53".to_string();
    let b = "192.0.2.2:53".to_string();
    pool.get_or_create(&a, 0);
    pool.get_or_create(&b, 1_000);
    assert_eq!(pool.len(), 2);

    // much later, touching a third target sweeps both stale entries
    let c = "192.0.2.3:53".to_string();
    pool.get_or_create(&c, 10 * SOCKET_TTL_MS);
    assert_eq!(pool.len(), 1);
    assert!(pool.contains(&c));
    assert!(!pool.contains(&a));
    assert!(!pool.contains(&b));
    // the swept target binds anew
    assert_eq!(
        pool.get_or_create(&a, 10 * SOCKET_TTL_MS + 1),
        SocketUse::CreateNew
    );
}

#[test]
fn test_api_routing() {
    assert_eq!(route_api_path("/connections"), ApiRoute::Connections);
    assert_eq!(route_api_path("/stats"), ApiRoute::Stats);
    assert_eq!(route_api_path("/"), ApiRoute::Help);
    assert_eq!(route_api_path("/nope"), ApiRoute::NotFound);
    assert_eq!(route_api_path(""), ApiRoute::NotFound);
}

#[test]
fn test_pending_requests() {
    let mut pending = PendingRequests::new();
    let host = "example.com".to_string();
    pending.remember(&host, 53, "127.0.0.1:40000".to_string(), 0);
    assert_eq!(pending.lookup(&host, 53).unwrap(), "127.0.0.1:40000");
    // a different port is a different target
    assert!(pending.lookup(&host, 54).is_none());

    // asking again moves the entry to the newer client
    pending.remember(&host, 53, "127.0.0.1:40001".to_string(), 10);
    assert_eq!(pending.lookup(&host, 53).unwrap(), "127.0.0.1:40001");
    assert_eq!(pending.len(), 1);

    // an unanswered entry past the retention window is dropped by the next
    // insertion
    let other = "other.test".to_string();
    pending.remember(&other, 1, "127.0.0.1:40002".to_string(), 10 + PENDING_TTL_MS);
    assert!(pending.lookup(&host, 53).is_none());
    assert_eq!(pending.lookup(&other, 1).unwrap(), "127.0.0.1:40002");
    assert_eq!(pending.len(), 1);
}
