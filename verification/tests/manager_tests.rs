//! Connection manager tests.

use mytunnel::manager::{ConnectionManager, ConnectionManagerConfig};
use mytunnel::metrics::Metrics;
use mytunnel::state::ConnectionPhase;

fn manager(max_connections: usize, idle_timeout_ms: u64) -> ConnectionManager {
    ConnectionManager::new(ConnectionManagerConfig { max_connections, idle_timeout_ms })
}

#[test]
fn test_connection_lifecycle() {
    let mut m = manager(100, 30_000);
    let mut metrics = Metrics::new();

    let id = m
        .register("127.0.0.1:12345".to_string(), 1_000, &mut metrics)
        .unwrap();

    assert_eq!(m.connection_count(), 1);

    m.activate(id, 1_005);
    {
        let state = m.get(id).unwrap();
        assert!(state.is_active());
    }

    m.unregister(id, &mut metrics);
    assert_eq!(m.connection_count(), 0);
}

#[test]
fn test_ids_strictly_increasing() {
    let mut m = manager(8, 30_000);
    let mut metrics = Metrics::new();
    let mut last = 0u64;
    for i in 0..5u64 {
        let id = m
            .register(format!("10.0.0.{}:1000", i), i, &mut metrics)
            .unwrap();
        assert!(id.as_u64() > last);
        last = id.as_u64();
    }
    // ids keep growing even across an unregister
    let id = m.register("10.0.0.9:9".to_string(), 9, &mut metrics).unwrap();
    assert!(id.as_u64() > last);
}

#[test]
fn test_register_unregister_balance() {
    let mut m = manager(4, 30_000);
    let mut metrics = Metrics::new();
    let before = m.connection_count();
    let id = m.register("192.0.2.1:5".to_string(), 0, &mut metrics).unwrap();
    m.unregister(id, &mut metrics);
    assert_eq!(m.connection_count(), before);
    assert_eq!(metrics.snapshot().connections_active, 0);
    assert_eq!(metrics.snapshot().connections_total, 1);
}

#[test]
fn test_capacity_rejects_fifth() {
    // four slots: the fifth simultaneous connection is refused
    let mut m = manager(4, 30_000);
    let mut metrics = Metrics::new();
    for i in 0..4 {
        assert!(m
            .register(format!("198.51.100.{}:1", i), 0, &mut metrics)
            .is_some());
    }
    assert!(m.is_full());
    let refused = m.register("198.51.100.9:1".to_string(), 0, &mut metrics);
    assert!(refused.is_none());
    assert_eq!(m.connection_count(), 4);
    // the caller counts the refused handshake as failed
    metrics.connection_failed();
    assert_eq!(metrics.snapshot().connections_failed, 1);
}

#[test]
fn test_record_traffic() {
    let mut m = manager(4, 30_000);
    let mut metrics = Metrics::new();
    let id = m.register("203.0.113.7:9".to_string(), 100, &mut metrics).unwrap();
    m.record_traffic(id, 500, 700, 2_000, &mut metrics);
    {
        let st = m.get(id).unwrap();
        assert_eq!(st.bytes_rx, 500);
        assert_eq!(st.bytes_tx, 700);
        assert_eq!(st.last_active, 2_000);
    }
    let snap = metrics.snapshot();
    assert_eq!(snap.bytes_received, 500);
    assert_eq!(snap.bytes_sent, 700);
    assert_eq!(snap.packets_received, 1);
    assert_eq!(snap.packets_sent, 1);
}

#[test]
fn test_cleanup_idle_removes_stale() {
    let mut m = manager(8, 1_000);
    let mut metrics = Metrics::new();
    let quiet = m.register("10.1.1.1:1".to_string(), 0, &mut metrics).unwrap();
    let busy = m.register("10.1.1.2:2".to_string(), 0, &mut metrics).unwrap();
    m.record_traffic(busy, 1, 0, 5_000, &mut metrics);

    // at 5_500 the quiet connection has idled 5_500 ms > 1_000 ms
    let cleaned = m.cleanup_idle(5_500, &mut metrics);
    assert_eq!(cleaned, 1);
    assert!(m.get(quiet).is_none());
    assert!(m.get(busy).is_some());
    assert_eq!(m.connection_count(), 1);
}

#[test]
fn test_mark_all_draining() {
    let mut m = manager(8, 30_000);
    let mut metrics = Metrics::new();
    let a = m.register("10.2.2.1:1".to_string(), 0, &mut metrics).unwrap();
    let b = m.register("10.2.2.2:2".to_string(), 0, &mut metrics).unwrap();
    m.activate(b, 1);

    m.mark_all_draining();
    assert_eq!(m.get(a).unwrap().phase, ConnectionPhase::Draining);
    assert_eq!(m.get(b).unwrap().phase, ConnectionPhase::Draining);

    // a cooperative drain then unregisters everything; the count reaches zero
    m.unregister(a, &mut metrics);
    m.unregister(b, &mut metrics);
    assert_eq!(m.connection_count(), 0);
}

#[test]
fn test_list_connections() {
    let mut m = manager(8, 30_000);
    let mut metrics = Metrics::new();
    let a = m.register("10.3.3.1:1".to_string(), 0, &mut metrics).unwrap();
    let _b = m.register("10.3.3.2:2".to_string(), 0, &mut metrics).unwrap();
    m.record_traffic(a, 42, 0, 500, &mut metrics);

    let rows = m.list_connections(1_000);
    assert_eq!(rows.len(), 2);
    let row_a = rows
        .iter()
        .find(|r| r.client_addr == "10.3.3.1:1")
        .unwrap();
    assert_eq!(row_a.bytes_rx, 42);
    assert_eq!(row_a.idle_ms, 500);
    assert_eq!(row_a.duration_ms, 1_000);
}

#[test]
fn test_unknown_id_changes_nothing() {
    let mut m = manager(4, 30_000);
    let mut metrics = Metrics::new();
    let id = m.register("10.4.4.1:1".to_string(), 0, &mut metrics).unwrap();
    m.unregister(id, &mut metrics);
    // a second unregister of the same id is a no-op
    m.unregister(id, &mut metrics);
    assert_eq!(m.connection_count(), 0);
    assert_eq!(metrics.snapshot().connections_active, 0);
    assert!(m.get(id).is_none());
}
