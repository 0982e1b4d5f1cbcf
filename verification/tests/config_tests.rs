//! Configuration tests.

use mytunnel::client_config as client;
use mytunnel::config as server;

#[test]
fn test_defaults() {
    let quic = client::QuicConfig::default();
    assert_eq!(quic.idle_timeout_secs, 30);
    assert!(quic.enable_0rtt);
    assert_eq!(quic.max_streams, 100);
}

#[test]
fn test_server_name_extraction() {
    let config = client::ServerConfig {
        address: "example.com:443".to_string(),
        server_name: None,
        insecure: false,
    };
    assert_eq!(config.get_server_name(), "example.com");

    let config_with_name = client::ServerConfig {
        address: "example.com:443".to_string(),
        server_name: Some("custom.example.com".to_string()),
        insecure: false,
    };
    assert_eq!(config_with_name.get_server_name(), "custom.example.com");
}

#[test]
fn test_server_name_without_port() {
    let config = client::ServerConfig {
        address: "plainhost".to_string(),
        server_name: None,
        insecure: false,
    };
    assert_eq!(config.get_server_name(), "plainhost");
}

#[test]
fn test_default_workers() {
    let config = server::ServerConfig {
        bind_addr: "0.0.0.0:443".to_string(),
        workers: 0,
    };
    assert!(config.effective_workers() > 0);

    let fixed = server::ServerConfig {
        bind_addr: "0.0.0.0:443".to_string(),
        workers: 7,
    };
    assert_eq!(fixed.effective_workers(), 7);
}

fn valid_server_config() -> server::Config {
    server::Config {
        server: server::ServerConfig { bind_addr: "0.0.0.0:443".to_string(), workers: 0 },
        quic: server::QuicConfig {
            max_connections: server::default_max_connections(),
            max_streams_per_conn: server::default_max_streams(),
            idle_timeout_secs: server::default_idle_timeout(),
            max_udp_payload: server::default_max_udp_payload(),
            enable_0rtt: server::default_true(),
            congestion_control: server::default_congestion_control(),
        },
        tls: server::TlsConfig {
            cert_path: "cert.pem".to_string(),
            key_path: "key.pem".to_string(),
            auto_generate: true,
        },
        pool: server::PoolConfig {
            buffer_count_4k: server::default_buffer_count_4k(),
            buffer_count_16k: server::default_buffer_count_16k(),
            buffer_count_64k: server::default_buffer_count_64k(),
            connection_slots: server::default_connection_slots(),
        },
        metrics: server::MetricsConfig { enabled: false, bind_addr: server::default_metrics_addr() },
        logging: server::LoggingConfig {
            level: server::default_log_level(),
            format: server::default_log_format(),
        },
        limits: server::LimitsConfig::default(),
    }
}

#[test]
fn test_server_config_validate() {
    assert!(valid_server_config().validate().is_ok());

    let mut bad = valid_server_config();
    bad.quic.max_connections = 0;
    assert_eq!(bad.validate(), Err(server::ConfigError::MaxConnectionsZero));

    let mut bad = valid_server_config();
    bad.quic.max_streams_per_conn = 0;
    assert_eq!(bad.validate(), Err(server::ConfigError::MaxStreamsZero));

    let mut bad = valid_server_config();
    bad.quic.idle_timeout_secs = 0;
    assert_eq!(bad.validate(), Err(server::ConfigError::IdleTimeoutZero));

    let mut bad = valid_server_config();
    bad.pool.connection_slots = 0;
    assert_eq!(bad.validate(), Err(server::ConfigError::ConnectionSlotsZero));
}

#[test]
fn test_client_config_validate() {
    let good = client::Config {
        server: client::ServerConfig {
            address: "example.com:443".to_string(),
            server_name: None,
            insecure: false,
        },
        proxy: client::ProxyConfig {
            socks5_bind: client::default_socks5_bind(),
            http_bind: client::default_http_bind(),
            socks5_enabled: client::default_true(),
            http_enabled: client::default_true(),
        },
        quic: client::QuicConfig::default(),
        logging: client::LoggingConfig::default(),
    };
    assert!(good.validate().is_ok());

    let mut bad = good.clone();
    bad.server.address = String::new();
    assert_eq!(bad.validate(), Err(client::ClientConfigError::AddressEmpty));

    let mut bad = good.clone();
    bad.quic.idle_timeout_secs = 0;
    assert_eq!(bad.validate(), Err(client::ClientConfigError::IdleTimeoutZero));

    let mut bad = good;
    bad.quic.max_streams = 0;
    assert_eq!(bad.validate(), Err(client::ClientConfigError::MaxStreamsZero));
}

#[test]
fn test_default_values() {
    assert_eq!(server::default_max_connections(), 100_000);
    assert_eq!(server::default_max_udp_payload(), 1350);
    assert_eq!(server::default_congestion_control(), "bbr");
    assert_eq!(server::default_metrics_addr(), "127.0.0.1:9090");
    assert_eq!(server::default_log_format(), "json");
    assert_eq!(server::default_max_new_conn(), 10_000);
    assert_eq!(client::default_socks5_bind(), "127.0.0.1:1080");
    assert_eq!(client::default_http_bind(), "127.0.0.1:8080");
    assert_eq!(client::default_log_format(), "pretty");
    assert_eq!(client::default_log_level(), "info");
}
