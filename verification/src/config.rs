//! Server configuration.
//!
//! The plain, validated shape of the server's settings. Reading and parsing
//! the TOML file is a collaborator's job; this module owns the defaults and
//! the validation rules.

use vstd::prelude::*;

use vstd::string::{StringExecFns, StringSliceAdditionalSpecFns};

verus! {

/// Root configuration.
#[derive(Debug, Clone)]
pub struct Config {
    /// Listener settings.
    pub server: ServerConfig,
    /// QUIC transport settings.
    pub quic: QuicConfig,
    /// TLS certificate settings.
    pub tls: TlsConfig,
    /// Buffer pool and slab sizing.
    pub pool: PoolConfig,
    /// Metrics endpoint settings.
    pub metrics: MetricsConfig,
    /// Logging settings.
    pub logging: LoggingConfig,
    /// Resource limits.
    pub limits: LimitsConfig,
}

/// Listener settings.
#[derive(Debug, Clone)]
pub struct ServerConfig {
    /// The address the QUIC listener binds, as text.
    pub bind_addr: String,
    /// Worker thread count; 0 means one per CPU.
    pub workers: usize,
}

/// Relies on `num_cpus::get`: the number of available logical CPUs, which
/// its documentation promises is always at least one. The value depends on
/// the machine, so nothing more is stated of it.
#[verifier::external_body]
fn num_cpus_get() -> (r: usize)
    ensures
        r >= 1,
{
    num_cpus::get()
}

impl ServerConfig {
    /// The worker count to run with: the configured count, or one worker
    /// per CPU when the configuration says 0.
    pub fn effective_workers(&self) -> (r: usize)
        ensures
            self.workers != 0 ==> r == self.workers,
            self.workers == 0 ==> r >= 1,
    {
        if self.workers == 0 {
            num_cpus_get()
        } else {
            self.workers
        }
    }
}

/// QUIC transport settings.
#[derive(Debug, Clone)]
pub struct QuicConfig {
    /// Maximum concurrent connections.
    pub max_connections: u32,
    /// Maximum streams per connection.
    pub max_streams_per_conn: u32,
    /// Connection idle timeout in seconds.
    pub idle_timeout_secs: u64,
    /// Maximum UDP payload size.
    pub max_udp_payload: u16,
    /// Whether 0-RTT is enabled.
    pub enable_0rtt: bool,
    /// Congestion control algorithm name.
    pub congestion_control: String,
}

/// TLS certificate settings.
#[derive(Debug, Clone)]
pub struct TlsConfig {
    /// Path of the certificate file, as text.
    pub cert_path: String,
    /// Path of the private key file, as text.
    pub key_path: String,
    /// Whether to self-sign a certificate when the files are missing.
    pub auto_generate: bool,
}

/// Buffer pool and slab sizing.
#[derive(Debug, Clone)]
pub struct PoolConfig {
    /// Number of 4 KB buffers.
    pub buffer_count_4k: usize,
    /// Number of 16 KB buffers.
    pub buffer_count_16k: usize,
    /// Number of 64 KB buffers.
    pub buffer_count_64k: usize,
    /// Maximum connection slots.
    pub connection_slots: usize,
}

/// Metrics endpoint settings.
#[derive(Debug, Clone)]
pub struct MetricsConfig {
    /// Whether the metrics endpoint runs.
    pub enabled: bool,
    /// The address the metrics server binds, as text.
    pub bind_addr: String,
}

/// Logging settings.
#[derive(Debug, Clone)]
pub struct LoggingConfig {
    /// Log level name.
    pub level: String,
    /// Output format, `json` or `pretty`.
    pub format: String,
}

/// Resource limits.
#[derive(Debug, Clone)]
pub struct LimitsConfig {
    /// Bandwidth cap per connection in bytes per second; 0 means unlimited.
    pub max_bandwidth_per_conn: u64,
    /// New connections allowed per second.
    pub max_new_conn_per_sec: u32,
    /// Memory cap in megabytes; 0 means unlimited.
    pub max_memory_mb: usize,
}

impl Default for LimitsConfig {
    /// No bandwidth or memory cap, and the default connection rate.
    fn default() -> (r: Self)
        ensures
            r.max_bandwidth_per_conn == 0,
            r.max_new_conn_per_sec == 10_000,
            r.max_memory_mb == 0,
    {
        LimitsConfig { max_bandwidth_per_conn: 0, max_new_conn_per_sec: 10_000, max_memory_mb: 0 }
    }
}

/// Default maximum concurrent connections.
pub fn default_max_connections() -> (r: u32)
    ensures
        r == 100_000,
{
    100_000
}

/// Default maximum streams per connection.
pub fn default_max_streams() -> (r: u32)
    ensures
        r == 100,
{
    100
}

/// Default idle timeout in seconds.
pub fn default_idle_timeout() -> (r: u64)
    ensures
        r == 30,
{
    30
}

/// Default maximum UDP payload size.
pub fn default_max_udp_payload() -> (r: u16)
    ensures
        r == 1350,
{
    1350
}

/// Default for settings that are on unless switched off.
pub fn default_true() -> (r: bool)
    ensures
        r == true,
{
    true
}

/// Default congestion control algorithm name.
pub fn default_congestion_control() -> (r: String)
    ensures
        r@ == "bbr"@,
{
    "bbr".to_owned()
}

/// Default number of 4 KB buffers.
pub fn default_buffer_count_4k() -> (r: usize)
    ensures
        r == 16384,
{
    16384
}

/// Default number of 16 KB buffers.
pub fn default_buffer_count_16k() -> (r: usize)
    ensures
        r == 4096,
{
    4096
}

/// Default number of 64 KB buffers.
pub fn default_buffer_count_64k() -> (r: usize)
    ensures
        r == 1024,
{
    1024
}

/// Default number of connection slots.
pub fn default_connection_slots() -> (r: usize)
    ensures
        r == 100_000,
{
    100_000
}

/// Default metrics bind address.
pub fn default_metrics_addr() -> (r: String)
    ensures
        r@ == "127.0.0.1:9090"@,
{
    "127.0.0.1:9090".to_owned()
}

/// Default log level name.
pub fn default_log_level() -> (r: String)
    ensures
        r@ == "info"@,
{
    "info".to_owned()
}

/// Default log output format.
pub fn default_log_format() -> (r: String)
    ensures
        r@ == "json"@,
{
    "json".to_owned()
}

/// Default new-connection rate limit.
pub fn default_max_new_conn() -> (r: u32)
    ensures
        r == 10_000,
{
    10_000
}

/// What configuration validation can refuse.
#[derive(Debug, Clone, Copy, PartialEq, Eq, Structural)]
pub enum ConfigError {
    /// `quic.max_connections` is zero.
    MaxConnectionsZero,
    /// `quic.max_streams_per_conn` is zero.
    MaxStreamsZero,
    /// `quic.idle_timeout_secs` is zero.
    IdleTimeoutZero,
    /// `pool.connection_slots` is zero.
    ConnectionSlotsZero,
}

impl ConfigError {
    /// The refusal as text.
    pub fn message(&self) -> (r: &'static str)
        ensures
            r@ == self.spec_message(),
    {
        match self {
            ConfigError::MaxConnectionsZero => "max_connections must be > 0",
            ConfigError::MaxStreamsZero => "max_streams_per_conn must be > 0",
            ConfigError::IdleTimeoutZero => "idle_timeout_secs must be > 0",
            ConfigError::ConnectionSlotsZero => "connection_slots must be > 0",
        }
    }

    /// The text of each refusal.
    pub open spec fn spec_message(&self) -> Seq<char> {
        match self {
            ConfigError::MaxConnectionsZero => "max_connections must be > 0"@,
            ConfigError::MaxStreamsZero => "max_streams_per_conn must be > 0"@,
            ConfigError::IdleTimeoutZero => "idle_timeout_secs must be > 0"@,
            ConfigError::ConnectionSlotsZero => "connection_slots must be > 0"@,
        }
    }
}

impl Config {
    /// Validate the values: the connection, stream, timeout and slot counts
    /// must all be positive. Checks run in that order and the first failure
    /// is reported.
    pub fn validate(&self) -> (r: Result<(), ConfigError>)
        ensures
            match r {
                Ok(()) => self.quic.max_connections > 0 && self.quic.max_streams_per_conn > 0
                    && self.quic.idle_timeout_secs > 0 && self.pool.connection_slots > 0,
                Err(ConfigError::MaxConnectionsZero) => self.quic.max_connections == 0,
                Err(ConfigError::MaxStreamsZero) => self.quic.max_connections > 0
                    && self.quic.max_streams_per_conn == 0,
                Err(ConfigError::IdleTimeoutZero) => self.quic.max_connections > 0
                    && self.quic.max_streams_per_conn > 0 && self.quic.idle_timeout_secs == 0,
                Err(ConfigError::ConnectionSlotsZero) => self.quic.max_connections > 0
                    && self.quic.max_streams_per_conn > 0 && self.quic.idle_timeout_secs > 0
                    && self.pool.connection_slots == 0,
            },
    {
        if self.quic.max_connections == 0 {
            return Err(ConfigError::MaxConnectionsZero);
        }
        if self.quic.max_streams_per_conn == 0 {
            return Err(ConfigError::MaxStreamsZero);
        }
        if self.quic.idle_timeout_secs == 0 {
            return Err(ConfigError::IdleTimeoutZero);
        }
        if self.pool.connection_slots == 0 {
            return Err(ConfigError::ConnectionSlotsZero);
        }
        Ok(())
    }
}

} // verus!
