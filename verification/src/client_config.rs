//! Client configuration.
//!
//! The plain, validated shape of the tunnel client's settings. Reading and
//! parsing the TOML file is a collaborator's job; this module owns the
//! defaults, the validation rules, and the server-name derivation for TLS.

use vstd::prelude::*;

use crate::http::find_last;
use vstd::string::{StringExecFns, StringSliceAdditionalSpecFns};
use vstd::utf8::{encode_utf8, valid_utf8};

verus! {

broadcast use vstd::utf8::encode_utf8_valid_utf8, vstd::utf8::valid_utf8_split,
    vstd::utf8::is_char_boundary_start_end_of_seq;

/// Root configuration.
#[derive(Debug, Clone)]
pub struct Config {
    /// Tunnel server connection settings.
    pub server: ServerConfig,
    /// Local proxy settings.
    pub proxy: ProxyConfig,
    /// QUIC transport settings.
    pub quic: QuicConfig,
    /// Logging settings.
    pub logging: LoggingConfig,
}

/// Tunnel server connection settings.
#[derive(Debug, Clone)]
pub struct ServerConfig {
    /// The server's address, `host:port`, as text.
    pub address: String,
    /// The server name for TLS; when absent the host part of the address.
    pub server_name: Option<String>,
    /// Whether to skip certificate verification (development only).
    pub insecure: bool,
}

/// The bytes of the server name used for TLS: the configured name, or the
/// part of the address before its last colon, or the whole address when it
/// has no colon.
pub open spec fn spec_server_name(c: &ServerConfig) -> Seq<u8> {
    match c.server_name {
        Some(n) => encode_utf8(n@),
        None => {
            let b = encode_utf8(c.address@);
            let lc = find_last(b, 58);
            if lc < 0 {
                b
            } else {
                b.subrange(0, lc)
            }
        },
    }
}

impl ServerConfig {
    /// The server name to put in the TLS handshake.
    pub fn get_server_name(&self) -> (r: &str)
        ensures
            r.spec_bytes() == spec_server_name(self),
    {
        match &self.server_name {
            Some(name) => name.as_str(),
            None => {
                let bytes = self.address.as_str().as_bytes();
                proof {
                    assert(valid_utf8(bytes@));
                }
                let mut j: usize = bytes.len();
                while j > 0 && bytes[j - 1] != 58
                    invariant
                        j <= bytes@.len(),
                        forall|k: int| j <= k < bytes@.len() ==> bytes@[k] != 58,
                    decreases j,
                {
                    j -= 1;
                }
                if j == 0 {
                    proof {
                        crate::http::lemma_find_last_none(bytes@, 58);
                    }
                    self.address.as_str()
                } else {
                    let lc = j - 1;
                    proof {
                        crate::http::lemma_find_last_at(bytes@, 58, lc as int);
                        crate::http::lemma_char_boundary_at(bytes@, lc as int);
                    }
                    let (host, _rest) = self.address.as_str().split_at(lc);
                    host
                }
            },
        }
    }
}

/// Local proxy settings.
#[derive(Debug, Clone)]
pub struct ProxyConfig {
    /// The SOCKS5 listener's bind address, as text.
    pub socks5_bind: String,
    /// The HTTP CONNECT listener's bind address, as text.
    pub http_bind: String,
    /// Whether the SOCKS5 listener runs.
    pub socks5_enabled: bool,
    /// Whether the HTTP CONNECT listener runs.
    pub http_enabled: bool,
}

/// QUIC transport settings.
#[derive(Debug, Clone)]
pub struct QuicConfig {
    /// Connection idle timeout in seconds.
    pub idle_timeout_secs: u64,
    /// Whether 0-RTT reconnection is enabled.
    pub enable_0rtt: bool,
    /// Maximum concurrent streams.
    pub max_streams: u32,
}

impl Default for QuicConfig {
    /// A 30 second idle timeout, 0-RTT on, and 100 streams.
    fn default() -> (r: Self)
        ensures
            r.idle_timeout_secs == 30,
            r.enable_0rtt == true,
            r.max_streams == 100,
    {
        QuicConfig { idle_timeout_secs: 30, enable_0rtt: true, max_streams: 100 }
    }
}

/// Logging settings.
#[derive(Debug, Clone)]
pub struct LoggingConfig {
    /// Log level name.
    pub level: String,
    /// Output format, `json` or `pretty`.
    pub format: String,
}

impl Default for LoggingConfig {
    /// Log at `info` with the human-readable format.
    fn default() -> (r: Self)
        ensures
            r.level@ == "info"@,
            r.format@ == "pretty"@,
    {
        LoggingConfig { level: "info".to_owned(), format: "pretty".to_owned() }
    }
}

/// Default SOCKS5 bind address.
pub fn default_socks5_bind() -> (r: String)
    ensures
        r@ == "127.0.0.1:1080"@,
{
    "127.0.0.1:1080".to_owned()
}

/// Default HTTP CONNECT bind address.
pub fn default_http_bind() -> (r: String)
    ensures
        r@ == "127.0.0.1:8080"@,
{
    "127.0.0.1:8080".to_owned()
}

/// Default for settings that are on unless switched off.
pub fn default_true() -> (r: bool)
    ensures
        r == true,
{
    true
}

/// Default idle timeout in seconds.
pub fn default_idle_timeout() -> (r: u64)
    ensures
        r == 30,
{
    30
}

/// Default maximum concurrent streams.
pub fn default_max_streams() -> (r: u32)
    ensures
        r == 100,
{
    100
}

/// Default log level name.
pub fn default_log_level() -> (r: String)
    ensures
        r@ == "info"@,
{
    "info".to_owned()
}

/// Default log output format.
pub fn default_log_format() -> (r: String)
    ensures
        r@ == "pretty"@,
{
    "pretty".to_owned()
}

/// What configuration validation can refuse.
#[derive(Debug, Clone, Copy, PartialEq, Eq, Structural)]
pub enum ClientConfigError {
    /// `server.address` is empty.
    AddressEmpty,
    /// `quic.idle_timeout_secs` is zero.
    IdleTimeoutZero,
    /// `quic.max_streams` is zero.
    MaxStreamsZero,
}

impl ClientConfigError {
    /// The refusal as text.
    pub fn message(&self) -> (r: &'static str)
        ensures
            r@ == self.spec_message(),
    {
        match self {
            ClientConfigError::AddressEmpty => "server.address must not be empty",
            ClientConfigError::IdleTimeoutZero => "quic.idle_timeout_secs must be > 0",
            ClientConfigError::MaxStreamsZero => "quic.max_streams must be > 0",
        }
    }

    /// The text of each refusal.
    pub open spec fn spec_message(&self) -> Seq<char> {
        match self {
            ClientConfigError::AddressEmpty => "server.address must not be empty"@,
            ClientConfigError::IdleTimeoutZero => "quic.idle_timeout_secs must be > 0"@,
            ClientConfigError::MaxStreamsZero => "quic.max_streams must be > 0"@,
        }
    }
}

impl Config {
    /// Validate the values: the address must be non-empty and the timeout
    /// and stream counts positive. Checks run in that order and the first
    /// failure is reported.
    pub fn validate(&self) -> (r: Result<(), ClientConfigError>)
        ensures
            match r {
                Ok(()) => self.server.address@.len() > 0 && self.quic.idle_timeout_secs > 0
                    && self.quic.max_streams > 0,
                Err(ClientConfigError::AddressEmpty) => self.server.address@.len() == 0,
                Err(ClientConfigError::IdleTimeoutZero) => self.server.address@.len() > 0
                    && self.quic.idle_timeout_secs == 0,
                Err(ClientConfigError::MaxStreamsZero) => self.server.address@.len() > 0
                    && self.quic.idle_timeout_secs > 0 && self.quic.max_streams == 0,
            },
    {
        if self.server.address.as_str().is_empty() {
            return Err(ClientConfigError::AddressEmpty);
        }
        if self.quic.idle_timeout_secs == 0 {
            return Err(ClientConfigError::IdleTimeoutZero);
        }
        if self.quic.max_streams == 0 {
            return Err(ClientConfigError::MaxStreamsZero);
        }
        Ok(())
    }
}

} // verus!
