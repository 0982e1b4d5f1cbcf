//! Core logic of a QUIC tunnel proxy pair: the wire protocol between client
//! and server, the server's buffer pool and connection slab, the connection
//! manager and its lifecycle rules, the metrics substrate, the routing policy,
//! and the parsing rules of the client's SOCKS5 and HTTP CONNECT front ends.
//!
//! Everything here is plain data logic: the sockets, the QUIC endpoint and the
//! async plumbing live outside and hand this library plain values.

pub mod api;
pub mod client_config;
pub mod config;
pub mod dispatcher;
pub mod http;
pub mod manager;
pub mod metrics;
pub mod pending;
pub mod policy;
pub mod pool;
pub mod protocol;
pub mod slab;
pub mod socks5;
pub mod state;
pub mod udp_pool;
