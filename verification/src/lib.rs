//! Core of a multi-protocol network diagnostics engine.
//!
//! The crate holds the pure, verified logic of the engine: turning timed
//! attempt sequences into loss/latency statistics, the hop-discovery state
//! machine, port-range parsing and port-scan bookkeeping, DNS answer
//! normalization, HTTP probe bookkeeping, request routing with defaults, and
//! the wire codec for the streaming envelope. All network I/O (ICMP echo,
//! TCP connect, HTTP transport, resolver lookups, the transport pumps) lives
//! in the surrounding application, which feeds plain values into this crate
//! and sends its results back out.

pub mod api;
pub mod dns;
pub mod error;
pub mod json;
pub mod ping;
pub mod ports;
pub mod stats;
pub mod tcping;
pub mod text;
pub mod traceroute;
pub mod website;
pub mod wire;
pub mod ws;
