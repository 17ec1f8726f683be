//! TCP connect prober, verified half. The driver performs `count` timed
//! connection attempts against host:port (per-attempt deadline, configured
//! pause between attempts, none after the last) and hands the recorded
//! outcomes here; this module turns them into the run's result, reporting
//! an all-failed run as a failure rather than as zero-valued statistics.

use vstd::prelude::*;

verus! {

use crate::error::NetworkError;
use crate::stats::{
    avg_rtt,
    compute_statistics,
    loss_percent_of,
    max_rtt,
    min_rtt,
    succ_count,
    AttemptOutcome,
};
use vstd::string::StringExecFns;

/// Configuration of one TCP connect run.
#[derive(Clone, Debug, PartialEq, Eq)]
pub struct TcpingConfig {
    /// Target host name or address text.
    pub host: String,
    /// Target port.
    pub port: u16,
    /// Number of connection attempts.
    pub count: u32,
    /// Per-attempt deadline, in milliseconds.
    pub timeout_ms: u64,
    /// Pause between consecutive attempts, in milliseconds.
    pub delay_ms: u64,
}

impl Default for TcpingConfig {
    /// The documented defaults: port 80, 4 attempts, 3 s deadline, 100 ms
    /// pause.
    fn default() -> (r: Self)
        ensures
            r.host@ == Seq::<char>::empty(),
            r.port == 80,
            r.count == 4,
            r.timeout_ms == 3000,
            r.delay_ms == 100,
    {
        TcpingConfig { host: String::new(), port: 80, count: 4, timeout_ms: 3000, delay_ms: 100 }
    }
}

/// Result of one TCP connect run with at least one successful attempt.
#[derive(Clone, Debug, PartialEq, Eq)]
pub struct TcpingResult {
    /// The host the run was aimed at.
    pub host: String,
    /// The probed port.
    pub port: u16,
    /// The target's resolved address text.
    pub ip: String,
    /// Whether any attempt connected.
    pub success: bool,
    /// Mean successful round-trip time (rounded down), in microseconds.
    pub avg_rtt_micros: u64,
    /// Smallest successful round-trip time, in microseconds.
    pub min_rtt_micros: u64,
    /// Largest successful round-trip time, in microseconds.
    pub max_rtt_micros: u64,
    /// How many connection attempts were made.
    pub attempts: u32,
    /// How many of them connected.
    pub successful_attempts: u32,
    /// Percentage of attempts lost, rounded down.
    pub packet_loss: u32,
    /// When the run was captured, in milliseconds since the Unix epoch.
    pub timestamp_ms: u64,
}

/// The TCP connect prober. Performs no I/O itself: the surrounding
/// application times each connection attempt, then has the run summarized
/// here. The port scanner reuses the same connect primitive with one
/// attempt per port.
pub struct TcpingService;

impl TcpingService {
    /// Create the prober.
    pub fn new() -> (r: Self) {
        TcpingService
    }

    /// Summarize a finished connect run. The outcomes are the run's
    /// attempts in order, one per configured attempt. A run in which no
    /// attempt connected is the distinct all-failed error, never a result
    /// with made-up latency fields.
    pub fn summarize(
        &self,
        config: &TcpingConfig,
        ip: String,
        outcomes: &Vec<AttemptOutcome>,
        timestamp_ms: u64,
    ) -> (r: Result<TcpingResult, NetworkError>)
        requires
            outcomes@.len() == config.count,
        ensures
            r is Ok <==> succ_count(outcomes@) > 0,
            r matches Ok(res) ==> {
                &&& res.host == config.host
                &&& res.port == config.port
                &&& res.ip == ip
                &&& res.success
                &&& res.attempts == config.count
                &&& res.successful_attempts == succ_count(outcomes@)
                &&& res.packet_loss == loss_percent_of(outcomes@)
                &&& res.min_rtt_micros == min_rtt(outcomes@)
                &&& res.max_rtt_micros == max_rtt(outcomes@)
                &&& res.avg_rtt_micros == avg_rtt(outcomes@)
                &&& res.timestamp_ms == timestamp_ms
            },
            r matches Err(e) ==> e is Tcp,
    {
        match compute_statistics(outcomes) {
            Some(st) => Ok(
                TcpingResult {
                    host: config.host.clone(),
                    port: config.port,
                    ip,
                    success: true,
                    avg_rtt_micros: st.avg_rtt_micros,
                    min_rtt_micros: st.min_rtt_micros,
                    max_rtt_micros: st.max_rtt_micros,
                    attempts: st.sent,
                    successful_attempts: st.succeeded,
                    packet_loss: st.loss_percent,
                    timestamp_ms,
                },
            ),
            None => Err(
                NetworkError::Tcp(
                    String::from_str("all connections to ").concat(config.host.as_str()).concat(
                        " failed",
                    ),
                ),
            ),
        }
    }
}

} // verus!
