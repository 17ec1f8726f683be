//! ICMP echo prober, verified half. The driver resolves the host once,
//! performs `count` timed echo attempts (per-attempt deadline, fixed pause
//! in between) and hands the recorded outcomes here; this module turns them
//! into the run's result, reporting an all-lost run as a failure rather
//! than as zero-valued statistics.

use vstd::prelude::*;

verus! {

use crate::error::NetworkError;
use crate::stats::{
    avg_rtt,
    compute_statistics,
    loss_percent_of,
    max_rtt,
    min_rtt,
    succ_count,
    AttemptOutcome,
};
use vstd::string::StringExecFns;

/// Configuration of one echo run.
#[derive(Clone, Debug, PartialEq, Eq)]
pub struct PingConfig {
    /// Target host name or address text.
    pub host: String,
    /// Number of echo attempts.
    pub count: u32,
    /// Per-attempt deadline, in milliseconds.
    pub timeout_ms: u64,
    /// Echo payload size, in bytes.
    pub packet_size: usize,
}

impl Default for PingConfig {
    /// The documented defaults: 4 attempts, 2 s deadline, 56-byte payload.
    fn default() -> (r: Self)
        ensures
            r.host@ == Seq::<char>::empty(),
            r.count == 4,
            r.timeout_ms == 2000,
            r.packet_size == 56,
    {
        PingConfig { host: String::new(), count: 4, timeout_ms: 2000, packet_size: 56 }
    }
}

/// Result of one echo run with at least one answered attempt.
#[derive(Clone, Debug, PartialEq, Eq)]
pub struct PingResult {
    /// The host the run was aimed at.
    pub host: String,
    /// The resolved address the echoes went to.
    pub ip: String,
    /// Percentage of attempts lost, rounded down.
    pub packet_loss: u32,
    /// Smallest answered round-trip time, in microseconds.
    pub min_rtt_micros: u64,
    /// Largest answered round-trip time, in microseconds.
    pub max_rtt_micros: u64,
    /// Mean answered round-trip time (rounded down), in microseconds.
    pub avg_rtt_micros: u64,
    /// How many echoes were sent.
    pub packets_sent: u32,
    /// How many answers came back.
    pub packets_received: u32,
    /// When the run was captured, in milliseconds since the Unix epoch.
    pub timestamp_ms: u64,
}

/// The echo prober. Performs no I/O itself: the surrounding application
/// resolves the target and times each echo, then has the run summarized
/// here.
pub struct PingService;

impl PingService {
    /// Create the prober.
    pub fn new() -> (r: Self) {
        PingService
    }

    /// Summarize a finished echo run. The outcomes are the run's attempts
    /// in order, one per configured attempt. A run in which every echo was
    /// lost is the distinct all-failed error, never a result with made-up
    /// latency fields.
    pub fn summarize(
        &self,
        config: &PingConfig,
        ip: String,
        outcomes: &Vec<AttemptOutcome>,
        timestamp_ms: u64,
    ) -> (r: Result<PingResult, NetworkError>)
        requires
            outcomes@.len() == config.count,
        ensures
            r is Ok <==> succ_count(outcomes@) > 0,
            r matches Ok(res) ==> {
                &&& res.host == config.host
                &&& res.ip == ip
                &&& res.packets_sent == config.count
                &&& res.packets_received == succ_count(outcomes@)
                &&& res.packet_loss == loss_percent_of(outcomes@)
                &&& res.min_rtt_micros == min_rtt(outcomes@)
                &&& res.max_rtt_micros == max_rtt(outcomes@)
                &&& res.avg_rtt_micros == avg_rtt(outcomes@)
                &&& res.timestamp_ms == timestamp_ms
            },
            r matches Err(e) ==> e is Ping,
    {
        match compute_statistics(outcomes) {
            Some(st) => Ok(
                PingResult {
                    host: config.host.clone(),
                    ip,
                    packet_loss: st.loss_percent,
                    min_rtt_micros: st.min_rtt_micros,
                    max_rtt_micros: st.max_rtt_micros,
                    avg_rtt_micros: st.avg_rtt_micros,
                    packets_sent: st.sent,
                    packets_received: st.succeeded,
                    timestamp_ms,
                },
            ),
            None => Err(
                NetworkError::Ping(
                    String::from_str("all packets lost for ").concat(config.host.as_str()),
                ),
            ),
        }
    }
}

} // verus!
