//! Hop discovery: a hop-limited walk towards a resolved target address.
//! The walk itself is a state machine over the current hop index; probing a
//! single hop is outside work, whose outcome is fed back into the machine.
//! The walk stops at the first hop whose resolved address equals the
//! target's, or when the hop budget is exhausted — the latter is a valid,
//! incomplete-path result, not an error.

use vstd::prelude::*;

verus! {

use crate::error::NetworkError;
use crate::text::{eq_ignore_ascii_case, eq_ignoring_ascii_case, lower_codes};
use vstd::string::StringExecFns;

/// Configuration of one hop-discovery run.
#[derive(Clone, Debug, PartialEq, Eq)]
pub struct TracerouteConfig {
    /// Target host name or address text.
    pub host: String,
    /// Hop budget: the walk never takes more steps than this.
    pub max_hops: u32,
    /// Per-hop probe deadline, in milliseconds.
    pub timeout_ms: u64,
    /// Pause between consecutive hop probes, in milliseconds.
    pub delay_ms: u64,
    /// Probe packet size, in bytes.
    pub packet_size: usize,
}

impl Default for TracerouteConfig {
    /// The documented defaults: 30 hops, 3 s per hop, 100 ms between hops.
    fn default() -> (r: Self)
        ensures
            r.host@ == Seq::<char>::empty(),
            r.max_hops == 30,
            r.timeout_ms == 3000,
            r.delay_ms == 100,
            r.packet_size == 60,
    {
        TracerouteConfig {
            host: String::new(),
            max_hops: 30,
            timeout_ms: 3000,
            delay_ms: 100,
            packet_size: 60,
        }
    }
}

/// One step of the walk: its 1-based index and, when the probe got an
/// answer, the responding address, its reverse-resolved name and the
/// round-trip time.
#[derive(Clone, Debug, PartialEq, Eq)]
pub struct Hop {
    /// 1-based hop index.
    pub hop_number: u32,
    /// Responding address, when the probe succeeded.
    pub ip: Option<String>,
    /// Reverse-resolved name of the responder, when known.
    pub hostname: Option<String>,
    /// Round-trip time in microseconds, when the probe succeeded.
    pub rtt_micros: Option<u64>,
    /// Whether the probe of this hop got an answer.
    pub success: bool,
}

/// What probing one hop level produced.
#[derive(Clone, Debug, PartialEq, Eq)]
pub enum HopOutcome {
    /// Some router answered.
    Response { ip: String, hostname: Option<String>, rtt_micros: u64 },
    /// Nothing answered before the deadline.
    NoResponse,
}

/// The finished walk.
#[derive(Clone, Debug, PartialEq, Eq)]
pub struct TracerouteResult {
    /// The host the walk was aimed at.
    pub host: String,
    /// The target's resolved address text.
    pub ip: String,
    /// The recorded hops, in walk order.
    pub hops: Vec<Hop>,
    /// The configured hop budget.
    pub max_hops: u32,
    /// Wall-clock duration of the whole walk, in microseconds.
    pub total_time_micros: u64,
    /// When the walk was captured, in milliseconds since the Unix epoch.
    pub timestamp_ms: u64,
}

/// Whether a recorded hop's address equals the target's address text.
pub open spec fn hop_hits_target(h: Hop, target: Seq<char>) -> bool {
    match h.ip {
        Some(ip) => ip@ == target,
        None => false,
    }
}

/// The hop record a probe outcome turns into at 0-based position `idx`.
pub open spec fn hop_of_outcome(o: HopOutcome, idx: int) -> Hop {
    match o {
        HopOutcome::Response { ip, hostname, rtt_micros } => Hop {
            hop_number: (idx + 1) as u32,
            ip: Some(ip),
            hostname,
            rtt_micros: Some(rtt_micros),
            success: true,
        },
        HopOutcome::NoResponse => Hop {
            hop_number: (idx + 1) as u32,
            ip: None,
            hostname: None,
            rtt_micros: None,
            success: false,
        },
    }
}

/// The hop-discovery state machine. State: the hops recorded so far and
/// whether the target has been seen; the driver probes one hop level at a
/// time and feeds each outcome in until the walk is finished.
pub struct HopWalk {
    target_ip: String,
    max_hops: u32,
    hops: Vec<Hop>,
    reached: bool,
}

impl HopWalk {
    /// Address text the walk is aimed at.
    pub closed spec fn target(&self) -> Seq<char> {
        self.target_ip@
    }

    /// The hop budget.
    pub closed spec fn budget(&self) -> u32 {
        self.max_hops
    }

    /// The hops recorded so far, in walk order.
    pub closed spec fn hops(&self) -> Seq<Hop> {
        self.hops@
    }

    /// Whether some recorded hop answered with the target's address.
    pub closed spec fn reached_target(&self) -> bool {
        self.reached
    }

    /// The walk is over once the target answered or the budget is spent.
    pub open spec fn finished(&self) -> bool {
        self.reached_target() || self.hops().len() >= self.budget()
    }

    /// Walk invariant: hop indices are exactly 1..=len with no gaps, the
    /// record never outgrows the budget, a hop's fields agree with its
    /// success flag, and only the final hop — and only when the walk
    /// reached its target — may carry the target's address.
    pub open spec fn well_formed(&self) -> bool {
        &&& self.hops().len() <= self.budget()
        &&& forall|i: int|
            0 <= i < self.hops().len() ==> (#[trigger] self.hops()[i]).hop_number == i + 1
        &&& forall|i: int|
            0 <= i < self.hops().len() ==> ((#[trigger] self.hops()[i]).success <==> self.hops()[i].ip is Some)
        &&& forall|i: int|
            0 <= i < self.hops().len() ==> ((#[trigger] self.hops()[i]).success <==> self.hops()[i].rtt_micros is Some)
        &&& forall|i: int|
            0 <= i < self.hops().len() ==> (!(#[trigger] self.hops()[i]).success
                ==> self.hops()[i].hostname is None)
        &&& forall|i: int|
            0 <= i < self.hops().len() ==> (hop_hits_target(#[trigger] self.hops()[i], self.target())
                ==> i == self.hops().len() - 1 && self.reached_target())
        &&& self.reached_target() ==> self.hops().len() > 0 && hop_hits_target(
            self.hops().last(),
            self.target(),
        )
    }

    /// Start a walk towards the given resolved address, with the given
    /// hop budget.
    pub fn new(target_ip: String, max_hops: u32) -> (r: Self)
        ensures
            r.well_formed(),
            r.target() == target_ip@,
            r.budget() == max_hops,
            r.hops() =~= Seq::<Hop>::empty(),
            !r.reached_target(),
            r.finished() <==> max_hops == 0,
    {
        HopWalk { target_ip, max_hops, hops: Vec::new(), reached: false }
    }

    /// Whether the walk is over.
    pub fn is_finished(&self) -> (r: bool)
        ensures
            r == self.finished(),
    {
        self.reached || self.hops.len() >= self.max_hops as usize
    }

    /// The 1-based index of the hop level to probe next.
    pub fn next_hop_number(&self) -> (r: u32)
        requires
            self.well_formed(),
            !self.finished(),
        ensures
            r == self.hops().len() + 1,
    {
        self.hops.len() as u32 + 1
    }

    /// Record the outcome of probing the next hop level and advance. A
    /// failed probe is recorded as an unanswered hop without aborting the
    /// walk; a response carrying the target's address makes the walk
    /// terminally successful.
    pub fn step(&mut self, outcome: HopOutcome)
        requires
            old(self).well_formed(),
            !old(self).finished(),
        ensures
            final(self).well_formed(),
            final(self).target() == old(self).target(),
            final(self).budget() == old(self).budget(),
            final(self).hops() == old(self).hops().push(
                hop_of_outcome(outcome, old(self).hops().len() as int),
            ),
            final(self).reached_target() <==> (outcome matches HopOutcome::Response { ip, .. }
                && ip@ == old(self).target()),
    {
        let idx = self.hops.len() as u32;
        match outcome {
            HopOutcome::Response { ip, hostname, rtt_micros } => {
                let hit = ip == self.target_ip;
                self.hops.push(
                    Hop {
                        hop_number: idx + 1,
                        ip: Some(ip),
                        hostname,
                        rtt_micros: Some(rtt_micros),
                        success: true,
                    },
                );
                if hit {
                    self.reached = true;
                }
            },
            HopOutcome::NoResponse => {
                self.hops.push(
                    Hop {
                        hop_number: idx + 1,
                        ip: None,
                        hostname: None,
                        rtt_micros: None,
                        success: false,
                    },
                );
            },
        }
    }

    /// Close a finished walk into its result record.
    pub fn finish(self, host: String, total_time_micros: u64, timestamp_ms: u64) -> (r:
        TracerouteResult)
        requires
            self.well_formed(),
            self.finished(),
        ensures
            r.host == host,
            r.ip@ == self.target(),
            r.hops@ == self.hops(),
            r.max_hops == self.budget(),
            r.total_time_micros == total_time_micros,
            r.timestamp_ms == timestamp_ms,
    {
        TracerouteResult {
            host,
            ip: self.target_ip,
            hops: self.hops,
            max_hops: self.max_hops,
            total_time_micros,
            timestamp_ms,
        }
    }
}

/// Hop indices of a well-formed walk are the gap-free sequence 1..=k for
/// some k within the hop budget, and no hop before the last carries the
/// target's address: the walk stopped at the first target hit, or at the
/// budget.
pub proof fn lemma_hop_walk_contract(w: &HopWalk)
    requires
        w.well_formed(),
    ensures
        w.hops().len() <= w.budget(),
        forall|i: int| 0 <= i < w.hops().len() ==> (#[trigger] w.hops()[i]).hop_number == i + 1,
        forall|i: int|
            0 <= i < w.hops().len() - 1 ==> !hop_hits_target(#[trigger] w.hops()[i], w.target()),
        !w.finished() ==> w.hops().len() < w.budget(),
{
}

/// The hop-discovery prober. Drives no I/O itself: the surrounding
/// application resolves the target, probes each hop level and feeds the
/// outcomes through a `HopWalk`.
pub struct TracerouteService;

impl TracerouteService {
    /// Create the prober.
    pub fn new() -> (r: Self) {
        TracerouteService
    }
}

/// The walk configuration a protocol choice stands for: `icmp` keeps the
/// defaults, `udp` shrinks the packet, `tcp` stretches the per-hop
/// deadline; anything else is rejected before any probing. The protocol
/// name is matched ignoring ASCII case.
pub fn protocol_config(host: String, protocol: &str) -> (r: Result<
    TracerouteConfig,
    NetworkError,
>)
    ensures
        r is Ok <==> (eq_ignoring_ascii_case(protocol@, "icmp"@) || eq_ignoring_ascii_case(
            protocol@,
            "udp"@,
        ) || eq_ignoring_ascii_case(protocol@, "tcp"@)),
        r matches Ok(c) ==> c.host == host && c.max_hops == 30 && c.delay_ms == 100,
        r matches Ok(c) ==> (eq_ignoring_ascii_case(protocol@, "udp"@) ==> c.packet_size == 40
            && c.timeout_ms == 3000),
        r matches Ok(c) ==> (eq_ignoring_ascii_case(protocol@, "icmp"@) ==> c.packet_size == 60
            && c.timeout_ms == 3000),
        r matches Ok(c) ==> (eq_ignoring_ascii_case(protocol@, "tcp"@) ==> c.packet_size == 60
            && c.timeout_ms == 5000),
        r matches Err(e) ==> e is InvalidInput,
{
    proof {
        reveal_strlit("icmp");
        reveal_strlit("udp");
        reveal_strlit("tcp");
        lemma_protocol_names_distinct();
    }
    let mut config = TracerouteConfig::default();
    config.host = host;
    if eq_ignore_ascii_case(protocol, "icmp") {
        Ok(config)
    } else if eq_ignore_ascii_case(protocol, "udp") {
        config.packet_size = 40;
        Ok(config)
    } else if eq_ignore_ascii_case(protocol, "tcp") {
        config.timeout_ms = 5000;
        Ok(config)
    } else {
        Err(
            NetworkError::InvalidInput(
                String::from_str("unsupported protocol: ").concat(protocol),
            ),
        )
    }
}

/// The three protocol names fold to three distinct texts.
proof fn lemma_protocol_names_distinct()
    ensures
        lower_codes("icmp"@) != lower_codes("udp"@),
        lower_codes("icmp"@) != lower_codes("tcp"@),
        lower_codes("udp"@) != lower_codes("tcp"@),
{
    reveal_strlit("icmp");
    reveal_strlit("udp");
    reveal_strlit("tcp");
    assert(lower_codes("icmp"@).len() == 4);
    assert(lower_codes("udp"@).len() == 3);
    assert(lower_codes("udp"@)[0] == 'u' as int);
    assert(lower_codes("tcp"@)[0] == 't' as int);
}

} // verus!
