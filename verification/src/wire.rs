//! Wire codec for probe results: the canonical JSON rendering that the
//! streaming layer sends out, and its decoder. Each result kind has a
//! specification-level mirror of its wire fields, a canonical encoding, a
//! deterministic parser, executable encode/decode functions proven against
//! them, and a round-trip law: decoding an encoded result gives back every
//! field. Optional fields are rendered as `null` when absent.

use vstd::prelude::*;

verus! {

use crate::json::{
    enc_bool,
    enc_push_bool,
    enc_push_str,
    enc_push_u64,
    enc_str,
    esc,
    lemma_sp_bool_inverts,
    lemma_sp_lit_inverts,
    lemma_sp_str_body_inverts,
    lemma_sp_u64_inverts,
    lemma_tail_after,
    lemma_udec_digits,
    parse_bool,
    parse_lit,
    parse_string,
    parse_u64,
    sp_bool,
    sp_lit,
    sp_string,
    sp_u64,
};
use crate::text::{is_digit, spec_udec};
use vstd::string::{StrSliceExecFns, StringExecFns};

/// A string written in its wire form parses back from the same spot.
#[verifier::rlimit(75)]
pub proof fn lemma_sp_string_inverts(t: Seq<char>, pos: int, s: Seq<char>, rest: Seq<char>)
    requires
        0 <= pos <= t.len(),
        t.subrange(pos, t.len() as int) == enc_str(s) + rest,
    ensures
        sp_string(t, pos) == Some((s, pos + enc_str(s).len())),
        t.subrange(pos + enc_str(s).len(), t.len() as int) == rest,
        pos + enc_str(s).len() + rest.len() == t.len(),
{
    assert(t.subrange(pos, t.len() as int) == seq!['"'] + (esc(s) + seq!['"'] + rest)) by {
        assert(enc_str(s) + rest =~= seq!['"'] + (esc(s) + seq!['"'] + rest));
    }
    lemma_tail_after(t, pos, seq!['"'], esc(s) + seq!['"'] + rest);
    lemma_sp_str_body_inverts(t, pos + 1, s, rest);
    assert(t.subrange(pos, t.len() as int)[0] == t[pos]);
    assert((seq!['"'] + (esc(s) + seq!['"'] + rest))[0] == '"');
    assert(t[pos] == '"');
    assert(pos + 1 + esc(s).len() + 1 == pos + enc_str(s).len());
}

/// Whether a remainder may follow a rendered number: empty, or starting
/// with one of the structural characters.
pub open spec fn num_boundary(rest: Seq<char>) -> bool {
    rest.len() == 0 || rest[0] == ',' || rest[0] == '}' || rest[0] == ']'
}

/// A number written at `pos` and followed by a structural character (or
/// nothing) parses back from there.
#[verifier::rlimit(75)]
pub proof fn lemma_sp_num_inverts(t: Seq<char>, pos: int, n: u64, rest: Seq<char>)
    requires
        0 <= pos <= t.len(),
        t.subrange(pos, t.len() as int) == spec_udec(n as nat) + rest,
        num_boundary(rest),
    ensures
        sp_u64(t, pos) == Some((n, pos + spec_udec(n as nat).len())),
        t.subrange(pos + spec_udec(n as nat).len(), t.len() as int) == rest,
        pos + spec_udec(n as nat).len() + rest.len() == t.len(),
{
    lemma_sp_u64_inverts(t, pos, n, rest);
}

/// The wire form of an optional number: `null` when absent.
pub open spec fn enc_opt_u64(o: Option<u64>) -> Seq<char> {
    match o {
        Some(n) => spec_udec(n as nat),
        None => "null"@,
    }
}

/// Parse an optional number: `null`, or a number.
pub open spec fn sp_opt_u64(t: Seq<char>, pos: int) -> Option<(Option<u64>, int)> {
    match sp_lit(t, pos, "null"@) {
        Some(e) => Some((None, e)),
        None => match sp_u64(t, pos) {
            Some((v, e)) => Some((Some(v), e)),
            None => None,
        },
    }
}

/// An optional number written at `pos` parses back from there.
#[verifier::rlimit(75)]
pub proof fn lemma_sp_opt_u64_inverts(t: Seq<char>, pos: int, o: Option<u64>, rest: Seq<char>)
    requires
        0 <= pos <= t.len(),
        t.subrange(pos, t.len() as int) == enc_opt_u64(o) + rest,
        o is Some ==> num_boundary(rest),
    ensures
        sp_opt_u64(t, pos) == Some((o, pos + enc_opt_u64(o).len())),
        t.subrange(pos + enc_opt_u64(o).len(), t.len() as int) == rest,
        pos + enc_opt_u64(o).len() + rest.len() == t.len(),
{
    reveal_strlit("null");
    match o {
        None => {
            lemma_sp_lit_inverts(t, pos, "null"@, rest);
        },
        Some(n) => {
            lemma_sp_num_inverts(t, pos, n, rest);
            lemma_udec_digits(n as nat);
            assert(sp_lit(t, pos, "null"@) is None) by {
                if sp_lit(t, pos, "null"@) is Some {
                    assert(t.subrange(pos, pos + 4)[0] == t[pos]);
                    assert(t.subrange(pos, t.len() as int)[0] == t[pos]);
                    assert((spec_udec(n as nat) + rest)[0] == spec_udec(n as nat)[0]);
                    assert(is_digit(t[pos]));
                    assert("null"@[0] == 'n');
                }
            }
        },
    }
}

/// The wire form of an optional string: `null` when absent.
pub open spec fn enc_opt_str(o: Option<Seq<char>>) -> Seq<char> {
    match o {
        Some(s) => enc_str(s),
        None => "null"@,
    }
}

/// Parse an optional string: `null`, or a quoted string.
pub open spec fn sp_opt_string(t: Seq<char>, pos: int) -> Option<(Option<Seq<char>>, int)> {
    match sp_lit(t, pos, "null"@) {
        Some(e) => Some((None, e)),
        None => match sp_string(t, pos) {
            Some((s, e)) => Some((Some(s), e)),
            None => None,
        },
    }
}

/// An optional string written at `pos` parses back from there.
#[verifier::rlimit(75)]
pub proof fn lemma_sp_opt_string_inverts(
    t: Seq<char>,
    pos: int,
    o: Option<Seq<char>>,
    rest: Seq<char>,
)
    requires
        0 <= pos <= t.len(),
        t.subrange(pos, t.len() as int) == enc_opt_str(o) + rest,
    ensures
        sp_opt_string(t, pos) == Some((o, pos + enc_opt_str(o).len())),
        t.subrange(pos + enc_opt_str(o).len(), t.len() as int) == rest,
        pos + enc_opt_str(o).len() + rest.len() == t.len(),
{
    reveal_strlit("null");
    match o {
        None => {
            lemma_sp_lit_inverts(t, pos, "null"@, rest);
        },
        Some(s) => {
            lemma_sp_string_inverts(t, pos, s, rest);
            assert(sp_lit(t, pos, "null"@) is None) by {
                if sp_lit(t, pos, "null"@) is Some {
                    assert(t.subrange(pos, pos + 4)[0] == t[pos]);
                    assert(t.subrange(pos, t.len() as int)[0] == t[pos]);
                    assert((enc_str(s) + rest)[0] == enc_str(s)[0]);
                    assert(enc_str(s)[0] == '"');
                    assert("null"@[0] == 'n');
                }
            }
        },
    }
}

/// Parse an optional number, executable form.
pub fn parse_opt_u64(t: &str, pos: usize) -> (r: Option<(Option<u64>, usize)>)
    ensures
        (match sp_opt_u64(t@, pos as int) {
            Some((v, e)) => {
                &&& r matches Some(p)
                &&& r.unwrap().0 == v
                &&& r.unwrap().1 == e
                &&& pos < e <= t@.len()
            },
            None => r is None,
        }),
{
    if let Some(e) = parse_lit(t, pos, "null") {
        proof {
            reveal_strlit("null");
        }
        Some((None, e))
    } else if let Some((v, e)) = parse_u64(t, pos) {
        Some((Some(v), e))
    } else {
        None
    }
}

/// Parse an optional string, executable form.
pub fn parse_opt_string(t: &str, pos: usize) -> (r: Option<(Option<String>, usize)>)
    ensures
        (match sp_opt_string(t@, pos as int) {
            Some((v, e)) => {
                &&& r matches Some(p)
                &&& (match r.unwrap().0 {
                    Some(s) => v matches Some(vs) && s@ == vs,
                    None => v is None,
                })
                &&& r.unwrap().1 == e
                &&& pos < e <= t@.len()
            },
            None => r is None,
        }),
{
    if let Some(e) = parse_lit(t, pos, "null") {
        proof {
            reveal_strlit("null");
        }
        Some((None, e))
    } else if let Some((s, e)) = parse_string(t, pos) {
        Some((Some(s), e))
    } else {
        None
    }
}

/// Append the wire form of an optional number.
pub fn enc_push_opt_u64(out: &mut String, o: &Option<u64>)
    ensures
        final(out)@ == old(out)@ + enc_opt_u64(*o),
{
    match o {
        Some(n) => enc_push_u64(out, *n),
        None => {
            out.append("null");
        },
    }
}

/// Append the wire form of an optional string.
pub fn enc_push_opt_str(out: &mut String, o: &Option<String>)
    ensures
        (match *o {
            Some(s) => final(out)@ == old(out)@ + enc_opt_str(Some(s@)),
            None => final(out)@ == old(out)@ + enc_opt_str(None),
        }),
{
    match o {
        Some(s) => enc_push_str(out, s.as_str()),
        None => {
            out.append("null");
        },
    }
}

use crate::dns::{DnsQueryResult, DnsRecord};
use crate::ping::PingResult;
use crate::tcping::TcpingResult;
use crate::traceroute::{Hop, TracerouteResult};
use crate::website::WebsiteTestResult;

/// The wire fields of an echo-run result.
pub struct PingWire {
    pub host: Seq<char>,
    pub ip: Seq<char>,
    pub packet_loss: u32,
    pub min_rtt_micros: u64,
    pub max_rtt_micros: u64,
    pub avg_rtt_micros: u64,
    pub packets_sent: u32,
    pub packets_received: u32,
    pub timestamp_ms: u64,
}

/// The wire fields a value of this kind carries.
pub open spec fn ping_wire_of(r: PingResult) -> PingWire {
    PingWire {
        host: r.host@,
        ip: r.ip@,
        packet_loss: r.packet_loss,
        min_rtt_micros: r.min_rtt_micros,
        max_rtt_micros: r.max_rtt_micros,
        avg_rtt_micros: r.avg_rtt_micros,
        packets_sent: r.packets_sent,
        packets_received: r.packets_received,
        timestamp_ms: r.timestamp_ms,
    }
}

/// One stretch of the canonical wire text.
pub open spec fn enc_ping_c1(w: PingWire) -> Seq<char> {
    "{\"host\":"@ + (enc_str(w.host) + (",\"ip\":"@ + (enc_str(w.ip) + (",\"packet_loss\":"@ + (spec_udec(w.packet_loss as nat))))))
}

/// One stretch of the canonical wire text.
pub open spec fn enc_ping_c2(w: PingWire) -> Seq<char> {
    ",\"min_rtt_micros\":"@ + (spec_udec(w.min_rtt_micros as nat) + (",\"max_rtt_micros\":"@ + (spec_udec(w.max_rtt_micros as nat) + (",\"avg_rtt_micros\":"@ + (spec_udec(w.avg_rtt_micros as nat))))))
}

/// One stretch of the canonical wire text.
pub open spec fn enc_ping_c3(w: PingWire) -> Seq<char> {
    ",\"packets_sent\":"@ + (spec_udec(w.packets_sent as nat) + (",\"packets_received\":"@ + (spec_udec(w.packets_received as nat) + (",\"timestamp_ms\":"@ + (spec_udec(w.timestamp_ms as nat) + ("}"@))))))
}

/// Canonical wire text of an echo-run result.
pub open spec fn enc_ping(w: PingWire) -> Seq<char> {
    enc_ping_c1(w) + (enc_ping_c2(w) + (enc_ping_c3(w)))
}

/// Parse one stretch of the canonical wire text.
pub open spec fn sp_ping_c1(t: Seq<char>, pos: int) -> Option<((Seq<char>, Seq<char>, u32), int)> {
    match sp_lit(t, pos, "{\"host\":"@) {
        None => None,
        Some(q1) => match sp_string(t, q1) {
            None => None,
            Some((v0, q2)) => match sp_lit(t, q2, ",\"ip\":"@) {
                None => None,
                Some(q3) => match sp_string(t, q3) {
                    None => None,
                    Some((v1, q4)) => match sp_lit(t, q4, ",\"packet_loss\":"@) {
                        None => None,
                        Some(q5) => match sp_u64(t, q5) {
                            None => None,
                            Some((v2, q6)) => if v2 <= 0xffff_ffffu64 {
                                Some(((v0, v1, v2 as u32), q6))
                            } else {
                                None
                            },
                        },
                    },
                },
            },
        },
    }
}

/// Parse one stretch of the canonical wire text.
pub open spec fn sp_ping_c2(t: Seq<char>, pos: int) -> Option<((u64, u64, u64), int)> {
    match sp_lit(t, pos, ",\"min_rtt_micros\":"@) {
        None => None,
        Some(q1) => match sp_u64(t, q1) {
            None => None,
            Some((v0, q2)) => match sp_lit(t, q2, ",\"max_rtt_micros\":"@) {
                None => None,
                Some(q3) => match sp_u64(t, q3) {
                    None => None,
                    Some((v1, q4)) => match sp_lit(t, q4, ",\"avg_rtt_micros\":"@) {
                        None => None,
                        Some(q5) => match sp_u64(t, q5) {
                            None => None,
                            Some((v2, q6)) => Some(((v0, v1, v2), q6)),
                        },
                    },
                },
            },
        },
    }
}

/// Parse one stretch of the canonical wire text.
pub open spec fn sp_ping_c3(t: Seq<char>, pos: int) -> Option<((u32, u32, u64), int)> {
    match sp_lit(t, pos, ",\"packets_sent\":"@) {
        None => None,
        Some(q1) => match sp_u64(t, q1) {
            None => None,
            Some((v0, q2)) => if v0 <= 0xffff_ffffu64 {
                match sp_lit(t, q2, ",\"packets_received\":"@) {
                    None => None,
                    Some(q3) => match sp_u64(t, q3) {
                        None => None,
                        Some((v1, q4)) => if v1 <= 0xffff_ffffu64 {
                            match sp_lit(t, q4, ",\"timestamp_ms\":"@) {
                                None => None,
                                Some(q5) => match sp_u64(t, q5) {
                                    None => None,
                                    Some((v2, q6)) => match sp_lit(t, q6, "}"@) {
                                        None => None,
                                        Some(e) => Some(((v0 as u32, v1 as u32, v2), e)),
                                    },
                                },
                            }
                        } else {
                            None
                        },
                    },
                }
            } else {
                None
            },
        },
    }
}

/// Parse the canonical wire text of an echo-run result at `pos`.
pub open spec fn sp_ping_at(t: Seq<char>, pos: int) -> Option<(PingWire, int)> {
    match sp_ping_c1(t, pos) {
        None => None,
        Some(((host, ip, packet_loss), p1)) => match sp_ping_c2(t, p1) {
            None => None,
            Some(((min_rtt_micros, max_rtt_micros, avg_rtt_micros), p2)) => match sp_ping_c3(t, p2) {
                None => None,
                Some(((packets_sent, packets_received, timestamp_ms), p3)) => Some((PingWire {
                        host,
                        ip,
                        packet_loss,
                        min_rtt_micros,
                        max_rtt_micros,
                        avg_rtt_micros,
                        packets_sent,
                        packets_received,
                        timestamp_ms,
                    }, p3)),
            },
        },
    }
}

/// Parse the canonical wire text of an echo-run result, whole.
pub open spec fn sp_ping(t: Seq<char>) -> Option<PingWire> {
    match sp_ping_at(t, 0) {
        None => None,
        Some((w, e)) => if e == t.len() {
            Some(w)
        } else {
            None
        },
    }
}

/// The wire text of this kind opens with its brace.
#[verifier::rlimit(75)]
pub proof fn lemma_enc_ping_first(w: PingWire)
    ensures
        enc_ping(w).len() > 0,
        enc_ping(w)[0] == '{',
{
    reveal_strlit("{\"host\":");
    assert(enc_ping(w)[0] == "{\"host\":"@[0]);
}

/// One stretch written at `pos` parses back from there.
#[verifier::rlimit(75)]
pub proof fn lemma_ping_c1_inverts(t: Seq<char>, pos: int, w: PingWire, rest: Seq<char>)
    requires
        0 <= pos <= t.len(),
        t.subrange(pos, t.len() as int) == enc_ping_c1(w) + rest,
        rest.len() > 0 && rest[0] == ',',
    ensures
        sp_ping_c1(t, pos) == Some(((w.host, w.ip, w.packet_loss), pos + enc_ping_c1(w).len())),
        t.subrange(pos + enc_ping_c1(w).len(), t.len() as int) == rest,
        pos + enc_ping_c1(w).len() + rest.len() == t.len(),
{
    assert(t.subrange(pos, t.len() as int) == "{\"host\":"@ + (enc_str(w.host) + (",\"ip\":"@ + (enc_str(w.ip) + (",\"packet_loss\":"@ + (spec_udec(w.packet_loss as nat) + (rest))))))) by {
        assert(enc_ping_c1(w) + rest =~= "{\"host\":"@ + (enc_str(w.host) + (",\"ip\":"@ + (enc_str(w.ip) + (",\"packet_loss\":"@ + (spec_udec(w.packet_loss as nat) + (rest)))))));
    }
    lemma_sp_lit_inverts(t, pos, "{\"host\":"@, enc_str(w.host) + (",\"ip\":"@ + (enc_str(w.ip) + (",\"packet_loss\":"@ + (spec_udec(w.packet_loss as nat) + (rest))))));
    lemma_sp_string_inverts(t, (pos + "{\"host\":"@.len()), w.host, ",\"ip\":"@ + (enc_str(w.ip) + (",\"packet_loss\":"@ + (spec_udec(w.packet_loss as nat) + (rest)))));
    lemma_sp_lit_inverts(t, ((pos + "{\"host\":"@.len()) + enc_str(w.host).len()), ",\"ip\":"@, enc_str(w.ip) + (",\"packet_loss\":"@ + (spec_udec(w.packet_loss as nat) + (rest))));
    lemma_sp_string_inverts(t, (((pos + "{\"host\":"@.len()) + enc_str(w.host).len()) + ",\"ip\":"@.len()), w.ip, ",\"packet_loss\":"@ + (spec_udec(w.packet_loss as nat) + (rest)));
    lemma_sp_lit_inverts(t, ((((pos + "{\"host\":"@.len()) + enc_str(w.host).len()) + ",\"ip\":"@.len()) + enc_str(w.ip).len()), ",\"packet_loss\":"@, spec_udec(w.packet_loss as nat) + (rest));
    lemma_sp_num_inverts(t, (((((pos + "{\"host\":"@.len()) + enc_str(w.host).len()) + ",\"ip\":"@.len()) + enc_str(w.ip).len()) + ",\"packet_loss\":"@.len()), w.packet_loss as u64, rest);
}

/// One stretch written at `pos` parses back from there.
#[verifier::rlimit(75)]
pub proof fn lemma_ping_c2_inverts(t: Seq<char>, pos: int, w: PingWire, rest: Seq<char>)
    requires
        0 <= pos <= t.len(),
        t.subrange(pos, t.len() as int) == enc_ping_c2(w) + rest,
        rest.len() > 0 && rest[0] == ',',
    ensures
        sp_ping_c2(t, pos) == Some(((w.min_rtt_micros, w.max_rtt_micros, w.avg_rtt_micros), pos + enc_ping_c2(w).len())),
        t.subrange(pos + enc_ping_c2(w).len(), t.len() as int) == rest,
        pos + enc_ping_c2(w).len() + rest.len() == t.len(),
{
    assert(t.subrange(pos, t.len() as int) == ",\"min_rtt_micros\":"@ + (spec_udec(w.min_rtt_micros as nat) + (",\"max_rtt_micros\":"@ + (spec_udec(w.max_rtt_micros as nat) + (",\"avg_rtt_micros\":"@ + (spec_udec(w.avg_rtt_micros as nat) + (rest))))))) by {
        assert(enc_ping_c2(w) + rest =~= ",\"min_rtt_micros\":"@ + (spec_udec(w.min_rtt_micros as nat) + (",\"max_rtt_micros\":"@ + (spec_udec(w.max_rtt_micros as nat) + (",\"avg_rtt_micros\":"@ + (spec_udec(w.avg_rtt_micros as nat) + (rest)))))));
    }
    lemma_sp_lit_inverts(t, pos, ",\"min_rtt_micros\":"@, spec_udec(w.min_rtt_micros as nat) + (",\"max_rtt_micros\":"@ + (spec_udec(w.max_rtt_micros as nat) + (",\"avg_rtt_micros\":"@ + (spec_udec(w.avg_rtt_micros as nat) + (rest))))));
    assert((",\"max_rtt_micros\":"@ + (spec_udec(w.max_rtt_micros as nat) + (",\"avg_rtt_micros\":"@ + (spec_udec(w.avg_rtt_micros as nat) + (rest)))))[0] == ',') by {
        reveal_strlit(",\"max_rtt_micros\":");
    }
    lemma_sp_num_inverts(t, (pos + ",\"min_rtt_micros\":"@.len()), w.min_rtt_micros, ",\"max_rtt_micros\":"@ + (spec_udec(w.max_rtt_micros as nat) + (",\"avg_rtt_micros\":"@ + (spec_udec(w.avg_rtt_micros as nat) + (rest)))));
    lemma_sp_lit_inverts(t, ((pos + ",\"min_rtt_micros\":"@.len()) + spec_udec(w.min_rtt_micros as nat).len()), ",\"max_rtt_micros\":"@, spec_udec(w.max_rtt_micros as nat) + (",\"avg_rtt_micros\":"@ + (spec_udec(w.avg_rtt_micros as nat) + (rest))));
    assert((",\"avg_rtt_micros\":"@ + (spec_udec(w.avg_rtt_micros as nat) + (rest)))[0] == ',') by {
        reveal_strlit(",\"avg_rtt_micros\":");
    }
    lemma_sp_num_inverts(t, (((pos + ",\"min_rtt_micros\":"@.len()) + spec_udec(w.min_rtt_micros as nat).len()) + ",\"max_rtt_micros\":"@.len()), w.max_rtt_micros, ",\"avg_rtt_micros\":"@ + (spec_udec(w.avg_rtt_micros as nat) + (rest)));
    lemma_sp_lit_inverts(t, ((((pos + ",\"min_rtt_micros\":"@.len()) + spec_udec(w.min_rtt_micros as nat).len()) + ",\"max_rtt_micros\":"@.len()) + spec_udec(w.max_rtt_micros as nat).len()), ",\"avg_rtt_micros\":"@, spec_udec(w.avg_rtt_micros as nat) + (rest));
    lemma_sp_num_inverts(t, (((((pos + ",\"min_rtt_micros\":"@.len()) + spec_udec(w.min_rtt_micros as nat).len()) + ",\"max_rtt_micros\":"@.len()) + spec_udec(w.max_rtt_micros as nat).len()) + ",\"avg_rtt_micros\":"@.len()), w.avg_rtt_micros, rest);
}

/// One stretch written at `pos` parses back from there.
#[verifier::rlimit(75)]
pub proof fn lemma_ping_c3_inverts(t: Seq<char>, pos: int, w: PingWire, rest: Seq<char>)
    requires
        0 <= pos <= t.len(),
        t.subrange(pos, t.len() as int) == enc_ping_c3(w) + rest,
    ensures
        sp_ping_c3(t, pos) == Some(((w.packets_sent, w.packets_received, w.timestamp_ms), pos + enc_ping_c3(w).len())),
        t.subrange(pos + enc_ping_c3(w).len(), t.len() as int) == rest,
        pos + enc_ping_c3(w).len() + rest.len() == t.len(),
{
    assert(t.subrange(pos, t.len() as int) == ",\"packets_sent\":"@ + (spec_udec(w.packets_sent as nat) + (",\"packets_received\":"@ + (spec_udec(w.packets_received as nat) + (",\"timestamp_ms\":"@ + (spec_udec(w.timestamp_ms as nat) + ("}"@ + (rest)))))))) by {
        assert(enc_ping_c3(w) + rest =~= ",\"packets_sent\":"@ + (spec_udec(w.packets_sent as nat) + (",\"packets_received\":"@ + (spec_udec(w.packets_received as nat) + (",\"timestamp_ms\":"@ + (spec_udec(w.timestamp_ms as nat) + ("}"@ + (rest))))))));
    }
    lemma_sp_lit_inverts(t, pos, ",\"packets_sent\":"@, spec_udec(w.packets_sent as nat) + (",\"packets_received\":"@ + (spec_udec(w.packets_received as nat) + (",\"timestamp_ms\":"@ + (spec_udec(w.timestamp_ms as nat) + ("}"@ + (rest)))))));
    assert((",\"packets_received\":"@ + (spec_udec(w.packets_received as nat) + (",\"timestamp_ms\":"@ + (spec_udec(w.timestamp_ms as nat) + ("}"@ + (rest))))))[0] == ',') by {
        reveal_strlit(",\"packets_received\":");
    }
    lemma_sp_num_inverts(t, (pos + ",\"packets_sent\":"@.len()), w.packets_sent as u64, ",\"packets_received\":"@ + (spec_udec(w.packets_received as nat) + (",\"timestamp_ms\":"@ + (spec_udec(w.timestamp_ms as nat) + ("}"@ + (rest))))));
    lemma_sp_lit_inverts(t, ((pos + ",\"packets_sent\":"@.len()) + spec_udec(w.packets_sent as nat).len()), ",\"packets_received\":"@, spec_udec(w.packets_received as nat) + (",\"timestamp_ms\":"@ + (spec_udec(w.timestamp_ms as nat) + ("}"@ + (rest)))));
    assert((",\"timestamp_ms\":"@ + (spec_udec(w.timestamp_ms as nat) + ("}"@ + (rest))))[0] == ',') by {
        reveal_strlit(",\"timestamp_ms\":");
    }
    lemma_sp_num_inverts(t, (((pos + ",\"packets_sent\":"@.len()) + spec_udec(w.packets_sent as nat).len()) + ",\"packets_received\":"@.len()), w.packets_received as u64, ",\"timestamp_ms\":"@ + (spec_udec(w.timestamp_ms as nat) + ("}"@ + (rest))));
    lemma_sp_lit_inverts(t, ((((pos + ",\"packets_sent\":"@.len()) + spec_udec(w.packets_sent as nat).len()) + ",\"packets_received\":"@.len()) + spec_udec(w.packets_received as nat).len()), ",\"timestamp_ms\":"@, spec_udec(w.timestamp_ms as nat) + ("}"@ + (rest)));
    assert(("}"@ + (rest))[0] == '}') by {
        reveal_strlit("}");
    }
    lemma_sp_num_inverts(t, (((((pos + ",\"packets_sent\":"@.len()) + spec_udec(w.packets_sent as nat).len()) + ",\"packets_received\":"@.len()) + spec_udec(w.packets_received as nat).len()) + ",\"timestamp_ms\":"@.len()), w.timestamp_ms, "}"@ + (rest));
    lemma_sp_lit_inverts(t, ((((((pos + ",\"packets_sent\":"@.len()) + spec_udec(w.packets_sent as nat).len()) + ",\"packets_received\":"@.len()) + spec_udec(w.packets_received as nat).len()) + ",\"timestamp_ms\":"@.len()) + spec_udec(w.timestamp_ms as nat).len()), "}"@, rest);
}

/// The wire text of this kind written at `pos` parses back from there.
#[verifier::rlimit(75)]
pub proof fn lemma_ping_at_inverts(t: Seq<char>, pos: int, w: PingWire, rest: Seq<char>)
    requires
        0 <= pos <= t.len(),
        t.subrange(pos, t.len() as int) == enc_ping(w) + rest,
    ensures
        sp_ping_at(t, pos) == Some((w, pos + enc_ping(w).len())),
        t.subrange(pos + enc_ping(w).len(), t.len() as int) == rest,
        pos + enc_ping(w).len() + rest.len() == t.len(),
{
    assert(t.subrange(pos, t.len() as int) == enc_ping_c1(w) + (enc_ping_c2(w) + (enc_ping_c3(w) + (rest)))) by {
        assert(enc_ping(w) + rest =~= enc_ping_c1(w) + (enc_ping_c2(w) + (enc_ping_c3(w) + (rest))));
    }
    reveal_strlit(",\"min_rtt_micros\":");
    assert((enc_ping_c2(w) + (enc_ping_c3(w) + (rest)))[0] == ",\"min_rtt_micros\":"@[0]) by {
        assert(enc_ping_c2(w)[0] == ",\"min_rtt_micros\":"@[0]);
    }
    lemma_ping_c1_inverts(t, pos, w, enc_ping_c2(w) + (enc_ping_c3(w) + (rest)));
    reveal_strlit(",\"packets_sent\":");
    assert((enc_ping_c3(w) + (rest))[0] == ",\"packets_sent\":"@[0]) by {
        assert(enc_ping_c3(w)[0] == ",\"packets_sent\":"@[0]);
    }
    lemma_ping_c2_inverts(t, (pos + enc_ping_c1(w).len()), w, enc_ping_c3(w) + (rest));
    lemma_ping_c3_inverts(t, ((pos + enc_ping_c1(w).len()) + enc_ping_c2(w).len()), w, rest);
}

/// Round trip: decoding the canonical wire text of an echo-run result
/// gives back every field.
#[verifier::rlimit(75)]
pub proof fn lemma_ping_round_trip(w: PingWire)
    ensures
        sp_ping(enc_ping(w)) == Some(w),
{
    let t = enc_ping(w);
    assert(t.subrange(0, t.len() as int) == enc_ping(w) + Seq::<char>::empty()) by {
        assert(t.subrange(0, t.len() as int) =~= enc_ping(w) + Seq::<char>::empty());
    }
    lemma_ping_at_inverts(t, 0, w, Seq::<char>::empty());
}

/// Append one stretch of the canonical wire text.
fn enc_ping_c1_push(out: &mut String, r: &PingResult)
    ensures
        final(out)@ == old(out)@ + enc_ping_c1(ping_wire_of(*r)),
{
    out.append("{\"host\":");
    enc_push_str(out, r.host.as_str());
    out.append(",\"ip\":");
    enc_push_str(out, r.ip.as_str());
    out.append(",\"packet_loss\":");
    enc_push_u64(out, r.packet_loss as u64);
    proof {
        assert(out@ =~= old(out)@ + enc_ping_c1(ping_wire_of(*r)));
    }
}

/// Append one stretch of the canonical wire text.
fn enc_ping_c2_push(out: &mut String, r: &PingResult)
    ensures
        final(out)@ == old(out)@ + enc_ping_c2(ping_wire_of(*r)),
{
    out.append(",\"min_rtt_micros\":");
    enc_push_u64(out, r.min_rtt_micros);
    out.append(",\"max_rtt_micros\":");
    enc_push_u64(out, r.max_rtt_micros);
    out.append(",\"avg_rtt_micros\":");
    enc_push_u64(out, r.avg_rtt_micros);
    proof {
        assert(out@ =~= old(out)@ + enc_ping_c2(ping_wire_of(*r)));
    }
}

/// Append one stretch of the canonical wire text.
fn enc_ping_c3_push(out: &mut String, r: &PingResult)
    ensures
        final(out)@ == old(out)@ + enc_ping_c3(ping_wire_of(*r)),
{
    out.append(",\"packets_sent\":");
    enc_push_u64(out, r.packets_sent as u64);
    out.append(",\"packets_received\":");
    enc_push_u64(out, r.packets_received as u64);
    out.append(",\"timestamp_ms\":");
    enc_push_u64(out, r.timestamp_ms);
    out.append("}");
    proof {
        assert(out@ =~= old(out)@ + enc_ping_c3(ping_wire_of(*r)));
    }
}

/// Append the canonical wire text of an echo-run result.
pub fn enc_ping_push(out: &mut String, r: &PingResult)
    ensures
        final(out)@ == old(out)@ + enc_ping(ping_wire_of(*r)),
{
    enc_ping_c1_push(out, r);
    enc_ping_c2_push(out, r);
    enc_ping_c3_push(out, r);
    proof {
        assert(out@ =~= old(out)@ + enc_ping(ping_wire_of(*r)));
    }
}

/// Render an echo-run result in its canonical wire form.
pub fn encode_ping(r: &PingResult) -> (out: String)
    ensures
        out@ == enc_ping(ping_wire_of(*r)),
{
    let mut out = String::new();
    enc_ping_push(&mut out, r);
    out
}

/// Decode the canonical wire form of an echo-run result at `pos`.
pub fn decode_ping_at(t: &str, pos: usize) -> (r: Option<(PingResult, usize)>)
    ensures
        (match sp_ping_at(t@, pos as int) {
            Some((w, e)) => {
                &&& r matches Some(p)
                &&& ping_wire_of(r.unwrap().0) == w
                &&& r.unwrap().1 == e
                &&& pos < e <= t@.len()
            },
            None => r is None,
        }),
{
    let a0 = match parse_lit(t, pos, "{\"host\":") {
        Some(p) => p,
        None => {
            return None;
        },
    };
    let (b0, b0_end) = match parse_string(t, a0) {
        Some(p) => p,
        None => {
            return None;
        },
    };
    let a1 = match parse_lit(t, b0_end, ",\"ip\":") {
        Some(p) => p,
        None => {
            return None;
        },
    };
    let (b1, b1_end) = match parse_string(t, a1) {
        Some(p) => p,
        None => {
            return None;
        },
    };
    let a2 = match parse_lit(t, b1_end, ",\"packet_loss\":") {
        Some(p) => p,
        None => {
            return None;
        },
    };
    let (b2, b2_end) = match parse_u64(t, a2) {
        Some(p) => p,
        None => {
            return None;
        },
    };
    if b2 > 0xffff_ffffu64 {
        return None;
    }
    let a3 = match parse_lit(t, b2_end, ",\"min_rtt_micros\":") {
        Some(p) => p,
        None => {
            return None;
        },
    };
    let (b3, b3_end) = match parse_u64(t, a3) {
        Some(p) => p,
        None => {
            return None;
        },
    };
    let a4 = match parse_lit(t, b3_end, ",\"max_rtt_micros\":") {
        Some(p) => p,
        None => {
            return None;
        },
    };
    let (b4, b4_end) = match parse_u64(t, a4) {
        Some(p) => p,
        None => {
            return None;
        },
    };
    let a5 = match parse_lit(t, b4_end, ",\"avg_rtt_micros\":") {
        Some(p) => p,
        None => {
            return None;
        },
    };
    let (b5, b5_end) = match parse_u64(t, a5) {
        Some(p) => p,
        None => {
            return None;
        },
    };
    let a6 = match parse_lit(t, b5_end, ",\"packets_sent\":") {
        Some(p) => p,
        None => {
            return None;
        },
    };
    let (b6, b6_end) = match parse_u64(t, a6) {
        Some(p) => p,
        None => {
            return None;
        },
    };
    if b6 > 0xffff_ffffu64 {
        return None;
    }
    let a7 = match parse_lit(t, b6_end, ",\"packets_received\":") {
        Some(p) => p,
        None => {
            return None;
        },
    };
    let (b7, b7_end) = match parse_u64(t, a7) {
        Some(p) => p,
        None => {
            return None;
        },
    };
    if b7 > 0xffff_ffffu64 {
        return None;
    }
    let a8 = match parse_lit(t, b7_end, ",\"timestamp_ms\":") {
        Some(p) => p,
        None => {
            return None;
        },
    };
    let (b8, b8_end) = match parse_u64(t, a8) {
        Some(p) => p,
        None => {
            return None;
        },
    };
    let e = match parse_lit(t, b8_end, "}") {
        Some(p) => p,
        None => {
            return None;
        },
    };
    Some((
        PingResult {
            host: b0,
            ip: b1,
            packet_loss: b2 as u32,
            min_rtt_micros: b3,
            max_rtt_micros: b4,
            avg_rtt_micros: b5,
            packets_sent: b6 as u32,
            packets_received: b7 as u32,
            timestamp_ms: b8,
        },
        e,
    ))
}

/// Decode the canonical wire form of an echo-run result, whole.
pub fn decode_ping(t: &str) -> (r: Option<PingResult>)
    ensures
        (match sp_ping(t@) {
            Some(w) => r matches Some(x) && ping_wire_of(r.unwrap()) == w,
            None => r is None,
        }),
{
    match decode_ping_at(t, 0) {
        Some((x, e)) => {
            if e == t.unicode_len() {
                Some(x)
            } else {
                None
            }
        },
        None => None,
    }
}

/// The wire fields of a TCP connect-run result.
pub struct TcpingWire {
    pub host: Seq<char>,
    pub port: u16,
    pub ip: Seq<char>,
    pub success: bool,
    pub avg_rtt_micros: u64,
    pub min_rtt_micros: u64,
    pub max_rtt_micros: u64,
    pub attempts: u32,
    pub successful_attempts: u32,
    pub packet_loss: u32,
    pub timestamp_ms: u64,
}

/// The wire fields a value of this kind carries.
pub open spec fn tcping_wire_of(r: TcpingResult) -> TcpingWire {
    TcpingWire {
        host: r.host@,
        port: r.port,
        ip: r.ip@,
        success: r.success,
        avg_rtt_micros: r.avg_rtt_micros,
        min_rtt_micros: r.min_rtt_micros,
        max_rtt_micros: r.max_rtt_micros,
        attempts: r.attempts,
        successful_attempts: r.successful_attempts,
        packet_loss: r.packet_loss,
        timestamp_ms: r.timestamp_ms,
    }
}

/// One stretch of the canonical wire text.
pub open spec fn enc_tcping_c1(w: TcpingWire) -> Seq<char> {
    "{\"host\":"@ + (enc_str(w.host) + (",\"port\":"@ + (spec_udec(w.port as nat) + (",\"ip\":"@ + (enc_str(w.ip))))))
}

/// One stretch of the canonical wire text.
pub open spec fn enc_tcping_c2(w: TcpingWire) -> Seq<char> {
    ",\"success\":"@ + (enc_bool(w.success) + (",\"avg_rtt_micros\":"@ + (spec_udec(w.avg_rtt_micros as nat) + (",\"min_rtt_micros\":"@ + (spec_udec(w.min_rtt_micros as nat))))))
}

/// One stretch of the canonical wire text.
pub open spec fn enc_tcping_c3(w: TcpingWire) -> Seq<char> {
    ",\"max_rtt_micros\":"@ + (spec_udec(w.max_rtt_micros as nat) + (",\"attempts\":"@ + (spec_udec(w.attempts as nat) + (",\"successful_attempts\":"@ + (spec_udec(w.successful_attempts as nat))))))
}

/// One stretch of the canonical wire text.
pub open spec fn enc_tcping_c4(w: TcpingWire) -> Seq<char> {
    ",\"packet_loss\":"@ + (spec_udec(w.packet_loss as nat) + (",\"timestamp_ms\":"@ + (spec_udec(w.timestamp_ms as nat) + ("}"@))))
}

/// Canonical wire text of a TCP connect-run result.
pub open spec fn enc_tcping(w: TcpingWire) -> Seq<char> {
    enc_tcping_c1(w) + (enc_tcping_c2(w) + (enc_tcping_c3(w) + (enc_tcping_c4(w))))
}

/// Parse one stretch of the canonical wire text.
pub open spec fn sp_tcping_c1(t: Seq<char>, pos: int) -> Option<((Seq<char>, u16, Seq<char>), int)> {
    match sp_lit(t, pos, "{\"host\":"@) {
        None => None,
        Some(q1) => match sp_string(t, q1) {
            None => None,
            Some((v0, q2)) => match sp_lit(t, q2, ",\"port\":"@) {
                None => None,
                Some(q3) => match sp_u64(t, q3) {
                    None => None,
                    Some((v1, q4)) => if v1 <= 0xffffu64 {
                        match sp_lit(t, q4, ",\"ip\":"@) {
                            None => None,
                            Some(q5) => match sp_string(t, q5) {
                                None => None,
                                Some((v2, q6)) => Some(((v0, v1 as u16, v2), q6)),
                            },
                        }
                    } else {
                        None
                    },
                },
            },
        },
    }
}

/// Parse one stretch of the canonical wire text.
pub open spec fn sp_tcping_c2(t: Seq<char>, pos: int) -> Option<((bool, u64, u64), int)> {
    match sp_lit(t, pos, ",\"success\":"@) {
        None => None,
        Some(q1) => match sp_bool(t, q1) {
            None => None,
            Some((v0, q2)) => match sp_lit(t, q2, ",\"avg_rtt_micros\":"@) {
                None => None,
                Some(q3) => match sp_u64(t, q3) {
                    None => None,
                    Some((v1, q4)) => match sp_lit(t, q4, ",\"min_rtt_micros\":"@) {
                        None => None,
                        Some(q5) => match sp_u64(t, q5) {
                            None => None,
                            Some((v2, q6)) => Some(((v0, v1, v2), q6)),
                        },
                    },
                },
            },
        },
    }
}

/// Parse one stretch of the canonical wire text.
pub open spec fn sp_tcping_c3(t: Seq<char>, pos: int) -> Option<((u64, u32, u32), int)> {
    match sp_lit(t, pos, ",\"max_rtt_micros\":"@) {
        None => None,
        Some(q1) => match sp_u64(t, q1) {
            None => None,
            Some((v0, q2)) => match sp_lit(t, q2, ",\"attempts\":"@) {
                None => None,
                Some(q3) => match sp_u64(t, q3) {
                    None => None,
                    Some((v1, q4)) => if v1 <= 0xffff_ffffu64 {
                        match sp_lit(t, q4, ",\"successful_attempts\":"@) {
                            None => None,
                            Some(q5) => match sp_u64(t, q5) {
                                None => None,
                                Some((v2, q6)) => if v2 <= 0xffff_ffffu64 {
                                    Some(((v0, v1 as u32, v2 as u32), q6))
                                } else {
                                    None
                                },
                            },
                        }
                    } else {
                        None
                    },
                },
            },
        },
    }
}

/// Parse one stretch of the canonical wire text.
pub open spec fn sp_tcping_c4(t: Seq<char>, pos: int) -> Option<((u32, u64), int)> {
    match sp_lit(t, pos, ",\"packet_loss\":"@) {
        None => None,
        Some(q1) => match sp_u64(t, q1) {
            None => None,
            Some((v0, q2)) => if v0 <= 0xffff_ffffu64 {
                match sp_lit(t, q2, ",\"timestamp_ms\":"@) {
                    None => None,
                    Some(q3) => match sp_u64(t, q3) {
                        None => None,
                        Some((v1, q4)) => match sp_lit(t, q4, "}"@) {
                            None => None,
                            Some(e) => Some(((v0 as u32, v1), e)),
                        },
                    },
                }
            } else {
                None
            },
        },
    }
}

/// Parse the canonical wire text of a TCP connect-run result at `pos`.
pub open spec fn sp_tcping_at(t: Seq<char>, pos: int) -> Option<(TcpingWire, int)> {
    match sp_tcping_c1(t, pos) {
        None => None,
        Some(((host, port, ip), p1)) => match sp_tcping_c2(t, p1) {
            None => None,
            Some(((success, avg_rtt_micros, min_rtt_micros), p2)) => match sp_tcping_c3(t, p2) {
                None => None,
                Some(((max_rtt_micros, attempts, successful_attempts), p3)) => match sp_tcping_c4(t, p3) {
                    None => None,
                    Some(((packet_loss, timestamp_ms), p4)) => Some((TcpingWire {
                            host,
                            port,
                            ip,
                            success,
                            avg_rtt_micros,
                            min_rtt_micros,
                            max_rtt_micros,
                            attempts,
                            successful_attempts,
                            packet_loss,
                            timestamp_ms,
                        }, p4)),
                },
            },
        },
    }
}

/// Parse the canonical wire text of a TCP connect-run result, whole.
pub open spec fn sp_tcping(t: Seq<char>) -> Option<TcpingWire> {
    match sp_tcping_at(t, 0) {
        None => None,
        Some((w, e)) => if e == t.len() {
            Some(w)
        } else {
            None
        },
    }
}

/// The wire text of this kind opens with its brace.
#[verifier::rlimit(75)]
pub proof fn lemma_enc_tcping_first(w: TcpingWire)
    ensures
        enc_tcping(w).len() > 0,
        enc_tcping(w)[0] == '{',
{
    reveal_strlit("{\"host\":");
    assert(enc_tcping(w)[0] == "{\"host\":"@[0]);
}

/// One stretch written at `pos` parses back from there.
#[verifier::rlimit(75)]
pub proof fn lemma_tcping_c1_inverts(t: Seq<char>, pos: int, w: TcpingWire, rest: Seq<char>)
    requires
        0 <= pos <= t.len(),
        t.subrange(pos, t.len() as int) == enc_tcping_c1(w) + rest,
        rest.len() > 0 && rest[0] == ',',
    ensures
        sp_tcping_c1(t, pos) == Some(((w.host, w.port, w.ip), pos + enc_tcping_c1(w).len())),
        t.subrange(pos + enc_tcping_c1(w).len(), t.len() as int) == rest,
        pos + enc_tcping_c1(w).len() + rest.len() == t.len(),
{
    assert(t.subrange(pos, t.len() as int) == "{\"host\":"@ + (enc_str(w.host) + (",\"port\":"@ + (spec_udec(w.port as nat) + (",\"ip\":"@ + (enc_str(w.ip) + (rest))))))) by {
        assert(enc_tcping_c1(w) + rest =~= "{\"host\":"@ + (enc_str(w.host) + (",\"port\":"@ + (spec_udec(w.port as nat) + (",\"ip\":"@ + (enc_str(w.ip) + (rest)))))));
    }
    lemma_sp_lit_inverts(t, pos, "{\"host\":"@, enc_str(w.host) + (",\"port\":"@ + (spec_udec(w.port as nat) + (",\"ip\":"@ + (enc_str(w.ip) + (rest))))));
    lemma_sp_string_inverts(t, (pos + "{\"host\":"@.len()), w.host, ",\"port\":"@ + (spec_udec(w.port as nat) + (",\"ip\":"@ + (enc_str(w.ip) + (rest)))));
    lemma_sp_lit_inverts(t, ((pos + "{\"host\":"@.len()) + enc_str(w.host).len()), ",\"port\":"@, spec_udec(w.port as nat) + (",\"ip\":"@ + (enc_str(w.ip) + (rest))));
    assert((",\"ip\":"@ + (enc_str(w.ip) + (rest)))[0] == ',') by {
        reveal_strlit(",\"ip\":");
    }
    lemma_sp_num_inverts(t, (((pos + "{\"host\":"@.len()) + enc_str(w.host).len()) + ",\"port\":"@.len()), w.port as u64, ",\"ip\":"@ + (enc_str(w.ip) + (rest)));
    lemma_sp_lit_inverts(t, ((((pos + "{\"host\":"@.len()) + enc_str(w.host).len()) + ",\"port\":"@.len()) + spec_udec(w.port as nat).len()), ",\"ip\":"@, enc_str(w.ip) + (rest));
    lemma_sp_string_inverts(t, (((((pos + "{\"host\":"@.len()) + enc_str(w.host).len()) + ",\"port\":"@.len()) + spec_udec(w.port as nat).len()) + ",\"ip\":"@.len()), w.ip, rest);
}

/// One stretch written at `pos` parses back from there.
#[verifier::rlimit(75)]
pub proof fn lemma_tcping_c2_inverts(t: Seq<char>, pos: int, w: TcpingWire, rest: Seq<char>)
    requires
        0 <= pos <= t.len(),
        t.subrange(pos, t.len() as int) == enc_tcping_c2(w) + rest,
        rest.len() > 0 && rest[0] == ',',
    ensures
        sp_tcping_c2(t, pos) == Some(((w.success, w.avg_rtt_micros, w.min_rtt_micros), pos + enc_tcping_c2(w).len())),
        t.subrange(pos + enc_tcping_c2(w).len(), t.len() as int) == rest,
        pos + enc_tcping_c2(w).len() + rest.len() == t.len(),
{
    assert(t.subrange(pos, t.len() as int) == ",\"success\":"@ + (enc_bool(w.success) + (",\"avg_rtt_micros\":"@ + (spec_udec(w.avg_rtt_micros as nat) + (",\"min_rtt_micros\":"@ + (spec_udec(w.min_rtt_micros as nat) + (rest))))))) by {
        assert(enc_tcping_c2(w) + rest =~= ",\"success\":"@ + (enc_bool(w.success) + (",\"avg_rtt_micros\":"@ + (spec_udec(w.avg_rtt_micros as nat) + (",\"min_rtt_micros\":"@ + (spec_udec(w.min_rtt_micros as nat) + (rest)))))));
    }
    lemma_sp_lit_inverts(t, pos, ",\"success\":"@, enc_bool(w.success) + (",\"avg_rtt_micros\":"@ + (spec_udec(w.avg_rtt_micros as nat) + (",\"min_rtt_micros\":"@ + (spec_udec(w.min_rtt_micros as nat) + (rest))))));
    lemma_sp_bool_inverts(t, (pos + ",\"success\":"@.len()), w.success, ",\"avg_rtt_micros\":"@ + (spec_udec(w.avg_rtt_micros as nat) + (",\"min_rtt_micros\":"@ + (spec_udec(w.min_rtt_micros as nat) + (rest)))));
    lemma_sp_lit_inverts(t, ((pos + ",\"success\":"@.len()) + enc_bool(w.success).len()), ",\"avg_rtt_micros\":"@, spec_udec(w.avg_rtt_micros as nat) + (",\"min_rtt_micros\":"@ + (spec_udec(w.min_rtt_micros as nat) + (rest))));
    assert((",\"min_rtt_micros\":"@ + (spec_udec(w.min_rtt_micros as nat) + (rest)))[0] == ',') by {
        reveal_strlit(",\"min_rtt_micros\":");
    }
    lemma_sp_num_inverts(t, (((pos + ",\"success\":"@.len()) + enc_bool(w.success).len()) + ",\"avg_rtt_micros\":"@.len()), w.avg_rtt_micros, ",\"min_rtt_micros\":"@ + (spec_udec(w.min_rtt_micros as nat) + (rest)));
    lemma_sp_lit_inverts(t, ((((pos + ",\"success\":"@.len()) + enc_bool(w.success).len()) + ",\"avg_rtt_micros\":"@.len()) + spec_udec(w.avg_rtt_micros as nat).len()), ",\"min_rtt_micros\":"@, spec_udec(w.min_rtt_micros as nat) + (rest));
    lemma_sp_num_inverts(t, (((((pos + ",\"success\":"@.len()) + enc_bool(w.success).len()) + ",\"avg_rtt_micros\":"@.len()) + spec_udec(w.avg_rtt_micros as nat).len()) + ",\"min_rtt_micros\":"@.len()), w.min_rtt_micros, rest);
}

/// One stretch written at `pos` parses back from there.
#[verifier::rlimit(75)]
pub proof fn lemma_tcping_c3_inverts(t: Seq<char>, pos: int, w: TcpingWire, rest: Seq<char>)
    requires
        0 <= pos <= t.len(),
        t.subrange(pos, t.len() as int) == enc_tcping_c3(w) + rest,
        rest.len() > 0 && rest[0] == ',',
    ensures
        sp_tcping_c3(t, pos) == Some(((w.max_rtt_micros, w.attempts, w.successful_attempts), pos + enc_tcping_c3(w).len())),
        t.subrange(pos + enc_tcping_c3(w).len(), t.len() as int) == rest,
        pos + enc_tcping_c3(w).len() + rest.len() == t.len(),
{
    assert(t.subrange(pos, t.len() as int) == ",\"max_rtt_micros\":"@ + (spec_udec(w.max_rtt_micros as nat) + (",\"attempts\":"@ + (spec_udec(w.attempts as nat) + (",\"successful_attempts\":"@ + (spec_udec(w.successful_attempts as nat) + (rest))))))) by {
        assert(enc_tcping_c3(w) + rest =~= ",\"max_rtt_micros\":"@ + (spec_udec(w.max_rtt_micros as nat) + (",\"attempts\":"@ + (spec_udec(w.attempts as nat) + (",\"successful_attempts\":"@ + (spec_udec(w.successful_attempts as nat) + (rest)))))));
    }
    lemma_sp_lit_inverts(t, pos, ",\"max_rtt_micros\":"@, spec_udec(w.max_rtt_micros as nat) + (",\"attempts\":"@ + (spec_udec(w.attempts as nat) + (",\"successful_attempts\":"@ + (spec_udec(w.successful_attempts as nat) + (rest))))));
    assert((",\"attempts\":"@ + (spec_udec(w.attempts as nat) + (",\"successful_attempts\":"@ + (spec_udec(w.successful_attempts as nat) + (rest)))))[0] == ',') by {
        reveal_strlit(",\"attempts\":");
    }
    lemma_sp_num_inverts(t, (pos + ",\"max_rtt_micros\":"@.len()), w.max_rtt_micros, ",\"attempts\":"@ + (spec_udec(w.attempts as nat) + (",\"successful_attempts\":"@ + (spec_udec(w.successful_attempts as nat) + (rest)))));
    lemma_sp_lit_inverts(t, ((pos + ",\"max_rtt_micros\":"@.len()) + spec_udec(w.max_rtt_micros as nat).len()), ",\"attempts\":"@, spec_udec(w.attempts as nat) + (",\"successful_attempts\":"@ + (spec_udec(w.successful_attempts as nat) + (rest))));
    assert((",\"successful_attempts\":"@ + (spec_udec(w.successful_attempts as nat) + (rest)))[0] == ',') by {
        reveal_strlit(",\"successful_attempts\":");
    }
    lemma_sp_num_inverts(t, (((pos + ",\"max_rtt_micros\":"@.len()) + spec_udec(w.max_rtt_micros as nat).len()) + ",\"attempts\":"@.len()), w.attempts as u64, ",\"successful_attempts\":"@ + (spec_udec(w.successful_attempts as nat) + (rest)));
    lemma_sp_lit_inverts(t, ((((pos + ",\"max_rtt_micros\":"@.len()) + spec_udec(w.max_rtt_micros as nat).len()) + ",\"attempts\":"@.len()) + spec_udec(w.attempts as nat).len()), ",\"successful_attempts\":"@, spec_udec(w.successful_attempts as nat) + (rest));
    lemma_sp_num_inverts(t, (((((pos + ",\"max_rtt_micros\":"@.len()) + spec_udec(w.max_rtt_micros as nat).len()) + ",\"attempts\":"@.len()) + spec_udec(w.attempts as nat).len()) + ",\"successful_attempts\":"@.len()), w.successful_attempts as u64, rest);
}

/// One stretch written at `pos` parses back from there.
#[verifier::rlimit(75)]
pub proof fn lemma_tcping_c4_inverts(t: Seq<char>, pos: int, w: TcpingWire, rest: Seq<char>)
    requires
        0 <= pos <= t.len(),
        t.subrange(pos, t.len() as int) == enc_tcping_c4(w) + rest,
    ensures
        sp_tcping_c4(t, pos) == Some(((w.packet_loss, w.timestamp_ms), pos + enc_tcping_c4(w).len())),
        t.subrange(pos + enc_tcping_c4(w).len(), t.len() as int) == rest,
        pos + enc_tcping_c4(w).len() + rest.len() == t.len(),
{
    assert(t.subrange(pos, t.len() as int) == ",\"packet_loss\":"@ + (spec_udec(w.packet_loss as nat) + (",\"timestamp_ms\":"@ + (spec_udec(w.timestamp_ms as nat) + ("}"@ + (rest)))))) by {
        assert(enc_tcping_c4(w) + rest =~= ",\"packet_loss\":"@ + (spec_udec(w.packet_loss as nat) + (",\"timestamp_ms\":"@ + (spec_udec(w.timestamp_ms as nat) + ("}"@ + (rest))))));
    }
    lemma_sp_lit_inverts(t, pos, ",\"packet_loss\":"@, spec_udec(w.packet_loss as nat) + (",\"timestamp_ms\":"@ + (spec_udec(w.timestamp_ms as nat) + ("}"@ + (rest)))));
    assert((",\"timestamp_ms\":"@ + (spec_udec(w.timestamp_ms as nat) + ("}"@ + (rest))))[0] == ',') by {
        reveal_strlit(",\"timestamp_ms\":");
    }
    lemma_sp_num_inverts(t, (pos + ",\"packet_loss\":"@.len()), w.packet_loss as u64, ",\"timestamp_ms\":"@ + (spec_udec(w.timestamp_ms as nat) + ("}"@ + (rest))));
    lemma_sp_lit_inverts(t, ((pos + ",\"packet_loss\":"@.len()) + spec_udec(w.packet_loss as nat).len()), ",\"timestamp_ms\":"@, spec_udec(w.timestamp_ms as nat) + ("}"@ + (rest)));
    assert(("}"@ + (rest))[0] == '}') by {
        reveal_strlit("}");
    }
    lemma_sp_num_inverts(t, (((pos + ",\"packet_loss\":"@.len()) + spec_udec(w.packet_loss as nat).len()) + ",\"timestamp_ms\":"@.len()), w.timestamp_ms, "}"@ + (rest));
    lemma_sp_lit_inverts(t, ((((pos + ",\"packet_loss\":"@.len()) + spec_udec(w.packet_loss as nat).len()) + ",\"timestamp_ms\":"@.len()) + spec_udec(w.timestamp_ms as nat).len()), "}"@, rest);
}

/// The wire text of this kind written at `pos` parses back from there.
#[verifier::rlimit(75)]
pub proof fn lemma_tcping_at_inverts(t: Seq<char>, pos: int, w: TcpingWire, rest: Seq<char>)
    requires
        0 <= pos <= t.len(),
        t.subrange(pos, t.len() as int) == enc_tcping(w) + rest,
    ensures
        sp_tcping_at(t, pos) == Some((w, pos + enc_tcping(w).len())),
        t.subrange(pos + enc_tcping(w).len(), t.len() as int) == rest,
        pos + enc_tcping(w).len() + rest.len() == t.len(),
{
    assert(t.subrange(pos, t.len() as int) == enc_tcping_c1(w) + (enc_tcping_c2(w) + (enc_tcping_c3(w) + (enc_tcping_c4(w) + (rest))))) by {
        assert(enc_tcping(w) + rest =~= enc_tcping_c1(w) + (enc_tcping_c2(w) + (enc_tcping_c3(w) + (enc_tcping_c4(w) + (rest)))));
    }
    reveal_strlit(",\"success\":");
    assert((enc_tcping_c2(w) + (enc_tcping_c3(w) + (enc_tcping_c4(w) + (rest))))[0] == ",\"success\":"@[0]) by {
        assert(enc_tcping_c2(w)[0] == ",\"success\":"@[0]);
    }
    lemma_tcping_c1_inverts(t, pos, w, enc_tcping_c2(w) + (enc_tcping_c3(w) + (enc_tcping_c4(w) + (rest))));
    reveal_strlit(",\"max_rtt_micros\":");
    assert((enc_tcping_c3(w) + (enc_tcping_c4(w) + (rest)))[0] == ",\"max_rtt_micros\":"@[0]) by {
        assert(enc_tcping_c3(w)[0] == ",\"max_rtt_micros\":"@[0]);
    }
    lemma_tcping_c2_inverts(t, (pos + enc_tcping_c1(w).len()), w, enc_tcping_c3(w) + (enc_tcping_c4(w) + (rest)));
    reveal_strlit(",\"packet_loss\":");
    assert((enc_tcping_c4(w) + (rest))[0] == ",\"packet_loss\":"@[0]) by {
        assert(enc_tcping_c4(w)[0] == ",\"packet_loss\":"@[0]);
    }
    lemma_tcping_c3_inverts(t, ((pos + enc_tcping_c1(w).len()) + enc_tcping_c2(w).len()), w, enc_tcping_c4(w) + (rest));
    lemma_tcping_c4_inverts(t, (((pos + enc_tcping_c1(w).len()) + enc_tcping_c2(w).len()) + enc_tcping_c3(w).len()), w, rest);
}

/// Round trip: decoding the canonical wire text of a TCP connect-run result
/// gives back every field.
#[verifier::rlimit(75)]
pub proof fn lemma_tcping_round_trip(w: TcpingWire)
    ensures
        sp_tcping(enc_tcping(w)) == Some(w),
{
    let t = enc_tcping(w);
    assert(t.subrange(0, t.len() as int) == enc_tcping(w) + Seq::<char>::empty()) by {
        assert(t.subrange(0, t.len() as int) =~= enc_tcping(w) + Seq::<char>::empty());
    }
    lemma_tcping_at_inverts(t, 0, w, Seq::<char>::empty());
}

/// Append one stretch of the canonical wire text.
fn enc_tcping_c1_push(out: &mut String, r: &TcpingResult)
    ensures
        final(out)@ == old(out)@ + enc_tcping_c1(tcping_wire_of(*r)),
{
    out.append("{\"host\":");
    enc_push_str(out, r.host.as_str());
    out.append(",\"port\":");
    enc_push_u64(out, r.port as u64);
    out.append(",\"ip\":");
    enc_push_str(out, r.ip.as_str());
    proof {
        assert(out@ =~= old(out)@ + enc_tcping_c1(tcping_wire_of(*r)));
    }
}

/// Append one stretch of the canonical wire text.
fn enc_tcping_c2_push(out: &mut String, r: &TcpingResult)
    ensures
        final(out)@ == old(out)@ + enc_tcping_c2(tcping_wire_of(*r)),
{
    out.append(",\"success\":");
    enc_push_bool(out, r.success);
    out.append(",\"avg_rtt_micros\":");
    enc_push_u64(out, r.avg_rtt_micros);
    out.append(",\"min_rtt_micros\":");
    enc_push_u64(out, r.min_rtt_micros);
    proof {
        assert(out@ =~= old(out)@ + enc_tcping_c2(tcping_wire_of(*r)));
    }
}

/// Append one stretch of the canonical wire text.
fn enc_tcping_c3_push(out: &mut String, r: &TcpingResult)
    ensures
        final(out)@ == old(out)@ + enc_tcping_c3(tcping_wire_of(*r)),
{
    out.append(",\"max_rtt_micros\":");
    enc_push_u64(out, r.max_rtt_micros);
    out.append(",\"attempts\":");
    enc_push_u64(out, r.attempts as u64);
    out.append(",\"successful_attempts\":");
    enc_push_u64(out, r.successful_attempts as u64);
    proof {
        assert(out@ =~= old(out)@ + enc_tcping_c3(tcping_wire_of(*r)));
    }
}

/// Append one stretch of the canonical wire text.
fn enc_tcping_c4_push(out: &mut String, r: &TcpingResult)
    ensures
        final(out)@ == old(out)@ + enc_tcping_c4(tcping_wire_of(*r)),
{
    out.append(",\"packet_loss\":");
    enc_push_u64(out, r.packet_loss as u64);
    out.append(",\"timestamp_ms\":");
    enc_push_u64(out, r.timestamp_ms);
    out.append("}");
    proof {
        assert(out@ =~= old(out)@ + enc_tcping_c4(tcping_wire_of(*r)));
    }
}

/// Append the canonical wire text of a TCP connect-run result.
pub fn enc_tcping_push(out: &mut String, r: &TcpingResult)
    ensures
        final(out)@ == old(out)@ + enc_tcping(tcping_wire_of(*r)),
{
    enc_tcping_c1_push(out, r);
    enc_tcping_c2_push(out, r);
    enc_tcping_c3_push(out, r);
    enc_tcping_c4_push(out, r);
    proof {
        assert(out@ =~= old(out)@ + enc_tcping(tcping_wire_of(*r)));
    }
}

/// Render a TCP connect-run result in its canonical wire form.
pub fn encode_tcping(r: &TcpingResult) -> (out: String)
    ensures
        out@ == enc_tcping(tcping_wire_of(*r)),
{
    let mut out = String::new();
    enc_tcping_push(&mut out, r);
    out
}

/// Decode the canonical wire form of a TCP connect-run result at `pos`.
pub fn decode_tcping_at(t: &str, pos: usize) -> (r: Option<(TcpingResult, usize)>)
    ensures
        (match sp_tcping_at(t@, pos as int) {
            Some((w, e)) => {
                &&& r matches Some(p)
                &&& tcping_wire_of(r.unwrap().0) == w
                &&& r.unwrap().1 == e
                &&& pos < e <= t@.len()
            },
            None => r is None,
        }),
{
    let a0 = match parse_lit(t, pos, "{\"host\":") {
        Some(p) => p,
        None => {
            return None;
        },
    };
    let (b0, b0_end) = match parse_string(t, a0) {
        Some(p) => p,
        None => {
            return None;
        },
    };
    let a1 = match parse_lit(t, b0_end, ",\"port\":") {
        Some(p) => p,
        None => {
            return None;
        },
    };
    let (b1, b1_end) = match parse_u64(t, a1) {
        Some(p) => p,
        None => {
            return None;
        },
    };
    if b1 > 0xffffu64 {
        return None;
    }
    let a2 = match parse_lit(t, b1_end, ",\"ip\":") {
        Some(p) => p,
        None => {
            return None;
        },
    };
    let (b2, b2_end) = match parse_string(t, a2) {
        Some(p) => p,
        None => {
            return None;
        },
    };
    let a3 = match parse_lit(t, b2_end, ",\"success\":") {
        Some(p) => p,
        None => {
            return None;
        },
    };
    let (b3, b3_end) = match parse_bool(t, a3) {
        Some(p) => p,
        None => {
            return None;
        },
    };
    let a4 = match parse_lit(t, b3_end, ",\"avg_rtt_micros\":") {
        Some(p) => p,
        None => {
            return None;
        },
    };
    let (b4, b4_end) = match parse_u64(t, a4) {
        Some(p) => p,
        None => {
            return None;
        },
    };
    let a5 = match parse_lit(t, b4_end, ",\"min_rtt_micros\":") {
        Some(p) => p,
        None => {
            return None;
        },
    };
    let (b5, b5_end) = match parse_u64(t, a5) {
        Some(p) => p,
        None => {
            return None;
        },
    };
    let a6 = match parse_lit(t, b5_end, ",\"max_rtt_micros\":") {
        Some(p) => p,
        None => {
            return None;
        },
    };
    let (b6, b6_end) = match parse_u64(t, a6) {
        Some(p) => p,
        None => {
            return None;
        },
    };
    let a7 = match parse_lit(t, b6_end, ",\"attempts\":") {
        Some(p) => p,
        None => {
            return None;
        },
    };
    let (b7, b7_end) = match parse_u64(t, a7) {
        Some(p) => p,
        None => {
            return None;
        },
    };
    if b7 > 0xffff_ffffu64 {
        return None;
    }
    let a8 = match parse_lit(t, b7_end, ",\"successful_attempts\":") {
        Some(p) => p,
        None => {
            return None;
        },
    };
    let (b8, b8_end) = match parse_u64(t, a8) {
        Some(p) => p,
        None => {
            return None;
        },
    };
    if b8 > 0xffff_ffffu64 {
        return None;
    }
    let a9 = match parse_lit(t, b8_end, ",\"packet_loss\":") {
        Some(p) => p,
        None => {
            return None;
        },
    };
    let (b9, b9_end) = match parse_u64(t, a9) {
        Some(p) => p,
        None => {
            return None;
        },
    };
    if b9 > 0xffff_ffffu64 {
        return None;
    }
    let a10 = match parse_lit(t, b9_end, ",\"timestamp_ms\":") {
        Some(p) => p,
        None => {
            return None;
        },
    };
    let (b10, b10_end) = match parse_u64(t, a10) {
        Some(p) => p,
        None => {
            return None;
        },
    };
    let e = match parse_lit(t, b10_end, "}") {
        Some(p) => p,
        None => {
            return None;
        },
    };
    Some((
        TcpingResult {
            host: b0,
            port: b1 as u16,
            ip: b2,
            success: b3,
            avg_rtt_micros: b4,
            min_rtt_micros: b5,
            max_rtt_micros: b6,
            attempts: b7 as u32,
            successful_attempts: b8 as u32,
            packet_loss: b9 as u32,
            timestamp_ms: b10,
        },
        e,
    ))
}

/// Decode the canonical wire form of a TCP connect-run result, whole.
pub fn decode_tcping(t: &str) -> (r: Option<TcpingResult>)
    ensures
        (match sp_tcping(t@) {
            Some(w) => r matches Some(x) && tcping_wire_of(r.unwrap()) == w,
            None => r is None,
        }),
{
    match decode_tcping_at(t, 0) {
        Some((x, e)) => {
            if e == t.unicode_len() {
                Some(x)
            } else {
                None
            }
        },
        None => None,
    }
}

/// The wire fields of one normalized answer record.
pub struct DnsrecordWire {
    pub record_type: Seq<char>,
    pub value: Seq<char>,
    pub ttl: u32,
}

/// The wire fields a value of this kind carries.
pub open spec fn dnsrecord_wire_of(r: DnsRecord) -> DnsrecordWire {
    DnsrecordWire {
        record_type: r.record_type@,
        value: r.value@,
        ttl: r.ttl,
    }
}

/// One stretch of the canonical wire text.
pub open spec fn enc_dnsrecord_c1(w: DnsrecordWire) -> Seq<char> {
    "{\"record_type\":"@ + (enc_str(w.record_type) + (",\"value\":"@ + (enc_str(w.value) + (",\"ttl\":"@ + (spec_udec(w.ttl as nat) + ("}"@))))))
}

/// Canonical wire text of one normalized answer record.
pub open spec fn enc_dnsrecord(w: DnsrecordWire) -> Seq<char> {
    enc_dnsrecord_c1(w)
}

/// Parse one stretch of the canonical wire text.
pub open spec fn sp_dnsrecord_c1(t: Seq<char>, pos: int) -> Option<((Seq<char>, Seq<char>, u32), int)> {
    match sp_lit(t, pos, "{\"record_type\":"@) {
        None => None,
        Some(q1) => match sp_string(t, q1) {
            None => None,
            Some((v0, q2)) => match sp_lit(t, q2, ",\"value\":"@) {
                None => None,
                Some(q3) => match sp_string(t, q3) {
                    None => None,
                    Some((v1, q4)) => match sp_lit(t, q4, ",\"ttl\":"@) {
                        None => None,
                        Some(q5) => match sp_u64(t, q5) {
                            None => None,
                            Some((v2, q6)) => if v2 <= 0xffff_ffffu64 {
                                match sp_lit(t, q6, "}"@) {
                                    None => None,
                                    Some(e) => Some(((v0, v1, v2 as u32), e)),
                                }
                            } else {
                                None
                            },
                        },
                    },
                },
            },
        },
    }
}

/// Parse the canonical wire text of one normalized answer record at `pos`.
pub open spec fn sp_dnsrecord_at(t: Seq<char>, pos: int) -> Option<(DnsrecordWire, int)> {
    match sp_dnsrecord_c1(t, pos) {
        None => None,
        Some(((record_type, value, ttl), p1)) => Some((DnsrecordWire {
                record_type,
                value,
                ttl,
            }, p1)),
    }
}

/// The wire text of this kind opens with its brace.
#[verifier::rlimit(75)]
pub proof fn lemma_enc_dnsrecord_first(w: DnsrecordWire)
    ensures
        enc_dnsrecord(w).len() > 0,
        enc_dnsrecord(w)[0] == '{',
{
    reveal_strlit("{\"record_type\":");
    assert(enc_dnsrecord(w)[0] == "{\"record_type\":"@[0]);
}

/// One stretch written at `pos` parses back from there.
#[verifier::rlimit(75)]
pub proof fn lemma_dnsrecord_c1_inverts(t: Seq<char>, pos: int, w: DnsrecordWire, rest: Seq<char>)
    requires
        0 <= pos <= t.len(),
        t.subrange(pos, t.len() as int) == enc_dnsrecord_c1(w) + rest,
    ensures
        sp_dnsrecord_c1(t, pos) == Some(((w.record_type, w.value, w.ttl), pos + enc_dnsrecord_c1(w).len())),
        t.subrange(pos + enc_dnsrecord_c1(w).len(), t.len() as int) == rest,
        pos + enc_dnsrecord_c1(w).len() + rest.len() == t.len(),
{
    assert(t.subrange(pos, t.len() as int) == "{\"record_type\":"@ + (enc_str(w.record_type) + (",\"value\":"@ + (enc_str(w.value) + (",\"ttl\":"@ + (spec_udec(w.ttl as nat) + ("}"@ + (rest)))))))) by {
        assert(enc_dnsrecord_c1(w) + rest =~= "{\"record_type\":"@ + (enc_str(w.record_type) + (",\"value\":"@ + (enc_str(w.value) + (",\"ttl\":"@ + (spec_udec(w.ttl as nat) + ("}"@ + (rest))))))));
    }
    lemma_sp_lit_inverts(t, pos, "{\"record_type\":"@, enc_str(w.record_type) + (",\"value\":"@ + (enc_str(w.value) + (",\"ttl\":"@ + (spec_udec(w.ttl as nat) + ("}"@ + (rest)))))));
    lemma_sp_string_inverts(t, (pos + "{\"record_type\":"@.len()), w.record_type, ",\"value\":"@ + (enc_str(w.value) + (",\"ttl\":"@ + (spec_udec(w.ttl as nat) + ("}"@ + (rest))))));
    lemma_sp_lit_inverts(t, ((pos + "{\"record_type\":"@.len()) + enc_str(w.record_type).len()), ",\"value\":"@, enc_str(w.value) + (",\"ttl\":"@ + (spec_udec(w.ttl as nat) + ("}"@ + (rest)))));
    lemma_sp_string_inverts(t, (((pos + "{\"record_type\":"@.len()) + enc_str(w.record_type).len()) + ",\"value\":"@.len()), w.value, ",\"ttl\":"@ + (spec_udec(w.ttl as nat) + ("}"@ + (rest))));
    lemma_sp_lit_inverts(t, ((((pos + "{\"record_type\":"@.len()) + enc_str(w.record_type).len()) + ",\"value\":"@.len()) + enc_str(w.value).len()), ",\"ttl\":"@, spec_udec(w.ttl as nat) + ("}"@ + (rest)));
    assert(("}"@ + (rest))[0] == '}') by {
        reveal_strlit("}");
    }
    lemma_sp_num_inverts(t, (((((pos + "{\"record_type\":"@.len()) + enc_str(w.record_type).len()) + ",\"value\":"@.len()) + enc_str(w.value).len()) + ",\"ttl\":"@.len()), w.ttl as u64, "}"@ + (rest));
    lemma_sp_lit_inverts(t, ((((((pos + "{\"record_type\":"@.len()) + enc_str(w.record_type).len()) + ",\"value\":"@.len()) + enc_str(w.value).len()) + ",\"ttl\":"@.len()) + spec_udec(w.ttl as nat).len()), "}"@, rest);
}

/// The wire text of this kind written at `pos` parses back from there.
#[verifier::rlimit(75)]
pub proof fn lemma_dnsrecord_at_inverts(t: Seq<char>, pos: int, w: DnsrecordWire, rest: Seq<char>)
    requires
        0 <= pos <= t.len(),
        t.subrange(pos, t.len() as int) == enc_dnsrecord(w) + rest,
    ensures
        sp_dnsrecord_at(t, pos) == Some((w, pos + enc_dnsrecord(w).len())),
        t.subrange(pos + enc_dnsrecord(w).len(), t.len() as int) == rest,
        pos + enc_dnsrecord(w).len() + rest.len() == t.len(),
{
    assert(t.subrange(pos, t.len() as int) == enc_dnsrecord_c1(w) + (rest)) by {
        assert(enc_dnsrecord(w) + rest =~= enc_dnsrecord_c1(w) + (rest));
    }
    lemma_dnsrecord_c1_inverts(t, pos, w, rest);
}

/// Append one stretch of the canonical wire text.
fn enc_dnsrecord_c1_push(out: &mut String, r: &DnsRecord)
    ensures
        final(out)@ == old(out)@ + enc_dnsrecord_c1(dnsrecord_wire_of(*r)),
{
    out.append("{\"record_type\":");
    enc_push_str(out, r.record_type.as_str());
    out.append(",\"value\":");
    enc_push_str(out, r.value.as_str());
    out.append(",\"ttl\":");
    enc_push_u64(out, r.ttl as u64);
    out.append("}");
    proof {
        assert(out@ =~= old(out)@ + enc_dnsrecord_c1(dnsrecord_wire_of(*r)));
    }
}

/// Append the canonical wire text of one normalized answer record.
pub fn enc_dnsrecord_push(out: &mut String, r: &DnsRecord)
    ensures
        final(out)@ == old(out)@ + enc_dnsrecord(dnsrecord_wire_of(*r)),
{
    enc_dnsrecord_c1_push(out, r);
    proof {
        assert(out@ =~= old(out)@ + enc_dnsrecord(dnsrecord_wire_of(*r)));
    }
}

/// Decode the canonical wire form of one normalized answer record at `pos`.
pub fn decode_dnsrecord_at(t: &str, pos: usize) -> (r: Option<(DnsRecord, usize)>)
    ensures
        (match sp_dnsrecord_at(t@, pos as int) {
            Some((w, e)) => {
                &&& r matches Some(p)
                &&& dnsrecord_wire_of(r.unwrap().0) == w
                &&& r.unwrap().1 == e
                &&& pos < e <= t@.len()
            },
            None => r is None,
        }),
{
    let a0 = match parse_lit(t, pos, "{\"record_type\":") {
        Some(p) => p,
        None => {
            return None;
        },
    };
    let (b0, b0_end) = match parse_string(t, a0) {
        Some(p) => p,
        None => {
            return None;
        },
    };
    let a1 = match parse_lit(t, b0_end, ",\"value\":") {
        Some(p) => p,
        None => {
            return None;
        },
    };
    let (b1, b1_end) = match parse_string(t, a1) {
        Some(p) => p,
        None => {
            return None;
        },
    };
    let a2 = match parse_lit(t, b1_end, ",\"ttl\":") {
        Some(p) => p,
        None => {
            return None;
        },
    };
    let (b2, b2_end) = match parse_u64(t, a2) {
        Some(p) => p,
        None => {
            return None;
        },
    };
    if b2 > 0xffff_ffffu64 {
        return None;
    }
    let e = match parse_lit(t, b2_end, "}") {
        Some(p) => p,
        None => {
            return None;
        },
    };
    Some((
        DnsRecord {
            record_type: b0,
            value: b1,
            ttl: b2 as u32,
        },
        e,
    ))
}

/// The wire fields of one hop record.
pub struct HopWire {
    pub hop_number: u32,
    pub ip: Option<Seq<char>>,
    pub hostname: Option<Seq<char>>,
    pub rtt_micros: Option<u64>,
    pub success: bool,
}

/// The wire fields a value of this kind carries.
pub open spec fn hop_wire_of(r: Hop) -> HopWire {
    HopWire {
        hop_number: r.hop_number,
        ip: (match r.ip { Some(s) => Some(s@), None => None }),
        hostname: (match r.hostname { Some(s) => Some(s@), None => None }),
        rtt_micros: r.rtt_micros,
        success: r.success,
    }
}

/// One stretch of the canonical wire text.
pub open spec fn enc_hop_c1(w: HopWire) -> Seq<char> {
    "{\"hop_number\":"@ + (spec_udec(w.hop_number as nat) + (",\"ip\":"@ + (enc_opt_str(w.ip) + (",\"hostname\":"@ + (enc_opt_str(w.hostname))))))
}

/// One stretch of the canonical wire text.
pub open spec fn enc_hop_c2(w: HopWire) -> Seq<char> {
    ",\"rtt_micros\":"@ + (enc_opt_u64(w.rtt_micros) + (",\"success\":"@ + (enc_bool(w.success) + ("}"@))))
}

/// Canonical wire text of one hop record.
pub open spec fn enc_hop(w: HopWire) -> Seq<char> {
    enc_hop_c1(w) + (enc_hop_c2(w))
}

/// Parse one stretch of the canonical wire text.
pub open spec fn sp_hop_c1(t: Seq<char>, pos: int) -> Option<((u32, Option<Seq<char>>, Option<Seq<char>>), int)> {
    match sp_lit(t, pos, "{\"hop_number\":"@) {
        None => None,
        Some(q1) => match sp_u64(t, q1) {
            None => None,
            Some((v0, q2)) => if v0 <= 0xffff_ffffu64 {
                match sp_lit(t, q2, ",\"ip\":"@) {
                    None => None,
                    Some(q3) => match sp_opt_string(t, q3) {
                        None => None,
                        Some((v1, q4)) => match sp_lit(t, q4, ",\"hostname\":"@) {
                            None => None,
                            Some(q5) => match sp_opt_string(t, q5) {
                                None => None,
                                Some((v2, q6)) => Some(((v0 as u32, v1, v2), q6)),
                            },
                        },
                    },
                }
            } else {
                None
            },
        },
    }
}

/// Parse one stretch of the canonical wire text.
pub open spec fn sp_hop_c2(t: Seq<char>, pos: int) -> Option<((Option<u64>, bool), int)> {
    match sp_lit(t, pos, ",\"rtt_micros\":"@) {
        None => None,
        Some(q1) => match sp_opt_u64(t, q1) {
            None => None,
            Some((v0, q2)) => match sp_lit(t, q2, ",\"success\":"@) {
                None => None,
                Some(q3) => match sp_bool(t, q3) {
                    None => None,
                    Some((v1, q4)) => match sp_lit(t, q4, "}"@) {
                        None => None,
                        Some(e) => Some(((v0, v1), e)),
                    },
                },
            },
        },
    }
}

/// Parse the canonical wire text of one hop record at `pos`.
pub open spec fn sp_hop_at(t: Seq<char>, pos: int) -> Option<(HopWire, int)> {
    match sp_hop_c1(t, pos) {
        None => None,
        Some(((hop_number, ip, hostname), p1)) => match sp_hop_c2(t, p1) {
            None => None,
            Some(((rtt_micros, success), p2)) => Some((HopWire {
                    hop_number,
                    ip,
                    hostname,
                    rtt_micros,
                    success,
                }, p2)),
        },
    }
}

/// The wire text of this kind opens with its brace.
#[verifier::rlimit(75)]
pub proof fn lemma_enc_hop_first(w: HopWire)
    ensures
        enc_hop(w).len() > 0,
        enc_hop(w)[0] == '{',
{
    reveal_strlit("{\"hop_number\":");
    assert(enc_hop(w)[0] == "{\"hop_number\":"@[0]);
}

/// One stretch written at `pos` parses back from there.
#[verifier::rlimit(75)]
pub proof fn lemma_hop_c1_inverts(t: Seq<char>, pos: int, w: HopWire, rest: Seq<char>)
    requires
        0 <= pos <= t.len(),
        t.subrange(pos, t.len() as int) == enc_hop_c1(w) + rest,
        rest.len() > 0 && rest[0] == ',',
    ensures
        sp_hop_c1(t, pos) == Some(((w.hop_number, w.ip, w.hostname), pos + enc_hop_c1(w).len())),
        t.subrange(pos + enc_hop_c1(w).len(), t.len() as int) == rest,
        pos + enc_hop_c1(w).len() + rest.len() == t.len(),
{
    assert(t.subrange(pos, t.len() as int) == "{\"hop_number\":"@ + (spec_udec(w.hop_number as nat) + (",\"ip\":"@ + (enc_opt_str(w.ip) + (",\"hostname\":"@ + (enc_opt_str(w.hostname) + (rest))))))) by {
        assert(enc_hop_c1(w) + rest =~= "{\"hop_number\":"@ + (spec_udec(w.hop_number as nat) + (",\"ip\":"@ + (enc_opt_str(w.ip) + (",\"hostname\":"@ + (enc_opt_str(w.hostname) + (rest)))))));
    }
    lemma_sp_lit_inverts(t, pos, "{\"hop_number\":"@, spec_udec(w.hop_number as nat) + (",\"ip\":"@ + (enc_opt_str(w.ip) + (",\"hostname\":"@ + (enc_opt_str(w.hostname) + (rest))))));
    assert((",\"ip\":"@ + (enc_opt_str(w.ip) + (",\"hostname\":"@ + (enc_opt_str(w.hostname) + (rest)))))[0] == ',') by {
        reveal_strlit(",\"ip\":");
    }
    lemma_sp_num_inverts(t, (pos + "{\"hop_number\":"@.len()), w.hop_number as u64, ",\"ip\":"@ + (enc_opt_str(w.ip) + (",\"hostname\":"@ + (enc_opt_str(w.hostname) + (rest)))));
    lemma_sp_lit_inverts(t, ((pos + "{\"hop_number\":"@.len()) + spec_udec(w.hop_number as nat).len()), ",\"ip\":"@, enc_opt_str(w.ip) + (",\"hostname\":"@ + (enc_opt_str(w.hostname) + (rest))));
    lemma_sp_opt_string_inverts(t, (((pos + "{\"hop_number\":"@.len()) + spec_udec(w.hop_number as nat).len()) + ",\"ip\":"@.len()), w.ip, ",\"hostname\":"@ + (enc_opt_str(w.hostname) + (rest)));
    lemma_sp_lit_inverts(t, ((((pos + "{\"hop_number\":"@.len()) + spec_udec(w.hop_number as nat).len()) + ",\"ip\":"@.len()) + enc_opt_str(w.ip).len()), ",\"hostname\":"@, enc_opt_str(w.hostname) + (rest));
    lemma_sp_opt_string_inverts(t, (((((pos + "{\"hop_number\":"@.len()) + spec_udec(w.hop_number as nat).len()) + ",\"ip\":"@.len()) + enc_opt_str(w.ip).len()) + ",\"hostname\":"@.len()), w.hostname, rest);
}

/// One stretch written at `pos` parses back from there.
#[verifier::rlimit(75)]
pub proof fn lemma_hop_c2_inverts(t: Seq<char>, pos: int, w: HopWire, rest: Seq<char>)
    requires
        0 <= pos <= t.len(),
        t.subrange(pos, t.len() as int) == enc_hop_c2(w) + rest,
    ensures
        sp_hop_c2(t, pos) == Some(((w.rtt_micros, w.success), pos + enc_hop_c2(w).len())),
        t.subrange(pos + enc_hop_c2(w).len(), t.len() as int) == rest,
        pos + enc_hop_c2(w).len() + rest.len() == t.len(),
{
    assert(t.subrange(pos, t.len() as int) == ",\"rtt_micros\":"@ + (enc_opt_u64(w.rtt_micros) + (",\"success\":"@ + (enc_bool(w.success) + ("}"@ + (rest)))))) by {
        assert(enc_hop_c2(w) + rest =~= ",\"rtt_micros\":"@ + (enc_opt_u64(w.rtt_micros) + (",\"success\":"@ + (enc_bool(w.success) + ("}"@ + (rest))))));
    }
    lemma_sp_lit_inverts(t, pos, ",\"rtt_micros\":"@, enc_opt_u64(w.rtt_micros) + (",\"success\":"@ + (enc_bool(w.success) + ("}"@ + (rest)))));
    assert((",\"success\":"@ + (enc_bool(w.success) + ("}"@ + (rest))))[0] == ',') by {
        reveal_strlit(",\"success\":");
    }
    lemma_sp_opt_u64_inverts(t, (pos + ",\"rtt_micros\":"@.len()), w.rtt_micros, ",\"success\":"@ + (enc_bool(w.success) + ("}"@ + (rest))));
    lemma_sp_lit_inverts(t, ((pos + ",\"rtt_micros\":"@.len()) + enc_opt_u64(w.rtt_micros).len()), ",\"success\":"@, enc_bool(w.success) + ("}"@ + (rest)));
    lemma_sp_bool_inverts(t, (((pos + ",\"rtt_micros\":"@.len()) + enc_opt_u64(w.rtt_micros).len()) + ",\"success\":"@.len()), w.success, "}"@ + (rest));
    lemma_sp_lit_inverts(t, ((((pos + ",\"rtt_micros\":"@.len()) + enc_opt_u64(w.rtt_micros).len()) + ",\"success\":"@.len()) + enc_bool(w.success).len()), "}"@, rest);
}

/// The wire text of this kind written at `pos` parses back from there.
#[verifier::rlimit(75)]
pub proof fn lemma_hop_at_inverts(t: Seq<char>, pos: int, w: HopWire, rest: Seq<char>)
    requires
        0 <= pos <= t.len(),
        t.subrange(pos, t.len() as int) == enc_hop(w) + rest,
    ensures
        sp_hop_at(t, pos) == Some((w, pos + enc_hop(w).len())),
        t.subrange(pos + enc_hop(w).len(), t.len() as int) == rest,
        pos + enc_hop(w).len() + rest.len() == t.len(),
{
    assert(t.subrange(pos, t.len() as int) == enc_hop_c1(w) + (enc_hop_c2(w) + (rest))) by {
        assert(enc_hop(w) + rest =~= enc_hop_c1(w) + (enc_hop_c2(w) + (rest)));
    }
    reveal_strlit(",\"rtt_micros\":");
    assert((enc_hop_c2(w) + (rest))[0] == ",\"rtt_micros\":"@[0]) by {
        assert(enc_hop_c2(w)[0] == ",\"rtt_micros\":"@[0]);
    }
    lemma_hop_c1_inverts(t, pos, w, enc_hop_c2(w) + (rest));
    lemma_hop_c2_inverts(t, (pos + enc_hop_c1(w).len()), w, rest);
}

/// Append one stretch of the canonical wire text.
fn enc_hop_c1_push(out: &mut String, r: &Hop)
    ensures
        final(out)@ == old(out)@ + enc_hop_c1(hop_wire_of(*r)),
{
    out.append("{\"hop_number\":");
    enc_push_u64(out, r.hop_number as u64);
    out.append(",\"ip\":");
    enc_push_opt_str(out, &r.ip);
    out.append(",\"hostname\":");
    enc_push_opt_str(out, &r.hostname);
    proof {
        assert(out@ =~= old(out)@ + enc_hop_c1(hop_wire_of(*r)));
    }
}

/// Append one stretch of the canonical wire text.
fn enc_hop_c2_push(out: &mut String, r: &Hop)
    ensures
        final(out)@ == old(out)@ + enc_hop_c2(hop_wire_of(*r)),
{
    out.append(",\"rtt_micros\":");
    enc_push_opt_u64(out, &r.rtt_micros);
    out.append(",\"success\":");
    enc_push_bool(out, r.success);
    out.append("}");
    proof {
        assert(out@ =~= old(out)@ + enc_hop_c2(hop_wire_of(*r)));
    }
}

/// Append the canonical wire text of one hop record.
pub fn enc_hop_push(out: &mut String, r: &Hop)
    ensures
        final(out)@ == old(out)@ + enc_hop(hop_wire_of(*r)),
{
    enc_hop_c1_push(out, r);
    enc_hop_c2_push(out, r);
    proof {
        assert(out@ =~= old(out)@ + enc_hop(hop_wire_of(*r)));
    }
}

/// Decode the canonical wire form of one hop record at `pos`.
pub fn decode_hop_at(t: &str, pos: usize) -> (r: Option<(Hop, usize)>)
    ensures
        (match sp_hop_at(t@, pos as int) {
            Some((w, e)) => {
                &&& r matches Some(p)
                &&& hop_wire_of(r.unwrap().0) == w
                &&& r.unwrap().1 == e
                &&& pos < e <= t@.len()
            },
            None => r is None,
        }),
{
    let a0 = match parse_lit(t, pos, "{\"hop_number\":") {
        Some(p) => p,
        None => {
            return None;
        },
    };
    let (b0, b0_end) = match parse_u64(t, a0) {
        Some(p) => p,
        None => {
            return None;
        },
    };
    if b0 > 0xffff_ffffu64 {
        return None;
    }
    let a1 = match parse_lit(t, b0_end, ",\"ip\":") {
        Some(p) => p,
        None => {
            return None;
        },
    };
    let (b1, b1_end) = match parse_opt_string(t, a1) {
        Some(p) => p,
        None => {
            return None;
        },
    };
    let a2 = match parse_lit(t, b1_end, ",\"hostname\":") {
        Some(p) => p,
        None => {
            return None;
        },
    };
    let (b2, b2_end) = match parse_opt_string(t, a2) {
        Some(p) => p,
        None => {
            return None;
        },
    };
    let a3 = match parse_lit(t, b2_end, ",\"rtt_micros\":") {
        Some(p) => p,
        None => {
            return None;
        },
    };
    let (b3, b3_end) = match parse_opt_u64(t, a3) {
        Some(p) => p,
        None => {
            return None;
        },
    };
    let a4 = match parse_lit(t, b3_end, ",\"success\":") {
        Some(p) => p,
        None => {
            return None;
        },
    };
    let (b4, b4_end) = match parse_bool(t, a4) {
        Some(p) => p,
        None => {
            return None;
        },
    };
    let e = match parse_lit(t, b4_end, "}") {
        Some(p) => p,
        None => {
            return None;
        },
    };
    Some((
        Hop {
            hop_number: b0 as u32,
            ip: b1,
            hostname: b2,
            rtt_micros: b3,
            success: b4,
        },
        e,
    ))
}

/// The wire fields of one header pair.
pub struct PairWire {
    pub name: Seq<char>,
    pub value: Seq<char>,
}

/// The wire fields a header pair carries.
pub open spec fn pair_wire_of(r: (String, String)) -> PairWire {
    PairWire { name: r.0@, value: r.1@ }
}

/// Canonical wire text of one header pair.
pub open spec fn enc_pair(w: PairWire) -> Seq<char> {
    enc_str(w.name) + (":"@ + enc_str(w.value))
}

/// Parse one header pair at `pos`.
pub open spec fn sp_pair_at(t: Seq<char>, pos: int) -> Option<(PairWire, int)> {
    match sp_string(t, pos) {
        None => None,
        Some((k, p1)) => match sp_lit(t, p1, ":"@) {
            None => None,
            Some(p2) => match sp_string(t, p2) {
                None => None,
                Some((v, e)) => Some((PairWire { name: k, value: v }, e)),
            },
        },
    }
}

/// The wire text of a pair opens with its quote.
#[verifier::rlimit(75)]
pub proof fn lemma_enc_pair_first(w: PairWire)
    ensures
        enc_pair(w).len() > 0,
        enc_pair(w)[0] == '"',
{
    assert(enc_pair(w)[0] == enc_str(w.name)[0]);
    assert(enc_str(w.name)[0] == '"');
}

/// A header pair written at `pos` parses back from there.
#[verifier::rlimit(75)]
pub proof fn lemma_pair_at_inverts(t: Seq<char>, pos: int, w: PairWire, rest: Seq<char>)
    requires
        0 <= pos <= t.len(),
        t.subrange(pos, t.len() as int) == enc_pair(w) + rest,
    ensures
        sp_pair_at(t, pos) == Some((w, pos + enc_pair(w).len())),
        t.subrange(pos + enc_pair(w).len(), t.len() as int) == rest,
        pos + enc_pair(w).len() + rest.len() == t.len(),
{
    assert(t.subrange(pos, t.len() as int) == enc_str(w.name) + (":"@ + (enc_str(w.value)
        + rest))) by {
        assert(enc_pair(w) + rest =~= enc_str(w.name) + (":"@ + (enc_str(w.value) + rest)));
    }
    lemma_sp_string_inverts(t, pos, w.name, ":"@ + (enc_str(w.value) + rest));
    lemma_sp_lit_inverts(t, (pos + enc_str(w.name).len()), ":"@, enc_str(w.value) + rest);
    lemma_sp_string_inverts(
        t,
        ((pos + enc_str(w.name).len()) + ":"@.len()),
        w.value,
        rest,
    );
}

/// Append the canonical wire text of one header pair.
pub fn enc_pair_push(out: &mut String, r: &(String, String))
    ensures
        final(out)@ == old(out)@ + enc_pair(pair_wire_of(*r)),
{
    enc_push_str(out, r.0.as_str());
    out.append(":");
    enc_push_str(out, r.1.as_str());
    proof {
        assert(out@ =~= old(out)@ + enc_pair(pair_wire_of(*r)));
    }
}

/// Decode one header pair at `pos`.
pub fn decode_pair_at(t: &str, pos: usize) -> (r: Option<((String, String), usize)>)
    ensures
        (match sp_pair_at(t@, pos as int) {
            Some((w, e)) => {
                &&& r matches Some(p)
                &&& pair_wire_of(r.unwrap().0) == w
                &&& r.unwrap().1 == e
                &&& pos < e <= t@.len()
            },
            None => r is None,
        }),
{
    let (k, p1) = match parse_string(t, pos) {
        Some(p) => p,
        None => {
            return None;
        },
    };
    let p2 = match parse_lit(t, p1, ":") {
        Some(p) => p,
        None => {
            return None;
        },
    };
    let (v, e) = match parse_string(t, p2) {
        Some(p) => p,
        None => {
            return None;
        },
    };
    Some(((k, v), e))
}

/// Canonical wire text of a hop list, after the first item.
pub open spec fn enc_hops_tail(ws: Seq<HopWire>) -> Seq<char>
    decreases ws.len(),
{
    if ws.len() == 0 {
        "]"@
    } else {
        ","@ + (enc_hop(ws.first()) + enc_hops_tail(ws.drop_first()))
    }
}

/// Canonical wire text of a hop list.
pub open spec fn enc_hops(ws: Seq<HopWire>) -> Seq<char> {
    if ws.len() == 0 {
        "[]"@
    } else {
        "["@ + (enc_hop(ws.first()) + enc_hops_tail(ws.drop_first()))
    }
}

/// Parse the items after the first, each behind its separator, up to
/// the closing bracket.
pub open spec fn sp_hops_tail(t: Seq<char>, pos: int) -> Option<(Seq<HopWire>, int)>
    decreases t.len() - pos,
{
    match sp_lit(t, pos, "]"@) {
        Some(e) => Some((Seq::empty(), e)),
        None => match sp_lit(t, pos, ","@) {
            None => None,
            Some(p1) => match sp_hop_at(t, p1) {
                None => None,
                Some((w, p2)) => if pos < p2 <= t.len() {
                    match sp_hops_tail(t, p2) {
                        None => None,
                        Some((ws, e)) => Some((seq![w] + ws, e)),
                    }
                } else {
                    None
                },
            },
        },
    }
}

/// Parse a hop list at `pos`.
pub open spec fn sp_hops_at(t: Seq<char>, pos: int) -> Option<(Seq<HopWire>, int)> {
    match sp_lit(t, pos, "["@) {
        None => None,
        Some(p0) => match sp_lit(t, p0, "]"@) {
            Some(e) => Some((Seq::empty(), e)),
            None => match sp_hop_at(t, p0) {
                None => None,
                Some((w, p1)) => if p0 < p1 <= t.len() {
                    match sp_hops_tail(t, p1) {
                        None => None,
                        Some((ws, e)) => Some((seq![w] + ws, e)),
                    }
                } else {
                    None
                },
            },
        },
    }
}

/// The item run written at `pos` parses back from there.
#[verifier::rlimit(75)]
pub proof fn lemma_hops_tail_inverts(t: Seq<char>, pos: int, ws: Seq<HopWire>, rest: Seq<char>)
    requires
        0 <= pos <= t.len(),
        t.subrange(pos, t.len() as int) == enc_hops_tail(ws) + rest,
    ensures
        sp_hops_tail(t, pos) == Some((ws, pos + enc_hops_tail(ws).len())),
        t.subrange(pos + enc_hops_tail(ws).len(), t.len() as int) == rest,
        pos + enc_hops_tail(ws).len() + rest.len() == t.len(),
    decreases ws.len(),
{
    reveal_strlit(",");
    reveal_strlit("]");
    if ws.len() == 0 {
        lemma_sp_lit_inverts(t, pos, "]"@, rest);
    } else {
        let w0 = ws.first();
        let tail = ws.drop_first();
        assert(t.subrange(pos, t.len() as int) == ","@ + (enc_hop(w0) + (enc_hops_tail(tail)
            + rest))) by {
            assert(enc_hops_tail(ws) + rest =~= ","@ + (enc_hop(w0) + (enc_hops_tail(tail)
                + rest)));
        }
        lemma_sp_lit_inverts(t, pos, ","@, enc_hop(w0) + (enc_hops_tail(tail) + rest));
        assert(sp_lit(t, pos, "]"@) is None) by {
            if sp_lit(t, pos, "]"@) is Some {
                assert(t.subrange(pos, pos + 1)[0] == t[pos]);
                assert(t.subrange(pos, t.len() as int)[0] == t[pos]);
                assert((","@ + (enc_hop(w0) + (enc_hops_tail(tail) + rest)))[0] == ',');
            }
        }
        lemma_hop_at_inverts(t, pos + 1, w0, enc_hops_tail(tail) + rest);
        lemma_hops_tail_inverts(t, pos + 1 + enc_hop(w0).len(), tail, rest);
        assert(seq![w0] + tail =~= ws);
    }
}

/// A hop list written at `pos` parses back from there.
#[verifier::rlimit(75)]
pub proof fn lemma_hops_inverts(t: Seq<char>, pos: int, ws: Seq<HopWire>, rest: Seq<char>)
    requires
        0 <= pos <= t.len(),
        t.subrange(pos, t.len() as int) == enc_hops(ws) + rest,
    ensures
        sp_hops_at(t, pos) == Some((ws, pos + enc_hops(ws).len())),
        t.subrange(pos + enc_hops(ws).len(), t.len() as int) == rest,
        pos + enc_hops(ws).len() + rest.len() == t.len(),
{
    reveal_strlit("[");
    reveal_strlit("]");
    reveal_strlit("[]");
    if ws.len() == 0 {
        assert(t.subrange(pos, t.len() as int) == "["@ + ("]"@ + rest)) by {
            assert("[]"@ =~= "["@ + "]"@);
            assert(enc_hops(ws) + rest =~= "["@ + ("]"@ + rest));
        }
        lemma_sp_lit_inverts(t, pos, "["@, "]"@ + rest);
        lemma_sp_lit_inverts(t, pos + 1, "]"@, rest);
    } else {
        let w0 = ws.first();
        let tail = ws.drop_first();
        assert(t.subrange(pos, t.len() as int) == "["@ + (enc_hop(w0) + (enc_hops_tail(tail)
            + rest))) by {
            assert(enc_hops(ws) + rest =~= "["@ + (enc_hop(w0) + (enc_hops_tail(tail) + rest)));
        }
        lemma_sp_lit_inverts(t, pos, "["@, enc_hop(w0) + (enc_hops_tail(tail) + rest));
        lemma_enc_hop_first(w0);
        assert(sp_lit(t, pos + 1, "]"@) is None) by {
            if sp_lit(t, pos + 1, "]"@) is Some {
                assert(t.subrange(pos + 1, pos + 2)[0] == t[pos + 1]);
                assert(t.subrange(pos + 1, t.len() as int)[0] == t[pos + 1]);
                assert((enc_hop(w0) + (enc_hops_tail(tail) + rest))[0] == '{');
            }
        }
        lemma_hop_at_inverts(t, pos + 1, w0, enc_hops_tail(tail) + rest);
        lemma_hops_tail_inverts(t, pos + 1 + enc_hop(w0).len(), tail, rest);
        assert(seq![w0] + tail =~= ws);
    }
}

/// Append the canonical wire text of a hop list.
pub fn enc_hops_push(out: &mut String, items: &Vec<Hop>)
    ensures
        final(out)@ == old(out)@ + enc_hops(items@.map_values(|x: Hop| hop_wire_of(x))),
{
    let ghost ws = items@.map_values(|x: Hop| hop_wire_of(x));
    let n = items.len();
    if n == 0 {
        out.append("[]");
        return;
    }
    let ghost base = out@;
    out.append("[");
    enc_hop_push(out, &items[0]);
    proof {
        assert(ws.first() == hop_wire_of(items@[0]));
        assert(ws.drop_first() =~= ws.skip(1));
        assert(base + enc_hops(ws) =~= out@ + enc_hops_tail(ws.skip(1)));
    }
    let mut i: usize = 1;
    while i < n
        invariant
            1 <= i <= n,
            n == items@.len(),
            ws == items@.map_values(|x: Hop| hop_wire_of(x)),
            base + enc_hops(ws) == out@ + enc_hops_tail(ws.skip(i as int)),
        decreases n - i,
    {
        let ghost pre = out@;
        out.append(",");
        enc_hop_push(out, &items[i]);
        proof {
            assert(ws.skip(i as int).first() == hop_wire_of(items@[i as int]));
            assert(ws.skip(i as int).drop_first() =~= ws.skip(i + 1 as int));
            assert(enc_hops_tail(ws.skip(i as int)) == ","@ + (enc_hop(ws.skip(i as int).first())
                + enc_hops_tail(ws.skip(i + 1 as int))));
            assert(pre + enc_hops_tail(ws.skip(i as int)) =~= out@ + enc_hops_tail(ws.skip(
                i + 1 as int,
            )));
        }
        i = i + 1;
    }
    proof {
        assert(ws.skip(n as int) =~= Seq::<HopWire>::empty());
    }
    out.append("]");
    proof {
        assert(out@ =~= base + enc_hops(ws));
    }
}

/// Decode a hop list at `pos`.
pub fn decode_hops_at(t: &str, pos: usize) -> (r: Option<(Vec<Hop>, usize)>)
    ensures
        (match sp_hops_at(t@, pos as int) {
            Some((ws, e)) => {
                &&& r matches Some(p)
                &&& r.unwrap().0@.map_values(|x: Hop| hop_wire_of(x)) == ws
                &&& r.unwrap().1 == e
                &&& pos < e <= t@.len()
            },
            None => r is None,
        }),
{
    let p0 = match parse_lit(t, pos, "[") {
        Some(p) => p,
        None => {
            return None;
        },
    };
    if let Some(e) = parse_lit(t, p0, "]") {
        let v: Vec<Hop> = Vec::new();
        proof {
            assert(v@.map_values(|x: Hop| hop_wire_of(x)) =~= Seq::<HopWire>::empty());
            reveal_strlit("[");
        }
        return Some((v, e));
    }
    let first = match decode_hop_at(t, p0) {
        Some(p) => p,
        None => {
            return None;
        },
    };
    let mut acc: Vec<Hop> = Vec::new();
    let mut i = first.1;
    acc.push(first.0);
    proof {
        assert(acc@.map_values(|x: Hop| hop_wire_of(x)) =~= seq![hop_wire_of(acc@[0])]);
    }
    loop
        invariant
            pos < i <= t@.len(),
            (match sp_hops_tail(t@, i as int) {
                Some((ws2, e)) => sp_hops_at(t@, pos as int) == Some(
                    (acc@.map_values(|x: Hop| hop_wire_of(x)) + ws2, e),
                ),
                None => sp_hops_at(t@, pos as int) is None,
            }),
        decreases t@.len() - i,
    {
        if let Some(e) = parse_lit(t, i, "]") {
            proof {
                assert(acc@.map_values(|x: Hop| hop_wire_of(x)) + Seq::<HopWire>::empty() =~= acc@.map_values(|x: Hop| hop_wire_of(x)));
            }
            return Some((acc, e));
        }
        let p1 = match parse_lit(t, i, ",") {
            Some(p) => p,
            None => {
                return None;
            },
        };
        let item_parsed = match decode_hop_at(t, p1) {
            Some(p) => p,
            None => {
                return None;
            },
        };
        proof {
            match sp_hops_tail(t@, item_parsed.1 as int) {
                Some((ws2, e)) => {
                    assert(acc@.map_values(|x: Hop| hop_wire_of(x)) + (seq![hop_wire_of(item_parsed.0)] + ws2)
                        =~= acc@.push(item_parsed.0).map_values(|x: Hop| hop_wire_of(x)) + ws2);
                },
                None => {},
            }
        }
        acc.push(item_parsed.0);
        i = item_parsed.1;
    }
}

/// Canonical wire text of a record list, after the first item.
pub open spec fn enc_dnsrecords_tail(ws: Seq<DnsrecordWire>) -> Seq<char>
    decreases ws.len(),
{
    if ws.len() == 0 {
        "]"@
    } else {
        ","@ + (enc_dnsrecord(ws.first()) + enc_dnsrecords_tail(ws.drop_first()))
    }
}

/// Canonical wire text of a record list.
pub open spec fn enc_dnsrecords(ws: Seq<DnsrecordWire>) -> Seq<char> {
    if ws.len() == 0 {
        "[]"@
    } else {
        "["@ + (enc_dnsrecord(ws.first()) + enc_dnsrecords_tail(ws.drop_first()))
    }
}

/// Parse the items after the first, each behind its separator, up to
/// the closing bracket.
pub open spec fn sp_dnsrecords_tail(t: Seq<char>, pos: int) -> Option<(Seq<DnsrecordWire>, int)>
    decreases t.len() - pos,
{
    match sp_lit(t, pos, "]"@) {
        Some(e) => Some((Seq::empty(), e)),
        None => match sp_lit(t, pos, ","@) {
            None => None,
            Some(p1) => match sp_dnsrecord_at(t, p1) {
                None => None,
                Some((w, p2)) => if pos < p2 <= t.len() {
                    match sp_dnsrecords_tail(t, p2) {
                        None => None,
                        Some((ws, e)) => Some((seq![w] + ws, e)),
                    }
                } else {
                    None
                },
            },
        },
    }
}

/// Parse a record list at `pos`.
pub open spec fn sp_dnsrecords_at(t: Seq<char>, pos: int) -> Option<(Seq<DnsrecordWire>, int)> {
    match sp_lit(t, pos, "["@) {
        None => None,
        Some(p0) => match sp_lit(t, p0, "]"@) {
            Some(e) => Some((Seq::empty(), e)),
            None => match sp_dnsrecord_at(t, p0) {
                None => None,
                Some((w, p1)) => if p0 < p1 <= t.len() {
                    match sp_dnsrecords_tail(t, p1) {
                        None => None,
                        Some((ws, e)) => Some((seq![w] + ws, e)),
                    }
                } else {
                    None
                },
            },
        },
    }
}

/// The item run written at `pos` parses back from there.
#[verifier::rlimit(75)]
pub proof fn lemma_dnsrecords_tail_inverts(t: Seq<char>, pos: int, ws: Seq<DnsrecordWire>, rest: Seq<char>)
    requires
        0 <= pos <= t.len(),
        t.subrange(pos, t.len() as int) == enc_dnsrecords_tail(ws) + rest,
    ensures
        sp_dnsrecords_tail(t, pos) == Some((ws, pos + enc_dnsrecords_tail(ws).len())),
        t.subrange(pos + enc_dnsrecords_tail(ws).len(), t.len() as int) == rest,
        pos + enc_dnsrecords_tail(ws).len() + rest.len() == t.len(),
    decreases ws.len(),
{
    reveal_strlit(",");
    reveal_strlit("]");
    if ws.len() == 0 {
        lemma_sp_lit_inverts(t, pos, "]"@, rest);
    } else {
        let w0 = ws.first();
        let tail = ws.drop_first();
        assert(t.subrange(pos, t.len() as int) == ","@ + (enc_dnsrecord(w0) + (enc_dnsrecords_tail(tail)
            + rest))) by {
            assert(enc_dnsrecords_tail(ws) + rest =~= ","@ + (enc_dnsrecord(w0) + (enc_dnsrecords_tail(tail)
                + rest)));
        }
        lemma_sp_lit_inverts(t, pos, ","@, enc_dnsrecord(w0) + (enc_dnsrecords_tail(tail) + rest));
        assert(sp_lit(t, pos, "]"@) is None) by {
            if sp_lit(t, pos, "]"@) is Some {
                assert(t.subrange(pos, pos + 1)[0] == t[pos]);
                assert(t.subrange(pos, t.len() as int)[0] == t[pos]);
                assert((","@ + (enc_dnsrecord(w0) + (enc_dnsrecords_tail(tail) + rest)))[0] == ',');
            }
        }
        lemma_dnsrecord_at_inverts(t, pos + 1, w0, enc_dnsrecords_tail(tail) + rest);
        lemma_dnsrecords_tail_inverts(t, pos + 1 + enc_dnsrecord(w0).len(), tail, rest);
        assert(seq![w0] + tail =~= ws);
    }
}

/// A record list written at `pos` parses back from there.
#[verifier::rlimit(75)]
pub proof fn lemma_dnsrecords_inverts(t: Seq<char>, pos: int, ws: Seq<DnsrecordWire>, rest: Seq<char>)
    requires
        0 <= pos <= t.len(),
        t.subrange(pos, t.len() as int) == enc_dnsrecords(ws) + rest,
    ensures
        sp_dnsrecords_at(t, pos) == Some((ws, pos + enc_dnsrecords(ws).len())),
        t.subrange(pos + enc_dnsrecords(ws).len(), t.len() as int) == rest,
        pos + enc_dnsrecords(ws).len() + rest.len() == t.len(),
{
    reveal_strlit("[");
    reveal_strlit("]");
    reveal_strlit("[]");
    if ws.len() == 0 {
        assert(t.subrange(pos, t.len() as int) == "["@ + ("]"@ + rest)) by {
            assert("[]"@ =~= "["@ + "]"@);
            assert(enc_dnsrecords(ws) + rest =~= "["@ + ("]"@ + rest));
        }
        lemma_sp_lit_inverts(t, pos, "["@, "]"@ + rest);
        lemma_sp_lit_inverts(t, pos + 1, "]"@, rest);
    } else {
        let w0 = ws.first();
        let tail = ws.drop_first();
        assert(t.subrange(pos, t.len() as int) == "["@ + (enc_dnsrecord(w0) + (enc_dnsrecords_tail(tail)
            + rest))) by {
            assert(enc_dnsrecords(ws) + rest =~= "["@ + (enc_dnsrecord(w0) + (enc_dnsrecords_tail(tail) + rest)));
        }
        lemma_sp_lit_inverts(t, pos, "["@, enc_dnsrecord(w0) + (enc_dnsrecords_tail(tail) + rest));
        lemma_enc_dnsrecord_first(w0);
        assert(sp_lit(t, pos + 1, "]"@) is None) by {
            if sp_lit(t, pos + 1, "]"@) is Some {
                assert(t.subrange(pos + 1, pos + 2)[0] == t[pos + 1]);
                assert(t.subrange(pos + 1, t.len() as int)[0] == t[pos + 1]);
                assert((enc_dnsrecord(w0) + (enc_dnsrecords_tail(tail) + rest))[0] == '{');
            }
        }
        lemma_dnsrecord_at_inverts(t, pos + 1, w0, enc_dnsrecords_tail(tail) + rest);
        lemma_dnsrecords_tail_inverts(t, pos + 1 + enc_dnsrecord(w0).len(), tail, rest);
        assert(seq![w0] + tail =~= ws);
    }
}

/// Append the canonical wire text of a record list.
pub fn enc_dnsrecords_push(out: &mut String, items: &Vec<DnsRecord>)
    ensures
        final(out)@ == old(out)@ + enc_dnsrecords(items@.map_values(|x: DnsRecord| dnsrecord_wire_of(x))),
{
    let ghost ws = items@.map_values(|x: DnsRecord| dnsrecord_wire_of(x));
    let n = items.len();
    if n == 0 {
        out.append("[]");
        return;
    }
    let ghost base = out@;
    out.append("[");
    enc_dnsrecord_push(out, &items[0]);
    proof {
        assert(ws.first() == dnsrecord_wire_of(items@[0]));
        assert(ws.drop_first() =~= ws.skip(1));
        assert(base + enc_dnsrecords(ws) =~= out@ + enc_dnsrecords_tail(ws.skip(1)));
    }
    let mut i: usize = 1;
    while i < n
        invariant
            1 <= i <= n,
            n == items@.len(),
            ws == items@.map_values(|x: DnsRecord| dnsrecord_wire_of(x)),
            base + enc_dnsrecords(ws) == out@ + enc_dnsrecords_tail(ws.skip(i as int)),
        decreases n - i,
    {
        let ghost pre = out@;
        out.append(",");
        enc_dnsrecord_push(out, &items[i]);
        proof {
            assert(ws.skip(i as int).first() == dnsrecord_wire_of(items@[i as int]));
            assert(ws.skip(i as int).drop_first() =~= ws.skip(i + 1 as int));
            assert(enc_dnsrecords_tail(ws.skip(i as int)) == ","@ + (enc_dnsrecord(ws.skip(i as int).first())
                + enc_dnsrecords_tail(ws.skip(i + 1 as int))));
            assert(pre + enc_dnsrecords_tail(ws.skip(i as int)) =~= out@ + enc_dnsrecords_tail(ws.skip(
                i + 1 as int,
            )));
        }
        i = i + 1;
    }
    proof {
        assert(ws.skip(n as int) =~= Seq::<DnsrecordWire>::empty());
    }
    out.append("]");
    proof {
        assert(out@ =~= base + enc_dnsrecords(ws));
    }
}

/// Decode a record list at `pos`.
pub fn decode_dnsrecords_at(t: &str, pos: usize) -> (r: Option<(Vec<DnsRecord>, usize)>)
    ensures
        (match sp_dnsrecords_at(t@, pos as int) {
            Some((ws, e)) => {
                &&& r matches Some(p)
                &&& r.unwrap().0@.map_values(|x: DnsRecord| dnsrecord_wire_of(x)) == ws
                &&& r.unwrap().1 == e
                &&& pos < e <= t@.len()
            },
            None => r is None,
        }),
{
    let p0 = match parse_lit(t, pos, "[") {
        Some(p) => p,
        None => {
            return None;
        },
    };
    if let Some(e) = parse_lit(t, p0, "]") {
        let v: Vec<DnsRecord> = Vec::new();
        proof {
            assert(v@.map_values(|x: DnsRecord| dnsrecord_wire_of(x)) =~= Seq::<DnsrecordWire>::empty());
            reveal_strlit("[");
        }
        return Some((v, e));
    }
    let first = match decode_dnsrecord_at(t, p0) {
        Some(p) => p,
        None => {
            return None;
        },
    };
    let mut acc: Vec<DnsRecord> = Vec::new();
    let mut i = first.1;
    acc.push(first.0);
    proof {
        assert(acc@.map_values(|x: DnsRecord| dnsrecord_wire_of(x)) =~= seq![dnsrecord_wire_of(acc@[0])]);
    }
    loop
        invariant
            pos < i <= t@.len(),
            (match sp_dnsrecords_tail(t@, i as int) {
                Some((ws2, e)) => sp_dnsrecords_at(t@, pos as int) == Some(
                    (acc@.map_values(|x: DnsRecord| dnsrecord_wire_of(x)) + ws2, e),
                ),
                None => sp_dnsrecords_at(t@, pos as int) is None,
            }),
        decreases t@.len() - i,
    {
        if let Some(e) = parse_lit(t, i, "]") {
            proof {
                assert(acc@.map_values(|x: DnsRecord| dnsrecord_wire_of(x)) + Seq::<DnsrecordWire>::empty() =~= acc@.map_values(|x: DnsRecord| dnsrecord_wire_of(x)));
            }
            return Some((acc, e));
        }
        let p1 = match parse_lit(t, i, ",") {
            Some(p) => p,
            None => {
                return None;
            },
        };
        let item_parsed = match decode_dnsrecord_at(t, p1) {
            Some(p) => p,
            None => {
                return None;
            },
        };
        proof {
            match sp_dnsrecords_tail(t@, item_parsed.1 as int) {
                Some((ws2, e)) => {
                    assert(acc@.map_values(|x: DnsRecord| dnsrecord_wire_of(x)) + (seq![dnsrecord_wire_of(item_parsed.0)] + ws2)
                        =~= acc@.push(item_parsed.0).map_values(|x: DnsRecord| dnsrecord_wire_of(x)) + ws2);
                },
                None => {},
            }
        }
        acc.push(item_parsed.0);
        i = item_parsed.1;
    }
}

/// Canonical wire text of a header map, after the first item.
pub open spec fn enc_headers_tail(ws: Seq<PairWire>) -> Seq<char>
    decreases ws.len(),
{
    if ws.len() == 0 {
        "}"@
    } else {
        ","@ + (enc_pair(ws.first()) + enc_headers_tail(ws.drop_first()))
    }
}

/// Canonical wire text of a header map.
pub open spec fn enc_headers(ws: Seq<PairWire>) -> Seq<char> {
    if ws.len() == 0 {
        "{}"@
    } else {
        "{"@ + (enc_pair(ws.first()) + enc_headers_tail(ws.drop_first()))
    }
}

/// Parse the items after the first, each behind its separator, up to
/// the closing bracket.
pub open spec fn sp_headers_tail(t: Seq<char>, pos: int) -> Option<(Seq<PairWire>, int)>
    decreases t.len() - pos,
{
    match sp_lit(t, pos, "}"@) {
        Some(e) => Some((Seq::empty(), e)),
        None => match sp_lit(t, pos, ","@) {
            None => None,
            Some(p1) => match sp_pair_at(t, p1) {
                None => None,
                Some((w, p2)) => if pos < p2 <= t.len() {
                    match sp_headers_tail(t, p2) {
                        None => None,
                        Some((ws, e)) => Some((seq![w] + ws, e)),
                    }
                } else {
                    None
                },
            },
        },
    }
}

/// Parse a header map at `pos`.
pub open spec fn sp_headers_at(t: Seq<char>, pos: int) -> Option<(Seq<PairWire>, int)> {
    match sp_lit(t, pos, "{"@) {
        None => None,
        Some(p0) => match sp_lit(t, p0, "}"@) {
            Some(e) => Some((Seq::empty(), e)),
            None => match sp_pair_at(t, p0) {
                None => None,
                Some((w, p1)) => if p0 < p1 <= t.len() {
                    match sp_headers_tail(t, p1) {
                        None => None,
                        Some((ws, e)) => Some((seq![w] + ws, e)),
                    }
                } else {
                    None
                },
            },
        },
    }
}

/// The item run written at `pos` parses back from there.
#[verifier::rlimit(75)]
pub proof fn lemma_headers_tail_inverts(t: Seq<char>, pos: int, ws: Seq<PairWire>, rest: Seq<char>)
    requires
        0 <= pos <= t.len(),
        t.subrange(pos, t.len() as int) == enc_headers_tail(ws) + rest,
    ensures
        sp_headers_tail(t, pos) == Some((ws, pos + enc_headers_tail(ws).len())),
        t.subrange(pos + enc_headers_tail(ws).len(), t.len() as int) == rest,
        pos + enc_headers_tail(ws).len() + rest.len() == t.len(),
    decreases ws.len(),
{
    reveal_strlit(",");
    reveal_strlit("}");
    if ws.len() == 0 {
        lemma_sp_lit_inverts(t, pos, "}"@, rest);
    } else {
        let w0 = ws.first();
        let tail = ws.drop_first();
        assert(t.subrange(pos, t.len() as int) == ","@ + (enc_pair(w0) + (enc_headers_tail(tail)
            + rest))) by {
            assert(enc_headers_tail(ws) + rest =~= ","@ + (enc_pair(w0) + (enc_headers_tail(tail)
                + rest)));
        }
        lemma_sp_lit_inverts(t, pos, ","@, enc_pair(w0) + (enc_headers_tail(tail) + rest));
        assert(sp_lit(t, pos, "}"@) is None) by {
            if sp_lit(t, pos, "}"@) is Some {
                assert(t.subrange(pos, pos + 1)[0] == t[pos]);
                assert(t.subrange(pos, t.len() as int)[0] == t[pos]);
                assert((","@ + (enc_pair(w0) + (enc_headers_tail(tail) + rest)))[0] == ',');
            }
        }
        lemma_pair_at_inverts(t, pos + 1, w0, enc_headers_tail(tail) + rest);
        lemma_headers_tail_inverts(t, pos + 1 + enc_pair(w0).len(), tail, rest);
        assert(seq![w0] + tail =~= ws);
    }
}

/// A header map written at `pos` parses back from there.
#[verifier::rlimit(75)]
pub proof fn lemma_headers_inverts(t: Seq<char>, pos: int, ws: Seq<PairWire>, rest: Seq<char>)
    requires
        0 <= pos <= t.len(),
        t.subrange(pos, t.len() as int) == enc_headers(ws) + rest,
    ensures
        sp_headers_at(t, pos) == Some((ws, pos + enc_headers(ws).len())),
        t.subrange(pos + enc_headers(ws).len(), t.len() as int) == rest,
        pos + enc_headers(ws).len() + rest.len() == t.len(),
{
    reveal_strlit("{");
    reveal_strlit("}");
    reveal_strlit("{}");
    if ws.len() == 0 {
        assert(t.subrange(pos, t.len() as int) == "{"@ + ("}"@ + rest)) by {
            assert("{}"@ =~= "{"@ + "}"@);
            assert(enc_headers(ws) + rest =~= "{"@ + ("}"@ + rest));
        }
        lemma_sp_lit_inverts(t, pos, "{"@, "}"@ + rest);
        lemma_sp_lit_inverts(t, pos + 1, "}"@, rest);
    } else {
        let w0 = ws.first();
        let tail = ws.drop_first();
        assert(t.subrange(pos, t.len() as int) == "{"@ + (enc_pair(w0) + (enc_headers_tail(tail)
            + rest))) by {
            assert(enc_headers(ws) + rest =~= "{"@ + (enc_pair(w0) + (enc_headers_tail(tail) + rest)));
        }
        lemma_sp_lit_inverts(t, pos, "{"@, enc_pair(w0) + (enc_headers_tail(tail) + rest));
        lemma_enc_pair_first(w0);
        assert(sp_lit(t, pos + 1, "}"@) is None) by {
            if sp_lit(t, pos + 1, "}"@) is Some {
                assert(t.subrange(pos + 1, pos + 2)[0] == t[pos + 1]);
                assert(t.subrange(pos + 1, t.len() as int)[0] == t[pos + 1]);
                assert((enc_pair(w0) + (enc_headers_tail(tail) + rest))[0] == '"');
            }
        }
        lemma_pair_at_inverts(t, pos + 1, w0, enc_headers_tail(tail) + rest);
        lemma_headers_tail_inverts(t, pos + 1 + enc_pair(w0).len(), tail, rest);
        assert(seq![w0] + tail =~= ws);
    }
}

/// Append the canonical wire text of a header map.
#[verifier::rlimit(50)]
pub fn enc_headers_push(out: &mut String, items: &Vec<(String, String)>)
    ensures
        final(out)@ == old(out)@ + enc_headers(items@.map_values(|x: (String, String)| pair_wire_of(x))),
{
    let ghost ws = items@.map_values(|x: (String, String)| pair_wire_of(x));
    let n = items.len();
    if n == 0 {
        out.append("{}");
        return;
    }
    let ghost base = out@;
    out.append("{");
    enc_pair_push(out, &items[0]);
    proof {
        assert(ws.first() == pair_wire_of(items@[0]));
        assert(ws.drop_first() =~= ws.skip(1));
        assert(base + enc_headers(ws) =~= out@ + enc_headers_tail(ws.skip(1)));
    }
    let mut i: usize = 1;
    while i < n
        invariant
            1 <= i <= n,
            n == items@.len(),
            ws == items@.map_values(|x: (String, String)| pair_wire_of(x)),
            base + enc_headers(ws) == out@ + enc_headers_tail(ws.skip(i as int)),
        decreases n - i,
    {
        let ghost pre = out@;
        out.append(",");
        enc_pair_push(out, &items[i]);
        proof {
            assert(ws.skip(i as int).first() == pair_wire_of(items@[i as int]));
            assert(ws.skip(i as int).drop_first() =~= ws.skip(i + 1 as int));
            assert(enc_headers_tail(ws.skip(i as int)) == ","@ + (enc_pair(ws.skip(i as int).first())
                + enc_headers_tail(ws.skip(i + 1 as int))));
            assert(pre + enc_headers_tail(ws.skip(i as int)) =~= out@ + enc_headers_tail(ws.skip(
                i + 1 as int,
            )));
        }
        i = i + 1;
    }
    proof {
        assert(ws.skip(n as int) =~= Seq::<PairWire>::empty());
    }
    out.append("}");
    proof {
        assert(out@ =~= base + enc_headers(ws));
    }
}

/// Decode a header map at `pos`.
pub fn decode_headers_at(t: &str, pos: usize) -> (r: Option<(Vec<(String, String)>, usize)>)
    ensures
        (match sp_headers_at(t@, pos as int) {
            Some((ws, e)) => {
                &&& r matches Some(p)
                &&& r.unwrap().0@.map_values(|x: (String, String)| pair_wire_of(x)) == ws
                &&& r.unwrap().1 == e
                &&& pos < e <= t@.len()
            },
            None => r is None,
        }),
{
    let p0 = match parse_lit(t, pos, "{") {
        Some(p) => p,
        None => {
            return None;
        },
    };
    if let Some(e) = parse_lit(t, p0, "}") {
        let v: Vec<(String, String)> = Vec::new();
        proof {
            assert(v@.map_values(|x: (String, String)| pair_wire_of(x)) =~= Seq::<PairWire>::empty());
            reveal_strlit("{");
        }
        return Some((v, e));
    }
    let first = match decode_pair_at(t, p0) {
        Some(p) => p,
        None => {
            return None;
        },
    };
    let mut acc: Vec<(String, String)> = Vec::new();
    let mut i = first.1;
    acc.push(first.0);
    proof {
        assert(acc@.map_values(|x: (String, String)| pair_wire_of(x)) =~= seq![pair_wire_of(acc@[0])]);
    }
    loop
        invariant
            pos < i <= t@.len(),
            (match sp_headers_tail(t@, i as int) {
                Some((ws2, e)) => sp_headers_at(t@, pos as int) == Some(
                    (acc@.map_values(|x: (String, String)| pair_wire_of(x)) + ws2, e),
                ),
                None => sp_headers_at(t@, pos as int) is None,
            }),
        decreases t@.len() - i,
    {
        if let Some(e) = parse_lit(t, i, "}") {
            proof {
                assert(acc@.map_values(|x: (String, String)| pair_wire_of(x)) + Seq::<PairWire>::empty() =~= acc@.map_values(|x: (String, String)| pair_wire_of(x)));
            }
            return Some((acc, e));
        }
        let p1 = match parse_lit(t, i, ",") {
            Some(p) => p,
            None => {
                return None;
            },
        };
        let item_parsed = match decode_pair_at(t, p1) {
            Some(p) => p,
            None => {
                return None;
            },
        };
        proof {
            match sp_headers_tail(t@, item_parsed.1 as int) {
                Some((ws2, e)) => {
                    assert(acc@.map_values(|x: (String, String)| pair_wire_of(x)) + (seq![pair_wire_of(item_parsed.0)] + ws2)
                        =~= acc@.push(item_parsed.0).map_values(|x: (String, String)| pair_wire_of(x)) + ws2);
                },
                None => {},
            }
        }
        acc.push(item_parsed.0);
        i = item_parsed.1;
    }
}

/// The wire fields of a DNS query result.
pub struct DnsWire {
    pub domain: Seq<char>,
    pub query_type: Seq<char>,
    pub records: Seq<DnsrecordWire>,
    pub response_time_micros: u64,
    pub timestamp_ms: u64,
}

/// The wire fields a value of this kind carries.
pub open spec fn dns_wire_of(r: DnsQueryResult) -> DnsWire {
    DnsWire {
        domain: r.domain@,
        query_type: r.query_type@,
        records: r.records@.map_values(|x: DnsRecord| dnsrecord_wire_of(x)),
        response_time_micros: r.response_time_micros,
        timestamp_ms: r.timestamp_ms,
    }
}

/// One stretch of the canonical wire text.
pub open spec fn enc_dns_c1(w: DnsWire) -> Seq<char> {
    "{\"domain\":"@ + (enc_str(w.domain) + (",\"query_type\":"@ + (enc_str(w.query_type) + (",\"records\":"@ + (enc_dnsrecords(w.records))))))
}

/// One stretch of the canonical wire text.
pub open spec fn enc_dns_c2(w: DnsWire) -> Seq<char> {
    ",\"response_time_micros\":"@ + (spec_udec(w.response_time_micros as nat) + (",\"timestamp_ms\":"@ + (spec_udec(w.timestamp_ms as nat) + ("}"@))))
}

/// Canonical wire text of a DNS query result.
pub open spec fn enc_dns(w: DnsWire) -> Seq<char> {
    enc_dns_c1(w) + (enc_dns_c2(w))
}

/// Parse one stretch of the canonical wire text.
pub open spec fn sp_dns_c1(t: Seq<char>, pos: int) -> Option<((Seq<char>, Seq<char>, Seq<DnsrecordWire>), int)> {
    match sp_lit(t, pos, "{\"domain\":"@) {
        None => None,
        Some(q1) => match sp_string(t, q1) {
            None => None,
            Some((v0, q2)) => match sp_lit(t, q2, ",\"query_type\":"@) {
                None => None,
                Some(q3) => match sp_string(t, q3) {
                    None => None,
                    Some((v1, q4)) => match sp_lit(t, q4, ",\"records\":"@) {
                        None => None,
                        Some(q5) => match sp_dnsrecords_at(t, q5) {
                            None => None,
                            Some((v2, q6)) => Some(((v0, v1, v2), q6)),
                        },
                    },
                },
            },
        },
    }
}

/// Parse one stretch of the canonical wire text.
pub open spec fn sp_dns_c2(t: Seq<char>, pos: int) -> Option<((u64, u64), int)> {
    match sp_lit(t, pos, ",\"response_time_micros\":"@) {
        None => None,
        Some(q1) => match sp_u64(t, q1) {
            None => None,
            Some((v0, q2)) => match sp_lit(t, q2, ",\"timestamp_ms\":"@) {
                None => None,
                Some(q3) => match sp_u64(t, q3) {
                    None => None,
                    Some((v1, q4)) => match sp_lit(t, q4, "}"@) {
                        None => None,
                        Some(e) => Some(((v0, v1), e)),
                    },
                },
            },
        },
    }
}

/// Parse the canonical wire text of a DNS query result at `pos`.
pub open spec fn sp_dns_at(t: Seq<char>, pos: int) -> Option<(DnsWire, int)> {
    match sp_dns_c1(t, pos) {
        None => None,
        Some(((domain, query_type, records), p1)) => match sp_dns_c2(t, p1) {
            None => None,
            Some(((response_time_micros, timestamp_ms), p2)) => Some((DnsWire {
                    domain,
                    query_type,
                    records,
                    response_time_micros,
                    timestamp_ms,
                }, p2)),
        },
    }
}

/// Parse the canonical wire text of a DNS query result, whole.
pub open spec fn sp_dns(t: Seq<char>) -> Option<DnsWire> {
    match sp_dns_at(t, 0) {
        None => None,
        Some((w, e)) => if e == t.len() {
            Some(w)
        } else {
            None
        },
    }
}

/// The wire text of this kind opens with its brace.
#[verifier::rlimit(75)]
pub proof fn lemma_enc_dns_first(w: DnsWire)
    ensures
        enc_dns(w).len() > 0,
        enc_dns(w)[0] == '{',
{
    reveal_strlit("{\"domain\":");
    assert(enc_dns(w)[0] == "{\"domain\":"@[0]);
}

/// One stretch written at `pos` parses back from there.
#[verifier::rlimit(75)]
pub proof fn lemma_dns_c1_inverts(t: Seq<char>, pos: int, w: DnsWire, rest: Seq<char>)
    requires
        0 <= pos <= t.len(),
        t.subrange(pos, t.len() as int) == enc_dns_c1(w) + rest,
        rest.len() > 0 && rest[0] == ',',
    ensures
        sp_dns_c1(t, pos) == Some(((w.domain, w.query_type, w.records), pos + enc_dns_c1(w).len())),
        t.subrange(pos + enc_dns_c1(w).len(), t.len() as int) == rest,
        pos + enc_dns_c1(w).len() + rest.len() == t.len(),
{
    assert(t.subrange(pos, t.len() as int) == "{\"domain\":"@ + (enc_str(w.domain) + (",\"query_type\":"@ + (enc_str(w.query_type) + (",\"records\":"@ + (enc_dnsrecords(w.records) + (rest))))))) by {
        assert(enc_dns_c1(w) + rest =~= "{\"domain\":"@ + (enc_str(w.domain) + (",\"query_type\":"@ + (enc_str(w.query_type) + (",\"records\":"@ + (enc_dnsrecords(w.records) + (rest)))))));
    }
    lemma_sp_lit_inverts(t, pos, "{\"domain\":"@, enc_str(w.domain) + (",\"query_type\":"@ + (enc_str(w.query_type) + (",\"records\":"@ + (enc_dnsrecords(w.records) + (rest))))));
    lemma_sp_string_inverts(t, (pos + "{\"domain\":"@.len()), w.domain, ",\"query_type\":"@ + (enc_str(w.query_type) + (",\"records\":"@ + (enc_dnsrecords(w.records) + (rest)))));
    lemma_sp_lit_inverts(t, ((pos + "{\"domain\":"@.len()) + enc_str(w.domain).len()), ",\"query_type\":"@, enc_str(w.query_type) + (",\"records\":"@ + (enc_dnsrecords(w.records) + (rest))));
    lemma_sp_string_inverts(t, (((pos + "{\"domain\":"@.len()) + enc_str(w.domain).len()) + ",\"query_type\":"@.len()), w.query_type, ",\"records\":"@ + (enc_dnsrecords(w.records) + (rest)));
    lemma_sp_lit_inverts(t, ((((pos + "{\"domain\":"@.len()) + enc_str(w.domain).len()) + ",\"query_type\":"@.len()) + enc_str(w.query_type).len()), ",\"records\":"@, enc_dnsrecords(w.records) + (rest));
    lemma_dnsrecords_inverts(t, (((((pos + "{\"domain\":"@.len()) + enc_str(w.domain).len()) + ",\"query_type\":"@.len()) + enc_str(w.query_type).len()) + ",\"records\":"@.len()), w.records, rest);
}

/// One stretch written at `pos` parses back from there.
#[verifier::rlimit(75)]
pub proof fn lemma_dns_c2_inverts(t: Seq<char>, pos: int, w: DnsWire, rest: Seq<char>)
    requires
        0 <= pos <= t.len(),
        t.subrange(pos, t.len() as int) == enc_dns_c2(w) + rest,
    ensures
        sp_dns_c2(t, pos) == Some(((w.response_time_micros, w.timestamp_ms), pos + enc_dns_c2(w).len())),
        t.subrange(pos + enc_dns_c2(w).len(), t.len() as int) == rest,
        pos + enc_dns_c2(w).len() + rest.len() == t.len(),
{
    assert(t.subrange(pos, t.len() as int) == ",\"response_time_micros\":"@ + (spec_udec(w.response_time_micros as nat) + (",\"timestamp_ms\":"@ + (spec_udec(w.timestamp_ms as nat) + ("}"@ + (rest)))))) by {
        assert(enc_dns_c2(w) + rest =~= ",\"response_time_micros\":"@ + (spec_udec(w.response_time_micros as nat) + (",\"timestamp_ms\":"@ + (spec_udec(w.timestamp_ms as nat) + ("}"@ + (rest))))));
    }
    lemma_sp_lit_inverts(t, pos, ",\"response_time_micros\":"@, spec_udec(w.response_time_micros as nat) + (",\"timestamp_ms\":"@ + (spec_udec(w.timestamp_ms as nat) + ("}"@ + (rest)))));
    assert((",\"timestamp_ms\":"@ + (spec_udec(w.timestamp_ms as nat) + ("}"@ + (rest))))[0] == ',') by {
        reveal_strlit(",\"timestamp_ms\":");
    }
    lemma_sp_num_inverts(t, (pos + ",\"response_time_micros\":"@.len()), w.response_time_micros, ",\"timestamp_ms\":"@ + (spec_udec(w.timestamp_ms as nat) + ("}"@ + (rest))));
    lemma_sp_lit_inverts(t, ((pos + ",\"response_time_micros\":"@.len()) + spec_udec(w.response_time_micros as nat).len()), ",\"timestamp_ms\":"@, spec_udec(w.timestamp_ms as nat) + ("}"@ + (rest)));
    assert(("}"@ + (rest))[0] == '}') by {
        reveal_strlit("}");
    }
    lemma_sp_num_inverts(t, (((pos + ",\"response_time_micros\":"@.len()) + spec_udec(w.response_time_micros as nat).len()) + ",\"timestamp_ms\":"@.len()), w.timestamp_ms, "}"@ + (rest));
    lemma_sp_lit_inverts(t, ((((pos + ",\"response_time_micros\":"@.len()) + spec_udec(w.response_time_micros as nat).len()) + ",\"timestamp_ms\":"@.len()) + spec_udec(w.timestamp_ms as nat).len()), "}"@, rest);
}

/// The wire text of this kind written at `pos` parses back from there.
#[verifier::rlimit(75)]
pub proof fn lemma_dns_at_inverts(t: Seq<char>, pos: int, w: DnsWire, rest: Seq<char>)
    requires
        0 <= pos <= t.len(),
        t.subrange(pos, t.len() as int) == enc_dns(w) + rest,
    ensures
        sp_dns_at(t, pos) == Some((w, pos + enc_dns(w).len())),
        t.subrange(pos + enc_dns(w).len(), t.len() as int) == rest,
        pos + enc_dns(w).len() + rest.len() == t.len(),
{
    assert(t.subrange(pos, t.len() as int) == enc_dns_c1(w) + (enc_dns_c2(w) + (rest))) by {
        assert(enc_dns(w) + rest =~= enc_dns_c1(w) + (enc_dns_c2(w) + (rest)));
    }
    reveal_strlit(",\"response_time_micros\":");
    assert((enc_dns_c2(w) + (rest))[0] == ",\"response_time_micros\":"@[0]) by {
        assert(enc_dns_c2(w)[0] == ",\"response_time_micros\":"@[0]);
    }
    lemma_dns_c1_inverts(t, pos, w, enc_dns_c2(w) + (rest));
    lemma_dns_c2_inverts(t, (pos + enc_dns_c1(w).len()), w, rest);
}

/// Round trip: decoding the canonical wire text of a DNS query result
/// gives back every field.
#[verifier::rlimit(75)]
pub proof fn lemma_dns_round_trip(w: DnsWire)
    ensures
        sp_dns(enc_dns(w)) == Some(w),
{
    let t = enc_dns(w);
    assert(t.subrange(0, t.len() as int) == enc_dns(w) + Seq::<char>::empty()) by {
        assert(t.subrange(0, t.len() as int) =~= enc_dns(w) + Seq::<char>::empty());
    }
    lemma_dns_at_inverts(t, 0, w, Seq::<char>::empty());
}

/// Append one stretch of the canonical wire text.
fn enc_dns_c1_push(out: &mut String, r: &DnsQueryResult)
    ensures
        final(out)@ == old(out)@ + enc_dns_c1(dns_wire_of(*r)),
{
    out.append("{\"domain\":");
    enc_push_str(out, r.domain.as_str());
    out.append(",\"query_type\":");
    enc_push_str(out, r.query_type.as_str());
    out.append(",\"records\":");
    enc_dnsrecords_push(out, &r.records);
    proof {
        assert(out@ =~= old(out)@ + enc_dns_c1(dns_wire_of(*r)));
    }
}

/// Append one stretch of the canonical wire text.
fn enc_dns_c2_push(out: &mut String, r: &DnsQueryResult)
    ensures
        final(out)@ == old(out)@ + enc_dns_c2(dns_wire_of(*r)),
{
    out.append(",\"response_time_micros\":");
    enc_push_u64(out, r.response_time_micros);
    out.append(",\"timestamp_ms\":");
    enc_push_u64(out, r.timestamp_ms);
    out.append("}");
    proof {
        assert(out@ =~= old(out)@ + enc_dns_c2(dns_wire_of(*r)));
    }
}

/// Append the canonical wire text of a DNS query result.
pub fn enc_dns_push(out: &mut String, r: &DnsQueryResult)
    ensures
        final(out)@ == old(out)@ + enc_dns(dns_wire_of(*r)),
{
    enc_dns_c1_push(out, r);
    enc_dns_c2_push(out, r);
    proof {
        assert(out@ =~= old(out)@ + enc_dns(dns_wire_of(*r)));
    }
}

/// Render a DNS query result in its canonical wire form.
pub fn encode_dns(r: &DnsQueryResult) -> (out: String)
    ensures
        out@ == enc_dns(dns_wire_of(*r)),
{
    let mut out = String::new();
    enc_dns_push(&mut out, r);
    out
}

/// Decode the canonical wire form of a DNS query result at `pos`.
pub fn decode_dns_at(t: &str, pos: usize) -> (r: Option<(DnsQueryResult, usize)>)
    ensures
        (match sp_dns_at(t@, pos as int) {
            Some((w, e)) => {
                &&& r matches Some(p)
                &&& dns_wire_of(r.unwrap().0) == w
                &&& r.unwrap().1 == e
                &&& pos < e <= t@.len()
            },
            None => r is None,
        }),
{
    let a0 = match parse_lit(t, pos, "{\"domain\":") {
        Some(p) => p,
        None => {
            return None;
        },
    };
    let (b0, b0_end) = match parse_string(t, a0) {
        Some(p) => p,
        None => {
            return None;
        },
    };
    let a1 = match parse_lit(t, b0_end, ",\"query_type\":") {
        Some(p) => p,
        None => {
            return None;
        },
    };
    let (b1, b1_end) = match parse_string(t, a1) {
        Some(p) => p,
        None => {
            return None;
        },
    };
    let a2 = match parse_lit(t, b1_end, ",\"records\":") {
        Some(p) => p,
        None => {
            return None;
        },
    };
    let (b2, b2_end) = match decode_dnsrecords_at(t, a2) {
        Some(p) => p,
        None => {
            return None;
        },
    };
    let a3 = match parse_lit(t, b2_end, ",\"response_time_micros\":") {
        Some(p) => p,
        None => {
            return None;
        },
    };
    let (b3, b3_end) = match parse_u64(t, a3) {
        Some(p) => p,
        None => {
            return None;
        },
    };
    let a4 = match parse_lit(t, b3_end, ",\"timestamp_ms\":") {
        Some(p) => p,
        None => {
            return None;
        },
    };
    let (b4, b4_end) = match parse_u64(t, a4) {
        Some(p) => p,
        None => {
            return None;
        },
    };
    let e = match parse_lit(t, b4_end, "}") {
        Some(p) => p,
        None => {
            return None;
        },
    };
    Some((
        DnsQueryResult {
            domain: b0,
            query_type: b1,
            records: b2,
            response_time_micros: b3,
            timestamp_ms: b4,
        },
        e,
    ))
}

/// Decode the canonical wire form of a DNS query result, whole.
pub fn decode_dns(t: &str) -> (r: Option<DnsQueryResult>)
    ensures
        (match sp_dns(t@) {
            Some(w) => r matches Some(x) && dns_wire_of(r.unwrap()) == w,
            None => r is None,
        }),
{
    match decode_dns_at(t, 0) {
        Some((x, e)) => {
            if e == t.unicode_len() {
                Some(x)
            } else {
                None
            }
        },
        None => None,
    }
}

/// The wire fields of a hop-discovery result.
pub struct TracerouteWire {
    pub host: Seq<char>,
    pub ip: Seq<char>,
    pub hops: Seq<HopWire>,
    pub max_hops: u32,
    pub total_time_micros: u64,
    pub timestamp_ms: u64,
}

/// The wire fields a value of this kind carries.
pub open spec fn traceroute_wire_of(r: TracerouteResult) -> TracerouteWire {
    TracerouteWire {
        host: r.host@,
        ip: r.ip@,
        hops: r.hops@.map_values(|x: Hop| hop_wire_of(x)),
        max_hops: r.max_hops,
        total_time_micros: r.total_time_micros,
        timestamp_ms: r.timestamp_ms,
    }
}

/// One stretch of the canonical wire text.
pub open spec fn enc_traceroute_c1(w: TracerouteWire) -> Seq<char> {
    "{\"host\":"@ + (enc_str(w.host) + (",\"ip\":"@ + (enc_str(w.ip) + (",\"hops\":"@ + (enc_hops(w.hops))))))
}

/// One stretch of the canonical wire text.
pub open spec fn enc_traceroute_c2(w: TracerouteWire) -> Seq<char> {
    ",\"max_hops\":"@ + (spec_udec(w.max_hops as nat) + (",\"total_time_micros\":"@ + (spec_udec(w.total_time_micros as nat) + (",\"timestamp_ms\":"@ + (spec_udec(w.timestamp_ms as nat) + ("}"@))))))
}

/// Canonical wire text of a hop-discovery result.
pub open spec fn enc_traceroute(w: TracerouteWire) -> Seq<char> {
    enc_traceroute_c1(w) + (enc_traceroute_c2(w))
}

/// Parse one stretch of the canonical wire text.
pub open spec fn sp_traceroute_c1(t: Seq<char>, pos: int) -> Option<((Seq<char>, Seq<char>, Seq<HopWire>), int)> {
    match sp_lit(t, pos, "{\"host\":"@) {
        None => None,
        Some(q1) => match sp_string(t, q1) {
            None => None,
            Some((v0, q2)) => match sp_lit(t, q2, ",\"ip\":"@) {
                None => None,
                Some(q3) => match sp_string(t, q3) {
                    None => None,
                    Some((v1, q4)) => match sp_lit(t, q4, ",\"hops\":"@) {
                        None => None,
                        Some(q5) => match sp_hops_at(t, q5) {
                            None => None,
                            Some((v2, q6)) => Some(((v0, v1, v2), q6)),
                        },
                    },
                },
            },
        },
    }
}

/// Parse one stretch of the canonical wire text.
pub open spec fn sp_traceroute_c2(t: Seq<char>, pos: int) -> Option<((u32, u64, u64), int)> {
    match sp_lit(t, pos, ",\"max_hops\":"@) {
        None => None,
        Some(q1) => match sp_u64(t, q1) {
            None => None,
            Some((v0, q2)) => if v0 <= 0xffff_ffffu64 {
                match sp_lit(t, q2, ",\"total_time_micros\":"@) {
                    None => None,
                    Some(q3) => match sp_u64(t, q3) {
                        None => None,
                        Some((v1, q4)) => match sp_lit(t, q4, ",\"timestamp_ms\":"@) {
                            None => None,
                            Some(q5) => match sp_u64(t, q5) {
                                None => None,
                                Some((v2, q6)) => match sp_lit(t, q6, "}"@) {
                                    None => None,
                                    Some(e) => Some(((v0 as u32, v1, v2), e)),
                                },
                            },
                        },
                    },
                }
            } else {
                None
            },
        },
    }
}

/// Parse the canonical wire text of a hop-discovery result at `pos`.
pub open spec fn sp_traceroute_at(t: Seq<char>, pos: int) -> Option<(TracerouteWire, int)> {
    match sp_traceroute_c1(t, pos) {
        None => None,
        Some(((host, ip, hops), p1)) => match sp_traceroute_c2(t, p1) {
            None => None,
            Some(((max_hops, total_time_micros, timestamp_ms), p2)) => Some((TracerouteWire {
                    host,
                    ip,
                    hops,
                    max_hops,
                    total_time_micros,
                    timestamp_ms,
                }, p2)),
        },
    }
}

/// Parse the canonical wire text of a hop-discovery result, whole.
pub open spec fn sp_traceroute(t: Seq<char>) -> Option<TracerouteWire> {
    match sp_traceroute_at(t, 0) {
        None => None,
        Some((w, e)) => if e == t.len() {
            Some(w)
        } else {
            None
        },
    }
}

/// The wire text of this kind opens with its brace.
#[verifier::rlimit(75)]
pub proof fn lemma_enc_traceroute_first(w: TracerouteWire)
    ensures
        enc_traceroute(w).len() > 0,
        enc_traceroute(w)[0] == '{',
{
    reveal_strlit("{\"host\":");
    assert(enc_traceroute(w)[0] == "{\"host\":"@[0]);
}

/// One stretch written at `pos` parses back from there.
#[verifier::rlimit(75)]
pub proof fn lemma_traceroute_c1_inverts(t: Seq<char>, pos: int, w: TracerouteWire, rest: Seq<char>)
    requires
        0 <= pos <= t.len(),
        t.subrange(pos, t.len() as int) == enc_traceroute_c1(w) + rest,
        rest.len() > 0 && rest[0] == ',',
    ensures
        sp_traceroute_c1(t, pos) == Some(((w.host, w.ip, w.hops), pos + enc_traceroute_c1(w).len())),
        t.subrange(pos + enc_traceroute_c1(w).len(), t.len() as int) == rest,
        pos + enc_traceroute_c1(w).len() + rest.len() == t.len(),
{
    assert(t.subrange(pos, t.len() as int) == "{\"host\":"@ + (enc_str(w.host) + (",\"ip\":"@ + (enc_str(w.ip) + (",\"hops\":"@ + (enc_hops(w.hops) + (rest))))))) by {
        assert(enc_traceroute_c1(w) + rest =~= "{\"host\":"@ + (enc_str(w.host) + (",\"ip\":"@ + (enc_str(w.ip) + (",\"hops\":"@ + (enc_hops(w.hops) + (rest)))))));
    }
    lemma_sp_lit_inverts(t, pos, "{\"host\":"@, enc_str(w.host) + (",\"ip\":"@ + (enc_str(w.ip) + (",\"hops\":"@ + (enc_hops(w.hops) + (rest))))));
    lemma_sp_string_inverts(t, (pos + "{\"host\":"@.len()), w.host, ",\"ip\":"@ + (enc_str(w.ip) + (",\"hops\":"@ + (enc_hops(w.hops) + (rest)))));
    lemma_sp_lit_inverts(t, ((pos + "{\"host\":"@.len()) + enc_str(w.host).len()), ",\"ip\":"@, enc_str(w.ip) + (",\"hops\":"@ + (enc_hops(w.hops) + (rest))));
    lemma_sp_string_inverts(t, (((pos + "{\"host\":"@.len()) + enc_str(w.host).len()) + ",\"ip\":"@.len()), w.ip, ",\"hops\":"@ + (enc_hops(w.hops) + (rest)));
    lemma_sp_lit_inverts(t, ((((pos + "{\"host\":"@.len()) + enc_str(w.host).len()) + ",\"ip\":"@.len()) + enc_str(w.ip).len()), ",\"hops\":"@, enc_hops(w.hops) + (rest));
    lemma_hops_inverts(t, (((((pos + "{\"host\":"@.len()) + enc_str(w.host).len()) + ",\"ip\":"@.len()) + enc_str(w.ip).len()) + ",\"hops\":"@.len()), w.hops, rest);
}

/// One stretch written at `pos` parses back from there.
#[verifier::rlimit(75)]
pub proof fn lemma_traceroute_c2_inverts(t: Seq<char>, pos: int, w: TracerouteWire, rest: Seq<char>)
    requires
        0 <= pos <= t.len(),
        t.subrange(pos, t.len() as int) == enc_traceroute_c2(w) + rest,
    ensures
        sp_traceroute_c2(t, pos) == Some(((w.max_hops, w.total_time_micros, w.timestamp_ms), pos + enc_traceroute_c2(w).len())),
        t.subrange(pos + enc_traceroute_c2(w).len(), t.len() as int) == rest,
        pos + enc_traceroute_c2(w).len() + rest.len() == t.len(),
{
    assert(t.subrange(pos, t.len() as int) == ",\"max_hops\":"@ + (spec_udec(w.max_hops as nat) + (",\"total_time_micros\":"@ + (spec_udec(w.total_time_micros as nat) + (",\"timestamp_ms\":"@ + (spec_udec(w.timestamp_ms as nat) + ("}"@ + (rest)))))))) by {
        assert(enc_traceroute_c2(w) + rest =~= ",\"max_hops\":"@ + (spec_udec(w.max_hops as nat) + (",\"total_time_micros\":"@ + (spec_udec(w.total_time_micros as nat) + (",\"timestamp_ms\":"@ + (spec_udec(w.timestamp_ms as nat) + ("}"@ + (rest))))))));
    }
    lemma_sp_lit_inverts(t, pos, ",\"max_hops\":"@, spec_udec(w.max_hops as nat) + (",\"total_time_micros\":"@ + (spec_udec(w.total_time_micros as nat) + (",\"timestamp_ms\":"@ + (spec_udec(w.timestamp_ms as nat) + ("}"@ + (rest)))))));
    assert((",\"total_time_micros\":"@ + (spec_udec(w.total_time_micros as nat) + (",\"timestamp_ms\":"@ + (spec_udec(w.timestamp_ms as nat) + ("}"@ + (rest))))))[0] == ',') by {
        reveal_strlit(",\"total_time_micros\":");
    }
    lemma_sp_num_inverts(t, (pos + ",\"max_hops\":"@.len()), w.max_hops as u64, ",\"total_time_micros\":"@ + (spec_udec(w.total_time_micros as nat) + (",\"timestamp_ms\":"@ + (spec_udec(w.timestamp_ms as nat) + ("}"@ + (rest))))));
    lemma_sp_lit_inverts(t, ((pos + ",\"max_hops\":"@.len()) + spec_udec(w.max_hops as nat).len()), ",\"total_time_micros\":"@, spec_udec(w.total_time_micros as nat) + (",\"timestamp_ms\":"@ + (spec_udec(w.timestamp_ms as nat) + ("}"@ + (rest)))));
    assert((",\"timestamp_ms\":"@ + (spec_udec(w.timestamp_ms as nat) + ("}"@ + (rest))))[0] == ',') by {
        reveal_strlit(",\"timestamp_ms\":");
    }
    lemma_sp_num_inverts(t, (((pos + ",\"max_hops\":"@.len()) + spec_udec(w.max_hops as nat).len()) + ",\"total_time_micros\":"@.len()), w.total_time_micros, ",\"timestamp_ms\":"@ + (spec_udec(w.timestamp_ms as nat) + ("}"@ + (rest))));
    lemma_sp_lit_inverts(t, ((((pos + ",\"max_hops\":"@.len()) + spec_udec(w.max_hops as nat).len()) + ",\"total_time_micros\":"@.len()) + spec_udec(w.total_time_micros as nat).len()), ",\"timestamp_ms\":"@, spec_udec(w.timestamp_ms as nat) + ("}"@ + (rest)));
    assert(("}"@ + (rest))[0] == '}') by {
        reveal_strlit("}");
    }
    lemma_sp_num_inverts(t, (((((pos + ",\"max_hops\":"@.len()) + spec_udec(w.max_hops as nat).len()) + ",\"total_time_micros\":"@.len()) + spec_udec(w.total_time_micros as nat).len()) + ",\"timestamp_ms\":"@.len()), w.timestamp_ms, "}"@ + (rest));
    lemma_sp_lit_inverts(t, ((((((pos + ",\"max_hops\":"@.len()) + spec_udec(w.max_hops as nat).len()) + ",\"total_time_micros\":"@.len()) + spec_udec(w.total_time_micros as nat).len()) + ",\"timestamp_ms\":"@.len()) + spec_udec(w.timestamp_ms as nat).len()), "}"@, rest);
}

/// The wire text of this kind written at `pos` parses back from there.
#[verifier::rlimit(75)]
pub proof fn lemma_traceroute_at_inverts(t: Seq<char>, pos: int, w: TracerouteWire, rest: Seq<char>)
    requires
        0 <= pos <= t.len(),
        t.subrange(pos, t.len() as int) == enc_traceroute(w) + rest,
    ensures
        sp_traceroute_at(t, pos) == Some((w, pos + enc_traceroute(w).len())),
        t.subrange(pos + enc_traceroute(w).len(), t.len() as int) == rest,
        pos + enc_traceroute(w).len() + rest.len() == t.len(),
{
    assert(t.subrange(pos, t.len() as int) == enc_traceroute_c1(w) + (enc_traceroute_c2(w) + (rest))) by {
        assert(enc_traceroute(w) + rest =~= enc_traceroute_c1(w) + (enc_traceroute_c2(w) + (rest)));
    }
    reveal_strlit(",\"max_hops\":");
    assert((enc_traceroute_c2(w) + (rest))[0] == ",\"max_hops\":"@[0]) by {
        assert(enc_traceroute_c2(w)[0] == ",\"max_hops\":"@[0]);
    }
    lemma_traceroute_c1_inverts(t, pos, w, enc_traceroute_c2(w) + (rest));
    lemma_traceroute_c2_inverts(t, (pos + enc_traceroute_c1(w).len()), w, rest);
}

/// Round trip: decoding the canonical wire text of a hop-discovery result
/// gives back every field.
#[verifier::rlimit(75)]
pub proof fn lemma_traceroute_round_trip(w: TracerouteWire)
    ensures
        sp_traceroute(enc_traceroute(w)) == Some(w),
{
    let t = enc_traceroute(w);
    assert(t.subrange(0, t.len() as int) == enc_traceroute(w) + Seq::<char>::empty()) by {
        assert(t.subrange(0, t.len() as int) =~= enc_traceroute(w) + Seq::<char>::empty());
    }
    lemma_traceroute_at_inverts(t, 0, w, Seq::<char>::empty());
}

/// Append one stretch of the canonical wire text.
fn enc_traceroute_c1_push(out: &mut String, r: &TracerouteResult)
    ensures
        final(out)@ == old(out)@ + enc_traceroute_c1(traceroute_wire_of(*r)),
{
    out.append("{\"host\":");
    enc_push_str(out, r.host.as_str());
    out.append(",\"ip\":");
    enc_push_str(out, r.ip.as_str());
    out.append(",\"hops\":");
    enc_hops_push(out, &r.hops);
    proof {
        assert(out@ =~= old(out)@ + enc_traceroute_c1(traceroute_wire_of(*r)));
    }
}

/// Append one stretch of the canonical wire text.
fn enc_traceroute_c2_push(out: &mut String, r: &TracerouteResult)
    ensures
        final(out)@ == old(out)@ + enc_traceroute_c2(traceroute_wire_of(*r)),
{
    out.append(",\"max_hops\":");
    enc_push_u64(out, r.max_hops as u64);
    out.append(",\"total_time_micros\":");
    enc_push_u64(out, r.total_time_micros);
    out.append(",\"timestamp_ms\":");
    enc_push_u64(out, r.timestamp_ms);
    out.append("}");
    proof {
        assert(out@ =~= old(out)@ + enc_traceroute_c2(traceroute_wire_of(*r)));
    }
}

/// Append the canonical wire text of a hop-discovery result.
pub fn enc_traceroute_push(out: &mut String, r: &TracerouteResult)
    ensures
        final(out)@ == old(out)@ + enc_traceroute(traceroute_wire_of(*r)),
{
    enc_traceroute_c1_push(out, r);
    enc_traceroute_c2_push(out, r);
    proof {
        assert(out@ =~= old(out)@ + enc_traceroute(traceroute_wire_of(*r)));
    }
}

/// Render a hop-discovery result in its canonical wire form.
pub fn encode_traceroute(r: &TracerouteResult) -> (out: String)
    ensures
        out@ == enc_traceroute(traceroute_wire_of(*r)),
{
    let mut out = String::new();
    enc_traceroute_push(&mut out, r);
    out
}

/// Decode the canonical wire form of a hop-discovery result at `pos`.
pub fn decode_traceroute_at(t: &str, pos: usize) -> (r: Option<(TracerouteResult, usize)>)
    ensures
        (match sp_traceroute_at(t@, pos as int) {
            Some((w, e)) => {
                &&& r matches Some(p)
                &&& traceroute_wire_of(r.unwrap().0) == w
                &&& r.unwrap().1 == e
                &&& pos < e <= t@.len()
            },
            None => r is None,
        }),
{
    let a0 = match parse_lit(t, pos, "{\"host\":") {
        Some(p) => p,
        None => {
            return None;
        },
    };
    let (b0, b0_end) = match parse_string(t, a0) {
        Some(p) => p,
        None => {
            return None;
        },
    };
    let a1 = match parse_lit(t, b0_end, ",\"ip\":") {
        Some(p) => p,
        None => {
            return None;
        },
    };
    let (b1, b1_end) = match parse_string(t, a1) {
        Some(p) => p,
        None => {
            return None;
        },
    };
    let a2 = match parse_lit(t, b1_end, ",\"hops\":") {
        Some(p) => p,
        None => {
            return None;
        },
    };
    let (b2, b2_end) = match decode_hops_at(t, a2) {
        Some(p) => p,
        None => {
            return None;
        },
    };
    let a3 = match parse_lit(t, b2_end, ",\"max_hops\":") {
        Some(p) => p,
        None => {
            return None;
        },
    };
    let (b3, b3_end) = match parse_u64(t, a3) {
        Some(p) => p,
        None => {
            return None;
        },
    };
    if b3 > 0xffff_ffffu64 {
        return None;
    }
    let a4 = match parse_lit(t, b3_end, ",\"total_time_micros\":") {
        Some(p) => p,
        None => {
            return None;
        },
    };
    let (b4, b4_end) = match parse_u64(t, a4) {
        Some(p) => p,
        None => {
            return None;
        },
    };
    let a5 = match parse_lit(t, b4_end, ",\"timestamp_ms\":") {
        Some(p) => p,
        None => {
            return None;
        },
    };
    let (b5, b5_end) = match parse_u64(t, a5) {
        Some(p) => p,
        None => {
            return None;
        },
    };
    let e = match parse_lit(t, b5_end, "}") {
        Some(p) => p,
        None => {
            return None;
        },
    };
    Some((
        TracerouteResult {
            host: b0,
            ip: b1,
            hops: b2,
            max_hops: b3 as u32,
            total_time_micros: b4,
            timestamp_ms: b5,
        },
        e,
    ))
}

/// Decode the canonical wire form of a hop-discovery result, whole.
pub fn decode_traceroute(t: &str) -> (r: Option<TracerouteResult>)
    ensures
        (match sp_traceroute(t@) {
            Some(w) => r matches Some(x) && traceroute_wire_of(r.unwrap()) == w,
            None => r is None,
        }),
{
    match decode_traceroute_at(t, 0) {
        Some((x, e)) => {
            if e == t.unicode_len() {
                Some(x)
            } else {
                None
            }
        },
        None => None,
    }
}

/// The wire fields of an HTTP probe result.
pub struct WebsiteWire {
    pub url: Seq<char>,
    pub status_code: Option<u16>,
    pub response_time_micros: u64,
    pub content_length: Option<usize>,
    pub success: bool,
    pub error_message: Option<Seq<char>>,
    pub headers: Seq<PairWire>,
    pub timestamp_ms: u64,
}

/// The wire fields a value of this kind carries.
pub open spec fn website_wire_of(r: WebsiteTestResult) -> WebsiteWire {
    WebsiteWire {
        url: r.url@,
        status_code: r.status_code,
        response_time_micros: r.response_time_micros,
        content_length: r.content_length,
        success: r.success,
        error_message: (match r.error_message { Some(s) => Some(s@), None => None }),
        headers: r.headers@.map_values(|x: (String, String)| pair_wire_of(x)),
        timestamp_ms: r.timestamp_ms,
    }
}

/// One stretch of the canonical wire text.
pub open spec fn enc_website_c1(w: WebsiteWire) -> Seq<char> {
    "{\"url\":"@ + (enc_str(w.url) + (",\"status_code\":"@ + (enc_opt_u64((match w.status_code { Some(x) => Some(x as u64), None => None })) + (",\"response_time_micros\":"@ + (spec_udec(w.response_time_micros as nat))))))
}

/// One stretch of the canonical wire text.
pub open spec fn enc_website_c2(w: WebsiteWire) -> Seq<char> {
    ",\"content_length\":"@ + (enc_opt_u64((match w.content_length { Some(x) => Some(x as u64), None => None })) + (",\"success\":"@ + (enc_bool(w.success) + (",\"error_message\":"@ + (enc_opt_str(w.error_message))))))
}

/// One stretch of the canonical wire text.
pub open spec fn enc_website_c3(w: WebsiteWire) -> Seq<char> {
    ",\"headers\":"@ + (enc_headers(w.headers) + (",\"timestamp_ms\":"@ + (spec_udec(w.timestamp_ms as nat) + ("}"@))))
}

/// Canonical wire text of an HTTP probe result.
pub open spec fn enc_website(w: WebsiteWire) -> Seq<char> {
    enc_website_c1(w) + (enc_website_c2(w) + (enc_website_c3(w)))
}

/// Parse one stretch of the canonical wire text.
pub open spec fn sp_website_c1(t: Seq<char>, pos: int) -> Option<((Seq<char>, Option<u16>, u64), int)> {
    match sp_lit(t, pos, "{\"url\":"@) {
        None => None,
        Some(q1) => match sp_string(t, q1) {
            None => None,
            Some((v0, q2)) => match sp_lit(t, q2, ",\"status_code\":"@) {
                None => None,
                Some(q3) => match sp_opt_u64(t, q3) {
                    None => None,
                    Some((v1, q4)) => if (match v1 { Some(x) => x <= 0xffffu64, None => true }) {
                        match sp_lit(t, q4, ",\"response_time_micros\":"@) {
                            None => None,
                            Some(q5) => match sp_u64(t, q5) {
                                None => None,
                                Some((v2, q6)) => Some(((v0, (match v1 { Some(x) => Some(x as u16), None => None }), v2), q6)),
                            },
                        }
                    } else {
                        None
                    },
                },
            },
        },
    }
}

/// Parse one stretch of the canonical wire text.
pub open spec fn sp_website_c2(t: Seq<char>, pos: int) -> Option<((Option<usize>, bool, Option<Seq<char>>), int)> {
    match sp_lit(t, pos, ",\"content_length\":"@) {
        None => None,
        Some(q1) => match sp_opt_u64(t, q1) {
            None => None,
            Some((v0, q2)) => if (match v0 { Some(x) => x <= usize::MAX as u64, None => true }) {
                match sp_lit(t, q2, ",\"success\":"@) {
                    None => None,
                    Some(q3) => match sp_bool(t, q3) {
                        None => None,
                        Some((v1, q4)) => match sp_lit(t, q4, ",\"error_message\":"@) {
                            None => None,
                            Some(q5) => match sp_opt_string(t, q5) {
                                None => None,
                                Some((v2, q6)) => Some((((match v0 { Some(x) => Some(x as usize), None => None }), v1, v2), q6)),
                            },
                        },
                    },
                }
            } else {
                None
            },
        },
    }
}

/// Parse one stretch of the canonical wire text.
pub open spec fn sp_website_c3(t: Seq<char>, pos: int) -> Option<((Seq<PairWire>, u64), int)> {
    match sp_lit(t, pos, ",\"headers\":"@) {
        None => None,
        Some(q1) => match sp_headers_at(t, q1) {
            None => None,
            Some((v0, q2)) => match sp_lit(t, q2, ",\"timestamp_ms\":"@) {
                None => None,
                Some(q3) => match sp_u64(t, q3) {
                    None => None,
                    Some((v1, q4)) => match sp_lit(t, q4, "}"@) {
                        None => None,
                        Some(e) => Some(((v0, v1), e)),
                    },
                },
            },
        },
    }
}

/// Parse the canonical wire text of an HTTP probe result at `pos`.
pub open spec fn sp_website_at(t: Seq<char>, pos: int) -> Option<(WebsiteWire, int)> {
    match sp_website_c1(t, pos) {
        None => None,
        Some(((url, status_code, response_time_micros), p1)) => match sp_website_c2(t, p1) {
            None => None,
            Some(((content_length, success, error_message), p2)) => match sp_website_c3(t, p2) {
                None => None,
                Some(((headers, timestamp_ms), p3)) => Some((WebsiteWire {
                        url,
                        status_code,
                        response_time_micros,
                        content_length,
                        success,
                        error_message,
                        headers,
                        timestamp_ms,
                    }, p3)),
            },
        },
    }
}

/// Parse the canonical wire text of an HTTP probe result, whole.
pub open spec fn sp_website(t: Seq<char>) -> Option<WebsiteWire> {
    match sp_website_at(t, 0) {
        None => None,
        Some((w, e)) => if e == t.len() {
            Some(w)
        } else {
            None
        },
    }
}

/// The wire text of this kind opens with its brace.
#[verifier::rlimit(75)]
pub proof fn lemma_enc_website_first(w: WebsiteWire)
    ensures
        enc_website(w).len() > 0,
        enc_website(w)[0] == '{',
{
    reveal_strlit("{\"url\":");
    assert(enc_website(w)[0] == "{\"url\":"@[0]);
}

/// One stretch written at `pos` parses back from there.
#[verifier::rlimit(75)]
pub proof fn lemma_website_c1_inverts(t: Seq<char>, pos: int, w: WebsiteWire, rest: Seq<char>)
    requires
        0 <= pos <= t.len(),
        t.subrange(pos, t.len() as int) == enc_website_c1(w) + rest,
        rest.len() > 0 && rest[0] == ',',
    ensures
        sp_website_c1(t, pos) == Some(((w.url, w.status_code, w.response_time_micros), pos + enc_website_c1(w).len())),
        t.subrange(pos + enc_website_c1(w).len(), t.len() as int) == rest,
        pos + enc_website_c1(w).len() + rest.len() == t.len(),
{
    assert(t.subrange(pos, t.len() as int) == "{\"url\":"@ + (enc_str(w.url) + (",\"status_code\":"@ + (enc_opt_u64((match w.status_code { Some(x) => Some(x as u64), None => None })) + (",\"response_time_micros\":"@ + (spec_udec(w.response_time_micros as nat) + (rest))))))) by {
        assert(enc_website_c1(w) + rest =~= "{\"url\":"@ + (enc_str(w.url) + (",\"status_code\":"@ + (enc_opt_u64((match w.status_code { Some(x) => Some(x as u64), None => None })) + (",\"response_time_micros\":"@ + (spec_udec(w.response_time_micros as nat) + (rest)))))));
    }
    lemma_sp_lit_inverts(t, pos, "{\"url\":"@, enc_str(w.url) + (",\"status_code\":"@ + (enc_opt_u64((match w.status_code { Some(x) => Some(x as u64), None => None })) + (",\"response_time_micros\":"@ + (spec_udec(w.response_time_micros as nat) + (rest))))));
    lemma_sp_string_inverts(t, (pos + "{\"url\":"@.len()), w.url, ",\"status_code\":"@ + (enc_opt_u64((match w.status_code { Some(x) => Some(x as u64), None => None })) + (",\"response_time_micros\":"@ + (spec_udec(w.response_time_micros as nat) + (rest)))));
    lemma_sp_lit_inverts(t, ((pos + "{\"url\":"@.len()) + enc_str(w.url).len()), ",\"status_code\":"@, enc_opt_u64((match w.status_code { Some(x) => Some(x as u64), None => None })) + (",\"response_time_micros\":"@ + (spec_udec(w.response_time_micros as nat) + (rest))));
    assert((",\"response_time_micros\":"@ + (spec_udec(w.response_time_micros as nat) + (rest)))[0] == ',') by {
        reveal_strlit(",\"response_time_micros\":");
    }
    lemma_sp_opt_u64_inverts(t, (((pos + "{\"url\":"@.len()) + enc_str(w.url).len()) + ",\"status_code\":"@.len()), (match w.status_code { Some(x) => Some(x as u64), None => None }), ",\"response_time_micros\":"@ + (spec_udec(w.response_time_micros as nat) + (rest)));
    lemma_sp_lit_inverts(t, ((((pos + "{\"url\":"@.len()) + enc_str(w.url).len()) + ",\"status_code\":"@.len()) + enc_opt_u64((match w.status_code { Some(x) => Some(x as u64), None => None })).len()), ",\"response_time_micros\":"@, spec_udec(w.response_time_micros as nat) + (rest));
    lemma_sp_num_inverts(t, (((((pos + "{\"url\":"@.len()) + enc_str(w.url).len()) + ",\"status_code\":"@.len()) + enc_opt_u64((match w.status_code { Some(x) => Some(x as u64), None => None })).len()) + ",\"response_time_micros\":"@.len()), w.response_time_micros, rest);
}

/// One stretch written at `pos` parses back from there.
#[verifier::rlimit(75)]
pub proof fn lemma_website_c2_inverts(t: Seq<char>, pos: int, w: WebsiteWire, rest: Seq<char>)
    requires
        0 <= pos <= t.len(),
        t.subrange(pos, t.len() as int) == enc_website_c2(w) + rest,
        rest.len() > 0 && rest[0] == ',',
    ensures
        sp_website_c2(t, pos) == Some(((w.content_length, w.success, w.error_message), pos + enc_website_c2(w).len())),
        t.subrange(pos + enc_website_c2(w).len(), t.len() as int) == rest,
        pos + enc_website_c2(w).len() + rest.len() == t.len(),
{
    assert(t.subrange(pos, t.len() as int) == ",\"content_length\":"@ + (enc_opt_u64((match w.content_length { Some(x) => Some(x as u64), None => None })) + (",\"success\":"@ + (enc_bool(w.success) + (",\"error_message\":"@ + (enc_opt_str(w.error_message) + (rest))))))) by {
        assert(enc_website_c2(w) + rest =~= ",\"content_length\":"@ + (enc_opt_u64((match w.content_length { Some(x) => Some(x as u64), None => None })) + (",\"success\":"@ + (enc_bool(w.success) + (",\"error_message\":"@ + (enc_opt_str(w.error_message) + (rest)))))));
    }
    lemma_sp_lit_inverts(t, pos, ",\"content_length\":"@, enc_opt_u64((match w.content_length { Some(x) => Some(x as u64), None => None })) + (",\"success\":"@ + (enc_bool(w.success) + (",\"error_message\":"@ + (enc_opt_str(w.error_message) + (rest))))));
    assert((",\"success\":"@ + (enc_bool(w.success) + (",\"error_message\":"@ + (enc_opt_str(w.error_message) + (rest)))))[0] == ',') by {
        reveal_strlit(",\"success\":");
    }
    lemma_sp_opt_u64_inverts(t, (pos + ",\"content_length\":"@.len()), (match w.content_length { Some(x) => Some(x as u64), None => None }), ",\"success\":"@ + (enc_bool(w.success) + (",\"error_message\":"@ + (enc_opt_str(w.error_message) + (rest)))));
    lemma_sp_lit_inverts(t, ((pos + ",\"content_length\":"@.len()) + enc_opt_u64((match w.content_length { Some(x) => Some(x as u64), None => None })).len()), ",\"success\":"@, enc_bool(w.success) + (",\"error_message\":"@ + (enc_opt_str(w.error_message) + (rest))));
    lemma_sp_bool_inverts(t, (((pos + ",\"content_length\":"@.len()) + enc_opt_u64((match w.content_length { Some(x) => Some(x as u64), None => None })).len()) + ",\"success\":"@.len()), w.success, ",\"error_message\":"@ + (enc_opt_str(w.error_message) + (rest)));
    lemma_sp_lit_inverts(t, ((((pos + ",\"content_length\":"@.len()) + enc_opt_u64((match w.content_length { Some(x) => Some(x as u64), None => None })).len()) + ",\"success\":"@.len()) + enc_bool(w.success).len()), ",\"error_message\":"@, enc_opt_str(w.error_message) + (rest));
    lemma_sp_opt_string_inverts(t, (((((pos + ",\"content_length\":"@.len()) + enc_opt_u64((match w.content_length { Some(x) => Some(x as u64), None => None })).len()) + ",\"success\":"@.len()) + enc_bool(w.success).len()) + ",\"error_message\":"@.len()), w.error_message, rest);
}

/// One stretch written at `pos` parses back from there.
#[verifier::rlimit(75)]
pub proof fn lemma_website_c3_inverts(t: Seq<char>, pos: int, w: WebsiteWire, rest: Seq<char>)
    requires
        0 <= pos <= t.len(),
        t.subrange(pos, t.len() as int) == enc_website_c3(w) + rest,
    ensures
        sp_website_c3(t, pos) == Some(((w.headers, w.timestamp_ms), pos + enc_website_c3(w).len())),
        t.subrange(pos + enc_website_c3(w).len(), t.len() as int) == rest,
        pos + enc_website_c3(w).len() + rest.len() == t.len(),
{
    assert(t.subrange(pos, t.len() as int) == ",\"headers\":"@ + (enc_headers(w.headers) + (",\"timestamp_ms\":"@ + (spec_udec(w.timestamp_ms as nat) + ("}"@ + (rest)))))) by {
        assert(enc_website_c3(w) + rest =~= ",\"headers\":"@ + (enc_headers(w.headers) + (",\"timestamp_ms\":"@ + (spec_udec(w.timestamp_ms as nat) + ("}"@ + (rest))))));
    }
    lemma_sp_lit_inverts(t, pos, ",\"headers\":"@, enc_headers(w.headers) + (",\"timestamp_ms\":"@ + (spec_udec(w.timestamp_ms as nat) + ("}"@ + (rest)))));
    lemma_headers_inverts(t, (pos + ",\"headers\":"@.len()), w.headers, ",\"timestamp_ms\":"@ + (spec_udec(w.timestamp_ms as nat) + ("}"@ + (rest))));
    lemma_sp_lit_inverts(t, ((pos + ",\"headers\":"@.len()) + enc_headers(w.headers).len()), ",\"timestamp_ms\":"@, spec_udec(w.timestamp_ms as nat) + ("}"@ + (rest)));
    assert(("}"@ + (rest))[0] == '}') by {
        reveal_strlit("}");
    }
    lemma_sp_num_inverts(t, (((pos + ",\"headers\":"@.len()) + enc_headers(w.headers).len()) + ",\"timestamp_ms\":"@.len()), w.timestamp_ms, "}"@ + (rest));
    lemma_sp_lit_inverts(t, ((((pos + ",\"headers\":"@.len()) + enc_headers(w.headers).len()) + ",\"timestamp_ms\":"@.len()) + spec_udec(w.timestamp_ms as nat).len()), "}"@, rest);
}

/// The wire text of this kind written at `pos` parses back from there.
#[verifier::rlimit(75)]
pub proof fn lemma_website_at_inverts(t: Seq<char>, pos: int, w: WebsiteWire, rest: Seq<char>)
    requires
        0 <= pos <= t.len(),
        t.subrange(pos, t.len() as int) == enc_website(w) + rest,
    ensures
        sp_website_at(t, pos) == Some((w, pos + enc_website(w).len())),
        t.subrange(pos + enc_website(w).len(), t.len() as int) == rest,
        pos + enc_website(w).len() + rest.len() == t.len(),
{
    assert(t.subrange(pos, t.len() as int) == enc_website_c1(w) + (enc_website_c2(w) + (enc_website_c3(w) + (rest)))) by {
        assert(enc_website(w) + rest =~= enc_website_c1(w) + (enc_website_c2(w) + (enc_website_c3(w) + (rest))));
    }
    reveal_strlit(",\"content_length\":");
    assert((enc_website_c2(w) + (enc_website_c3(w) + (rest)))[0] == ",\"content_length\":"@[0]) by {
        assert(enc_website_c2(w)[0] == ",\"content_length\":"@[0]);
    }
    lemma_website_c1_inverts(t, pos, w, enc_website_c2(w) + (enc_website_c3(w) + (rest)));
    reveal_strlit(",\"headers\":");
    assert((enc_website_c3(w) + (rest))[0] == ",\"headers\":"@[0]) by {
        assert(enc_website_c3(w)[0] == ",\"headers\":"@[0]);
    }
    lemma_website_c2_inverts(t, (pos + enc_website_c1(w).len()), w, enc_website_c3(w) + (rest));
    lemma_website_c3_inverts(t, ((pos + enc_website_c1(w).len()) + enc_website_c2(w).len()), w, rest);
}

/// Round trip: decoding the canonical wire text of an HTTP probe result
/// gives back every field.
#[verifier::rlimit(75)]
pub proof fn lemma_website_round_trip(w: WebsiteWire)
    ensures
        sp_website(enc_website(w)) == Some(w),
{
    let t = enc_website(w);
    assert(t.subrange(0, t.len() as int) == enc_website(w) + Seq::<char>::empty()) by {
        assert(t.subrange(0, t.len() as int) =~= enc_website(w) + Seq::<char>::empty());
    }
    lemma_website_at_inverts(t, 0, w, Seq::<char>::empty());
}

/// Append one stretch of the canonical wire text.
fn enc_website_c1_push(out: &mut String, r: &WebsiteTestResult)
    ensures
        final(out)@ == old(out)@ + enc_website_c1(website_wire_of(*r)),
{
    out.append("{\"url\":");
    enc_push_str(out, r.url.as_str());
    out.append(",\"status_code\":");
    match r.status_code {
        Some(x) => enc_push_u64(out, x as u64),
        None => {
            out.append("null");
        },
    }
    out.append(",\"response_time_micros\":");
    enc_push_u64(out, r.response_time_micros);
    proof {
        assert(out@ =~= old(out)@ + enc_website_c1(website_wire_of(*r)));
    }
}

/// Append one stretch of the canonical wire text.
fn enc_website_c2_push(out: &mut String, r: &WebsiteTestResult)
    ensures
        final(out)@ == old(out)@ + enc_website_c2(website_wire_of(*r)),
{
    out.append(",\"content_length\":");
    match r.content_length {
        Some(x) => enc_push_u64(out, x as u64),
        None => {
            out.append("null");
        },
    }
    out.append(",\"success\":");
    enc_push_bool(out, r.success);
    out.append(",\"error_message\":");
    enc_push_opt_str(out, &r.error_message);
    proof {
        assert(out@ =~= old(out)@ + enc_website_c2(website_wire_of(*r)));
    }
}

/// Append one stretch of the canonical wire text.
fn enc_website_c3_push(out: &mut String, r: &WebsiteTestResult)
    ensures
        final(out)@ == old(out)@ + enc_website_c3(website_wire_of(*r)),
{
    out.append(",\"headers\":");
    enc_headers_push(out, &r.headers);
    out.append(",\"timestamp_ms\":");
    enc_push_u64(out, r.timestamp_ms);
    out.append("}");
    proof {
        assert(out@ =~= old(out)@ + enc_website_c3(website_wire_of(*r)));
    }
}

/// Append the canonical wire text of an HTTP probe result.
pub fn enc_website_push(out: &mut String, r: &WebsiteTestResult)
    ensures
        final(out)@ == old(out)@ + enc_website(website_wire_of(*r)),
{
    enc_website_c1_push(out, r);
    enc_website_c2_push(out, r);
    enc_website_c3_push(out, r);
    proof {
        assert(out@ =~= old(out)@ + enc_website(website_wire_of(*r)));
    }
}

/// Render an HTTP probe result in its canonical wire form.
pub fn encode_website(r: &WebsiteTestResult) -> (out: String)
    ensures
        out@ == enc_website(website_wire_of(*r)),
{
    let mut out = String::new();
    enc_website_push(&mut out, r);
    out
}

/// Decode the canonical wire form of an HTTP probe result at `pos`.
pub fn decode_website_at(t: &str, pos: usize) -> (r: Option<(WebsiteTestResult, usize)>)
    ensures
        (match sp_website_at(t@, pos as int) {
            Some((w, e)) => {
                &&& r matches Some(p)
                &&& website_wire_of(r.unwrap().0) == w
                &&& r.unwrap().1 == e
                &&& pos < e <= t@.len()
            },
            None => r is None,
        }),
{
    let a0 = match parse_lit(t, pos, "{\"url\":") {
        Some(p) => p,
        None => {
            return None;
        },
    };
    let (b0, b0_end) = match parse_string(t, a0) {
        Some(p) => p,
        None => {
            return None;
        },
    };
    let a1 = match parse_lit(t, b0_end, ",\"status_code\":") {
        Some(p) => p,
        None => {
            return None;
        },
    };
    let (b1, b1_end) = match parse_opt_u64(t, a1) {
        Some(p) => p,
        None => {
            return None;
        },
    };
    let b1_n: Option<u16> = match b1 {
        Some(x) => {
            if x > 0xffffu64 {
                return None;
            }
            Some(x as u16)
        },
        None => None,
    };
    let a2 = match parse_lit(t, b1_end, ",\"response_time_micros\":") {
        Some(p) => p,
        None => {
            return None;
        },
    };
    let (b2, b2_end) = match parse_u64(t, a2) {
        Some(p) => p,
        None => {
            return None;
        },
    };
    let a3 = match parse_lit(t, b2_end, ",\"content_length\":") {
        Some(p) => p,
        None => {
            return None;
        },
    };
    let (b3, b3_end) = match parse_opt_u64(t, a3) {
        Some(p) => p,
        None => {
            return None;
        },
    };
    let b3_n: Option<usize> = match b3 {
        Some(x) => {
            if x > usize::MAX as u64 {
                return None;
            }
            Some(x as usize)
        },
        None => None,
    };
    let a4 = match parse_lit(t, b3_end, ",\"success\":") {
        Some(p) => p,
        None => {
            return None;
        },
    };
    let (b4, b4_end) = match parse_bool(t, a4) {
        Some(p) => p,
        None => {
            return None;
        },
    };
    let a5 = match parse_lit(t, b4_end, ",\"error_message\":") {
        Some(p) => p,
        None => {
            return None;
        },
    };
    let (b5, b5_end) = match parse_opt_string(t, a5) {
        Some(p) => p,
        None => {
            return None;
        },
    };
    let a6 = match parse_lit(t, b5_end, ",\"headers\":") {
        Some(p) => p,
        None => {
            return None;
        },
    };
    let (b6, b6_end) = match decode_headers_at(t, a6) {
        Some(p) => p,
        None => {
            return None;
        },
    };
    let a7 = match parse_lit(t, b6_end, ",\"timestamp_ms\":") {
        Some(p) => p,
        None => {
            return None;
        },
    };
    let (b7, b7_end) = match parse_u64(t, a7) {
        Some(p) => p,
        None => {
            return None;
        },
    };
    let e = match parse_lit(t, b7_end, "}") {
        Some(p) => p,
        None => {
            return None;
        },
    };
    Some((
        WebsiteTestResult {
            url: b0,
            status_code: b1_n,
            response_time_micros: b2,
            content_length: b3_n,
            success: b4,
            error_message: b5,
            headers: b6,
            timestamp_ms: b7,
        },
        e,
    ))
}

/// Decode the canonical wire form of an HTTP probe result, whole.
pub fn decode_website(t: &str) -> (r: Option<WebsiteTestResult>)
    ensures
        (match sp_website(t@) {
            Some(w) => r matches Some(x) && website_wire_of(r.unwrap()) == w,
            None => r is None,
        }),
{
    match decode_website_at(t, 0) {
        Some((x, e)) => {
            if e == t.unicode_len() {
                Some(x)
            } else {
                None
            }
        },
        None => None,
    }
}

} // verus!
