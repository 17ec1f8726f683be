//! Session multiplexer, verified half. Inbound transport text is decoded
//! into a typed request — an undecodable message becomes a well-formed
//! error envelope, never the end of the session. Each request routes to
//! exactly one prober configuration with the documented defaults filled
//! in, and every outcome is wrapped into the outbound envelope. The pumps
//! that move text over the transport and await the probers live in the
//! surrounding application.

use vstd::prelude::*;

verus! {

use crate::dns::{DnsConfig, DnsQueryType};
use crate::error::NetworkError;
use crate::json::{
    enc_bool,
    enc_push_bool,
    enc_push_str,
    enc_push_u64,
    enc_str,
    parse_lit,
    parse_string,
    parse_u64,
    sp_lit,
    sp_string,
    sp_u64,
};
use crate::ping::PingConfig;
use crate::tcping::TcpingConfig;
use crate::text::spec_udec;
use crate::traceroute::TracerouteConfig;
use crate::website::WebsiteTestConfig;
use vstd::string::{StrSliceExecFns, StringExecFns};

/// One typed request of the streaming surface.
#[derive(Clone, Debug, PartialEq, Eq)]
pub enum WebSocketMessage {
    Ping { host: String, count: Option<u32> },
    Tcping { host: String, port: u16, count: Option<u32> },
    Website { url: String, method: Option<String> },
    Traceroute { host: String, max_hops: Option<u32> },
    Dns { domain: String, query_type: Option<String>, nameserver: Option<String> },
    Subscribe { event: String },
    Unsubscribe { event: String },
}

/// The plain values a typed request carries.
pub enum RequestWire {
    Ping { host: Seq<char>, count: Option<u32> },
    Tcping { host: Seq<char>, port: u16, count: Option<u32> },
    Website { url: Seq<char>, method: Option<Seq<char>> },
    Traceroute { host: Seq<char>, max_hops: Option<u32> },
    Dns { domain: Seq<char>, query_type: Option<Seq<char>>, nameserver: Option<Seq<char>> },
    Subscribe { event: Seq<char> },
    Unsubscribe { event: Seq<char> },
}

/// The plain values of a request.
pub open spec fn request_wire_of(m: WebSocketMessage) -> RequestWire {
    match m {
        WebSocketMessage::Ping { host, count } => RequestWire::Ping { host: host@, count },
        WebSocketMessage::Tcping { host, port, count } => RequestWire::Tcping {
            host: host@,
            port,
            count,
        },
        WebSocketMessage::Website { url, method } => RequestWire::Website {
            url: url@,
            method: match method {
                Some(m) => Some(m@),
                None => None,
            },
        },
        WebSocketMessage::Traceroute { host, max_hops } => RequestWire::Traceroute {
            host: host@,
            max_hops,
        },
        WebSocketMessage::Dns { domain, query_type, nameserver } => RequestWire::Dns {
            domain: domain@,
            query_type: match query_type {
                Some(q) => Some(q@),
                None => None,
            },
            nameserver: match nameserver {
                Some(n) => Some(n@),
                None => None,
            },
        },
        WebSocketMessage::Subscribe { event } => RequestWire::Subscribe { event: event@ },
        WebSocketMessage::Unsubscribe { event } => RequestWire::Unsubscribe { event: event@ },
    }
}

/// Parse an optional trailing `count` field and the object's close.
pub open spec fn sp_count_tail(t: Seq<char>, pos: int) -> Option<(Option<u32>, int)> {
    match sp_lit(t, pos, "}"@) {
        Some(e) => Some((None, e)),
        None => match sp_lit(t, pos, ",\"count\":"@) {
            None => None,
            Some(p1) => match sp_u64(t, p1) {
                None => None,
                Some((v, p2)) => if v <= 0xffff_ffffu64 {
                    match sp_lit(t, p2, "}"@) {
                        None => None,
                        Some(e) => Some((Some(v as u32), e)),
                    }
                } else {
                    None
                },
            },
        },
    }
}

/// Parse an optional trailing `max_hops` field and the object's close.
pub open spec fn sp_max_hops_tail(t: Seq<char>, pos: int) -> Option<(Option<u32>, int)> {
    match sp_lit(t, pos, "}"@) {
        Some(e) => Some((None, e)),
        None => match sp_lit(t, pos, ",\"max_hops\":"@) {
            None => None,
            Some(p1) => match sp_u64(t, p1) {
                None => None,
                Some((v, p2)) => if v <= 0xffff_ffffu64 {
                    match sp_lit(t, p2, "}"@) {
                        None => None,
                        Some(e) => Some((Some(v as u32), e)),
                    }
                } else {
                    None
                },
            },
        },
    }
}

/// Parse an optional trailing `method` field and the object's close.
pub open spec fn sp_method_tail(t: Seq<char>, pos: int) -> Option<(Option<Seq<char>>, int)> {
    match sp_lit(t, pos, "}"@) {
        Some(e) => Some((None, e)),
        None => match sp_lit(t, pos, ",\"method\":"@) {
            None => None,
            Some(p1) => match sp_string(t, p1) {
                None => None,
                Some((m, p2)) => match sp_lit(t, p2, "}"@) {
                    None => None,
                    Some(e) => Some((Some(m), e)),
                },
            },
        },
    }
}

/// Parse the optional trailing `query_type` and `nameserver` fields of a
/// DNS request and the object's close.
pub open spec fn sp_dns_tail(t: Seq<char>, pos: int) -> Option<
    ((Option<Seq<char>>, Option<Seq<char>>), int),
> {
    match sp_lit(t, pos, "}"@) {
        Some(e) => Some(((None, None), e)),
        None => match sp_lit(t, pos, ",\"query_type\":"@) {
            Some(p1) => match sp_string(t, p1) {
                None => None,
                Some((q, p2)) => match sp_lit(t, p2, "}"@) {
                    Some(e) => Some(((Some(q), None), e)),
                    None => match sp_lit(t, p2, ",\"nameserver\":"@) {
                        None => None,
                        Some(p3) => match sp_string(t, p3) {
                            None => None,
                            Some((ns, p4)) => match sp_lit(t, p4, "}"@) {
                                None => None,
                                Some(e) => Some(((Some(q), Some(ns)), e)),
                            },
                        },
                    },
                },
            },
            None => match sp_lit(t, pos, ",\"nameserver\":"@) {
                None => None,
                Some(p1) => match sp_string(t, p1) {
                    None => None,
                    Some((ns, p2)) => match sp_lit(t, p2, "}"@) {
                        None => None,
                        Some(e) => Some(((None, Some(ns)), e)),
                    },
                },
            },
        },
    }
}

/// Parse the close of the whole envelope at `pos`: the outer brace and
/// the end of the text.
pub open spec fn sp_envelope_end(t: Seq<char>, pos: int) -> bool {
    sp_lit(t, pos, "}"@) == Some(t.len() as int)
}

/// Parse one inbound request envelope, whole: `{"type":K,"data":{...}}`
/// with the kind-specific field set, required fields first, optional
/// fields in their documented order.
pub open spec fn sp_request(t: Seq<char>) -> Option<RequestWire> {
    if sp_lit(t, 0, "{\"type\":\"Ping\",\"data\":{\"host\":"@) is Some {
        let p = sp_lit(t, 0, "{\"type\":\"Ping\",\"data\":{\"host\":"@).unwrap();
        match sp_string(t, p) {
            None => None,
            Some((host, p1)) => match sp_count_tail(t, p1) {
                None => None,
                Some((count, p2)) => if sp_envelope_end(t, p2) {
                    Some(RequestWire::Ping { host, count })
                } else {
                    None
                },
            },
        }
    } else if sp_lit(t, 0, "{\"type\":\"Tcping\",\"data\":{\"host\":"@) is Some {
        let p = sp_lit(t, 0, "{\"type\":\"Tcping\",\"data\":{\"host\":"@).unwrap();
        match sp_string(t, p) {
            None => None,
            Some((host, p1)) => match sp_lit(t, p1, ",\"port\":"@) {
                None => None,
                Some(p2) => match sp_u64(t, p2) {
                    None => None,
                    Some((port, p3)) => if port <= 0xffffu64 {
                        match sp_count_tail(t, p3) {
                            None => None,
                            Some((count, p4)) => if sp_envelope_end(t, p4) {
                                Some(
                                    RequestWire::Tcping { host, port: port as u16, count },
                                )
                            } else {
                                None
                            },
                        }
                    } else {
                        None
                    },
                },
            },
        }
    } else if sp_lit(t, 0, "{\"type\":\"Website\",\"data\":{\"url\":"@) is Some {
        let p = sp_lit(t, 0, "{\"type\":\"Website\",\"data\":{\"url\":"@).unwrap();
        match sp_string(t, p) {
            None => None,
            Some((url, p1)) => match sp_method_tail(t, p1) {
                None => None,
                Some((method, p2)) => if sp_envelope_end(t, p2) {
                    Some(RequestWire::Website { url, method })
                } else {
                    None
                },
            },
        }
    } else if sp_lit(t, 0, "{\"type\":\"Traceroute\",\"data\":{\"host\":"@) is Some {
        let p = sp_lit(t, 0, "{\"type\":\"Traceroute\",\"data\":{\"host\":"@).unwrap();
        match sp_string(t, p) {
            None => None,
            Some((host, p1)) => match sp_max_hops_tail(t, p1) {
                None => None,
                Some((max_hops, p2)) => if sp_envelope_end(t, p2) {
                    Some(RequestWire::Traceroute { host, max_hops })
                } else {
                    None
                },
            },
        }
    } else if sp_lit(t, 0, "{\"type\":\"Dns\",\"data\":{\"domain\":"@) is Some {
        let p = sp_lit(t, 0, "{\"type\":\"Dns\",\"data\":{\"domain\":"@).unwrap();
        match sp_string(t, p) {
            None => None,
            Some((domain, p1)) => match sp_dns_tail(t, p1) {
                None => None,
                Some(((query_type, nameserver), p2)) => if sp_envelope_end(t, p2) {
                    Some(RequestWire::Dns { domain, query_type, nameserver })
                } else {
                    None
                },
            },
        }
    } else if sp_lit(t, 0, "{\"type\":\"Subscribe\",\"data\":{\"event\":"@) is Some {
        let p = sp_lit(t, 0, "{\"type\":\"Subscribe\",\"data\":{\"event\":"@).unwrap();
        match sp_string(t, p) {
            None => None,
            Some((event, p1)) => match sp_lit(t, p1, "}"@) {
                None => None,
                Some(p2) => if sp_envelope_end(t, p2) {
                    Some(RequestWire::Subscribe { event })
                } else {
                    None
                },
            },
        }
    } else if sp_lit(t, 0, "{\"type\":\"Unsubscribe\",\"data\":{\"event\":"@) is Some {
        let p = sp_lit(t, 0, "{\"type\":\"Unsubscribe\",\"data\":{\"event\":"@).unwrap();
        match sp_string(t, p) {
            None => None,
            Some((event, p1)) => match sp_lit(t, p1, "}"@) {
                None => None,
                Some(p2) => if sp_envelope_end(t, p2) {
                    Some(RequestWire::Unsubscribe { event })
                } else {
                    None
                },
            },
        }
    } else {
        None
    }
}

/// Parse a trailing optional numeric field, executable form; used for
/// both `count` and `max_hops`.
fn parse_num_tail(t: &str, pos: usize, key: &str) -> (r: Option<(Option<u32>, usize)>)
    requires
        key@ == ",\"count\":"@ || key@ == ",\"max_hops\":"@,
    ensures
        key@ == ",\"count\":"@ ==> (match sp_count_tail(t@, pos as int) {
            Some((v, e)) => r matches Some(p) && r.unwrap().0 == v && r.unwrap().1 == e && e
                <= t@.len(),
            None => r is None,
        }),
        key@ == ",\"max_hops\":"@ ==> (match sp_max_hops_tail(t@, pos as int) {
            Some((v, e)) => r matches Some(p) && r.unwrap().0 == v && r.unwrap().1 == e && e
                <= t@.len(),
            None => r is None,
        }),
{
    if let Some(e) = parse_lit(t, pos, "}") {
        return Some((None, e));
    }
    let p1 = match parse_lit(t, pos, key) {
        Some(p) => p,
        None => {
            return None;
        },
    };
    let (v, p2) = match parse_u64(t, p1) {
        Some(p) => p,
        None => {
            return None;
        },
    };
    if v > 0xffff_ffffu64 {
        return None;
    }
    match parse_lit(t, p2, "}") {
        Some(e) => Some((Some(v as u32), e)),
        None => None,
    }
}

/// Decode one inbound envelope into its typed request. Undecodable text
/// is rejected as invalid input, to be answered with an error envelope —
/// the session stays alive.
pub fn decode_request(t: &str) -> (r: Result<WebSocketMessage, NetworkError>)
    ensures
        (match sp_request(t@) {
            Some(w) => r matches Ok(m) && request_wire_of(m) == w,
            None => r matches Err(e) && e is InvalidInput,
        }),
{
    let n = t.unicode_len();
    if let Some(p) = parse_lit(t, 0, "{\"type\":\"Ping\",\"data\":{\"host\":") {
        if let Some((host, p1)) = parse_string(t, p) {
            if let Some((count, p2)) = parse_num_tail(t, p1, ",\"count\":") {
                if let Some(e) = parse_lit(t, p2, "}") {
                    if e == n {
                        return Ok(WebSocketMessage::Ping { host, count });
                    }
                }
            }
        }
        return Err(NetworkError::InvalidInput(String::from_str("invalid message format")));
    }
    if let Some(p) = parse_lit(t, 0, "{\"type\":\"Tcping\",\"data\":{\"host\":") {
        if let Some((host, p1)) = parse_string(t, p) {
            if let Some(p2) = parse_lit(t, p1, ",\"port\":") {
                if let Some((port, p3)) = parse_u64(t, p2) {
                    if port <= 0xffffu64 {
                        if let Some((count, p4)) = parse_num_tail(t, p3, ",\"count\":") {
                            if let Some(e) = parse_lit(t, p4, "}") {
                                if e == n {
                                    return Ok(
                                        WebSocketMessage::Tcping {
                                            host,
                                            port: port as u16,
                                            count,
                                        },
                                    );
                                }
                            }
                        }
                    }
                }
            }
        }
        return Err(NetworkError::InvalidInput(String::from_str("invalid message format")));
    }
    if let Some(p) = parse_lit(t, 0, "{\"type\":\"Website\",\"data\":{\"url\":") {
        if let Some((url, p1)) = parse_string(t, p) {
            let tail = if let Some(e0) = parse_lit(t, p1, "}") {
                Some((None, e0))
            } else if let Some(q1) = parse_lit(t, p1, ",\"method\":") {
                if let Some((m, q2)) = parse_string(t, q1) {
                    if let Some(e0) = parse_lit(t, q2, "}") {
                        Some((Some(m), e0))
                    } else {
                        None
                    }
                } else {
                    None
                }
            } else {
                None
            };
            if let Some((method, p2)) = tail {
                if let Some(e) = parse_lit(t, p2, "}") {
                    if e == n {
                        return Ok(WebSocketMessage::Website { url, method });
                    }
                }
            }
        }
        return Err(NetworkError::InvalidInput(String::from_str("invalid message format")));
    }
    if let Some(p) = parse_lit(t, 0, "{\"type\":\"Traceroute\",\"data\":{\"host\":") {
        if let Some((host, p1)) = parse_string(t, p) {
            if let Some((max_hops, p2)) = parse_num_tail(t, p1, ",\"max_hops\":") {
                if let Some(e) = parse_lit(t, p2, "}") {
                    if e == n {
                        return Ok(WebSocketMessage::Traceroute { host, max_hops });
                    }
                }
            }
        }
        return Err(NetworkError::InvalidInput(String::from_str("invalid message format")));
    }
    if let Some(p) = parse_lit(t, 0, "{\"type\":\"Dns\",\"data\":{\"domain\":") {
        if let Some((domain, p1)) = parse_string(t, p) {
            let tail: Option<((Option<String>, Option<String>), usize)> = if let Some(e0) =
                parse_lit(t, p1, "}") {
                Some(((None, None), e0))
            } else if let Some(q1) = parse_lit(t, p1, ",\"query_type\":") {
                if let Some((q, q2)) = parse_string(t, q1) {
                    if let Some(e0) = parse_lit(t, q2, "}") {
                        Some(((Some(q), None), e0))
                    } else if let Some(q3) = parse_lit(t, q2, ",\"nameserver\":") {
                        if let Some((ns, q4)) = parse_string(t, q3) {
                            if let Some(e0) = parse_lit(t, q4, "}") {
                                Some(((Some(q), Some(ns)), e0))
                            } else {
                                None
                            }
                        } else {
                            None
                        }
                    } else {
                        None
                    }
                } else {
                    None
                }
            } else if let Some(q1) = parse_lit(t, p1, ",\"nameserver\":") {
                if let Some((ns, q2)) = parse_string(t, q1) {
                    if let Some(e0) = parse_lit(t, q2, "}") {
                        Some(((None, Some(ns)), e0))
                    } else {
                        None
                    }
                } else {
                    None
                }
            } else {
                None
            };
            if let Some(((query_type, nameserver), p2)) = tail {
                if let Some(e) = parse_lit(t, p2, "}") {
                    if e == n {
                        return Ok(
                            WebSocketMessage::Dns { domain, query_type, nameserver },
                        );
                    }
                }
            }
        }
        return Err(NetworkError::InvalidInput(String::from_str("invalid message format")));
    }
    if let Some(p) = parse_lit(t, 0, "{\"type\":\"Subscribe\",\"data\":{\"event\":") {
        if let Some((event, p1)) = parse_string(t, p) {
            if let Some(p2) = parse_lit(t, p1, "}") {
                if let Some(e) = parse_lit(t, p2, "}") {
                    if e == n {
                        return Ok(WebSocketMessage::Subscribe { event });
                    }
                }
            }
        }
        return Err(NetworkError::InvalidInput(String::from_str("invalid message format")));
    }
    if let Some(p) = parse_lit(t, 0, "{\"type\":\"Unsubscribe\",\"data\":{\"event\":") {
        if let Some((event, p1)) = parse_string(t, p) {
            if let Some(p2) = parse_lit(t, p1, "}") {
                if let Some(e) = parse_lit(t, p2, "}") {
                    if e == n {
                        return Ok(WebSocketMessage::Unsubscribe { event });
                    }
                }
            }
        }
        return Err(NetworkError::InvalidInput(String::from_str("invalid message format")));
    }
    Err(NetworkError::InvalidInput(String::from_str("invalid message format")))
}

/// What the multiplexer does with one decoded request: run a prober with
/// the given configuration, or acknowledge a subscription change.
pub enum ProbeDispatch {
    Ping(PingConfig),
    Tcping(TcpingConfig),
    Website(WebsiteTestConfig),
    Traceroute(TracerouteConfig),
    Dns(DnsConfig),
    Subscribe(String),
    Unsubscribe(String),
}

/// Route one typed request to its prober configuration, defaults filled
/// in: attempt count 4, hop budget 30, method `GET`, DNS type `A`.
pub fn route_message(msg: WebSocketMessage) -> (r: ProbeDispatch)
    ensures
        (match msg {
            WebSocketMessage::Ping { host, count } => r matches ProbeDispatch::Ping(c) && c.host
                == host && c.count == (match count {
                Some(v) => v,
                None => 4u32,
            }) && c.timeout_ms == 2000 && c.packet_size == 56,
            WebSocketMessage::Tcping { host, port, count } => r matches ProbeDispatch::Tcping(c)
                && c.host == host && c.port == port && c.count == (match count {
                Some(v) => v,
                None => 4u32,
            }) && c.timeout_ms == 3000 && c.delay_ms == 100,
            WebSocketMessage::Website { url, method } => r matches ProbeDispatch::Website(c)
                && c.url == url && c.method == (match method {
                Some(m) => m,
                None => c.method,
            }) && (method is None ==> c.method@ == "GET"@) && c.timeout_ms == 30000
                && c.follow_redirects && c.verify_ssl,
            WebSocketMessage::Traceroute { host, max_hops } => r matches
                ProbeDispatch::Traceroute(c) && c.host == host && c.max_hops == (match max_hops {
                Some(v) => v,
                None => 30u32,
            }) && c.timeout_ms == 3000 && c.delay_ms == 100,
            WebSocketMessage::Dns { domain, query_type, nameserver } => r matches
                ProbeDispatch::Dns(c) && c.domain == domain && c.nameserver == nameserver
                && c.timeout_ms == 5000 && c.query_type == (match query_type {
                Some(q) => (match DnsQueryType::spec_parse_name(q@) {
                    Some(qt) => qt,
                    None => DnsQueryType::A,
                }),
                None => DnsQueryType::A,
            }),
            WebSocketMessage::Subscribe { event } => r matches ProbeDispatch::Subscribe(ev) && ev
                == event,
            WebSocketMessage::Unsubscribe { event } => r matches ProbeDispatch::Unsubscribe(ev)
                && ev == event,
        }),
{
    match msg {
        WebSocketMessage::Ping { host, count } => {
            let req = crate::api::PingRequest { host, count };
            ProbeDispatch::Ping(req.into_config())
        },
        WebSocketMessage::Tcping { host, port, count } => {
            let req = crate::api::TcpingRequest { host, port, count };
            ProbeDispatch::Tcping(req.into_config())
        },
        WebSocketMessage::Website { url, method } => {
            let req = crate::api::WebsiteRequest { url, method };
            ProbeDispatch::Website(req.into_config())
        },
        WebSocketMessage::Traceroute { host, max_hops } => {
            let req = crate::api::TracerouteRequest { host, max_hops };
            ProbeDispatch::Traceroute(req.into_config())
        },
        WebSocketMessage::Dns { domain, query_type, nameserver } => {
            let req = crate::api::DnsRequest { domain, query_type, nameserver };
            ProbeDispatch::Dns(req.into_config())
        },
        WebSocketMessage::Subscribe { event } => ProbeDispatch::Subscribe(event),
        WebSocketMessage::Unsubscribe { event } => ProbeDispatch::Unsubscribe(event),
    }
}

/// One outbound envelope: a result or an error text, with the capture
/// timestamp. The payload is carried as already-rendered wire text.
#[derive(Clone, Debug, PartialEq, Eq)]
pub struct WebSocketResponse {
    /// Whether the request's probe produced a result.
    pub success: bool,
    /// The rendered result, when there is one.
    pub data: Option<String>,
    /// The error text, when there is none.
    pub error: Option<String>,
    /// When the response was made, in milliseconds since the Unix epoch.
    pub timestamp_ms: u64,
}

/// Wrap a rendered probe result.
pub fn ok_response(data: String, timestamp_ms: u64) -> (r: WebSocketResponse)
    ensures
        r.success,
        r.data == Some(data),
        r.error is None,
        r.timestamp_ms == timestamp_ms,
{
    WebSocketResponse { success: true, data: Some(data), error: None, timestamp_ms }
}

/// Wrap an error text.
pub fn error_response(error: String, timestamp_ms: u64) -> (r: WebSocketResponse)
    ensures
        !r.success,
        r.data is None,
        r.error == Some(error),
        r.timestamp_ms == timestamp_ms,
{
    WebSocketResponse { success: false, data: None, error: Some(error), timestamp_ms }
}

/// Canonical wire text of an outbound envelope: the payload stands as
/// rendered, an absent payload or error as `null`.
pub open spec fn enc_response(
    success: bool,
    data: Option<Seq<char>>,
    error: Option<Seq<char>>,
    timestamp_ms: u64,
) -> Seq<char> {
    "{\"success\":"@ + (enc_bool(success) + (",\"data\":"@ + ((match data {
        Some(d) => d,
        None => "null"@,
    }) + (",\"error\":"@ + ((match error {
        Some(e) => enc_str(e),
        None => "null"@,
    }) + (",\"timestamp\":"@ + (spec_udec(timestamp_ms as nat) + "}"@)))))))
}

/// Render an outbound envelope in its canonical wire form.
#[verifier::rlimit(50)]
pub fn encode_response(r: &WebSocketResponse) -> (out: String)
    ensures
        out@ == enc_response(
            r.success,
            match r.data {
                Some(d) => Some(d@),
                None => None,
            },
            match r.error {
                Some(e) => Some(e@),
                None => None,
            },
            r.timestamp_ms,
        ),
{
    let mut out = String::new();
    out.append("{\"success\":");
    enc_push_bool(&mut out, r.success);
    out.append(",\"data\":");
    match &r.data {
        Some(d) => out.append(d.as_str()),
        None => out.append("null"),
    }
    out.append(",\"error\":");
    match &r.error {
        Some(e) => enc_push_str(&mut out, e.as_str()),
        None => out.append("null"),
    }
    out.append(",\"timestamp\":");
    enc_push_u64(&mut out, r.timestamp_ms);
    out.append("}");
    proof {
        assert(out@ =~= enc_response(
            r.success,
            match r.data {
                Some(d) => Some(d@),
                None => None,
            },
            match r.error {
                Some(e) => Some(e@),
                None => None,
            },
            r.timestamp_ms,
        ));
    }
    out
}

/// Render the acknowledgement payload of a subscription change.
pub fn subscription_ack(event: &str, subscribed: bool) -> (out: String)
    ensures
        subscribed ==> out@ == "{\"subscribed_to\":"@ + (enc_str(event@) + "}"@),
        !subscribed ==> out@ == "{\"unsubscribed_from\":"@ + (enc_str(event@) + "}"@),
{
    let mut out = String::new();
    if subscribed {
        out.append("{\"subscribed_to\":");
    } else {
        out.append("{\"unsubscribed_from\":");
    }
    enc_push_str(&mut out, event);
    out.append("}");
    proof {
        if subscribed {
            assert(out@ =~= "{\"subscribed_to\":"@ + (enc_str(event@) + "}"@));
        } else {
            assert(out@ =~= "{\"unsubscribed_from\":"@ + (enc_str(event@) + "}"@));
        }
    }
    out
}

} // verus!
