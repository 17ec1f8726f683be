use network_probe::api::{
    ApiResponse, DnsRequest, PingRequest, TcpingRequest, TracerouteRequest, WebsiteRequest,
};
use network_probe::dns::DnsQueryType;
use network_probe::error::NetworkError;
use network_probe::ws::{
    decode_request, encode_response, error_response, ok_response, route_message,
    subscription_ack, ProbeDispatch, WebSocketMessage,
};

#[test]
fn test_decode_ping_request() {
    let m = decode_request("{\"type\":\"Ping\",\"data\":{\"host\":\"example.com\",\"count\":2}}")
        .unwrap();
    assert_eq!(
        m,
        WebSocketMessage::Ping { host: "example.com".to_string(), count: Some(2) }
    );
}

#[test]
fn test_decode_ping_request_without_count() {
    let m = decode_request("{\"type\":\"Ping\",\"data\":{\"host\":\"example.com\"}}").unwrap();
    assert_eq!(m, WebSocketMessage::Ping { host: "example.com".to_string(), count: None });
}

#[test]
fn test_decode_tcping_request() {
    let m = decode_request(
        "{\"type\":\"Tcping\",\"data\":{\"host\":\"127.0.0.1\",\"port\":443,\"count\":1}}",
    )
    .unwrap();
    assert_eq!(
        m,
        WebSocketMessage::Tcping { host: "127.0.0.1".to_string(), port: 443, count: Some(1) }
    );
}

#[test]
fn test_decode_website_request() {
    let m = decode_request(
        "{\"type\":\"Website\",\"data\":{\"url\":\"https://example.com\",\"method\":\"HEAD\"}}",
    )
    .unwrap();
    assert_eq!(
        m,
        WebSocketMessage::Website {
            url: "https://example.com".to_string(),
            method: Some("HEAD".to_string()),
        }
    );
    let m = decode_request("{\"type\":\"Website\",\"data\":{\"url\":\"https://example.com\"}}")
        .unwrap();
    assert_eq!(
        m,
        WebSocketMessage::Website { url: "https://example.com".to_string(), method: None }
    );
}

#[test]
fn test_decode_traceroute_request() {
    let m = decode_request(
        "{\"type\":\"Traceroute\",\"data\":{\"host\":\"example.com\",\"max_hops\":5}}",
    )
    .unwrap();
    assert_eq!(
        m,
        WebSocketMessage::Traceroute { host: "example.com".to_string(), max_hops: Some(5) }
    );
}

#[test]
fn test_decode_dns_request_variants() {
    let m = decode_request("{\"type\":\"Dns\",\"data\":{\"domain\":\"example.com\"}}").unwrap();
    assert_eq!(
        m,
        WebSocketMessage::Dns {
            domain: "example.com".to_string(),
            query_type: None,
            nameserver: None,
        }
    );
    let m = decode_request(
        "{\"type\":\"Dns\",\"data\":{\"domain\":\"example.com\",\"query_type\":\"MX\"}}",
    )
    .unwrap();
    assert_eq!(
        m,
        WebSocketMessage::Dns {
            domain: "example.com".to_string(),
            query_type: Some("MX".to_string()),
            nameserver: None,
        }
    );
    let m = decode_request(
        "{\"type\":\"Dns\",\"data\":{\"domain\":\"example.com\",\"query_type\":\"MX\",\
         \"nameserver\":\"9.9.9.9\"}}",
    )
    .unwrap();
    assert_eq!(
        m,
        WebSocketMessage::Dns {
            domain: "example.com".to_string(),
            query_type: Some("MX".to_string()),
            nameserver: Some("9.9.9.9".to_string()),
        }
    );
}

#[test]
fn test_decode_subscribe_requests() {
    let m = decode_request("{\"type\":\"Subscribe\",\"data\":{\"event\":\"alerts\"}}").unwrap();
    assert_eq!(m, WebSocketMessage::Subscribe { event: "alerts".to_string() });
    let m = decode_request("{\"type\":\"Unsubscribe\",\"data\":{\"event\":\"alerts\"}}").unwrap();
    assert_eq!(m, WebSocketMessage::Unsubscribe { event: "alerts".to_string() });
}

#[test]
fn test_decode_failure_is_answerable() {
    // an undecodable message becomes an error envelope; the session stays up
    let r = decode_request("not json at all");
    let e = match r {
        Err(NetworkError::InvalidInput(e)) => e,
        other => panic!("expected invalid input, got {:?}", other),
    };
    let response = error_response(e, 7);
    assert!(!response.success);
    assert!(response.data.is_none());
    assert!(response.error.is_some());
    let text = encode_response(&response);
    assert!(text.starts_with("{\"success\":false,\"data\":null,\"error\":\""));
}

#[test]
fn test_route_message_defaults() {
    let d = route_message(WebSocketMessage::Ping { host: "h".to_string(), count: None });
    match d {
        ProbeDispatch::Ping(c) => {
            assert_eq!(c.count, 4);
            assert_eq!(c.timeout_ms, 2000);
        },
        _ => panic!("wrong dispatch"),
    }
    let d = route_message(WebSocketMessage::Traceroute { host: "h".to_string(), max_hops: None });
    match d {
        ProbeDispatch::Traceroute(c) => assert_eq!(c.max_hops, 30),
        _ => panic!("wrong dispatch"),
    }
    let d = route_message(WebSocketMessage::Dns {
        domain: "example.com".to_string(),
        query_type: Some("bogus".to_string()),
        nameserver: None,
    });
    match d {
        ProbeDispatch::Dns(c) => assert_eq!(c.query_type, DnsQueryType::A),
        _ => panic!("wrong dispatch"),
    }
    let d = route_message(WebSocketMessage::Website { url: "u".to_string(), method: None });
    match d {
        ProbeDispatch::Website(c) => assert_eq!(c.method, "GET"),
        _ => panic!("wrong dispatch"),
    }
    let d = route_message(WebSocketMessage::Subscribe { event: "alerts".to_string() });
    match d {
        ProbeDispatch::Subscribe(ev) => assert_eq!(ev, "alerts"),
        _ => panic!("wrong dispatch"),
    }
}

#[test]
fn test_encode_response_exact() {
    let r = ok_response("{\"x\":1}".to_string(), 5);
    assert_eq!(
        encode_response(&r),
        "{\"success\":true,\"data\":{\"x\":1},\"error\":null,\"timestamp\":5}"
    );
    let r = error_response("boom".to_string(), 6);
    assert_eq!(
        encode_response(&r),
        "{\"success\":false,\"data\":null,\"error\":\"boom\",\"timestamp\":6}"
    );
}

#[test]
fn test_subscription_ack_payloads() {
    assert_eq!(subscription_ack("alerts", true), "{\"subscribed_to\":\"alerts\"}");
    assert_eq!(subscription_ack("alerts", false), "{\"unsubscribed_from\":\"alerts\"}");
}

#[test]
fn test_api_request_defaults() {
    let c = PingRequest { host: "h".to_string(), count: None }.into_config();
    assert_eq!(c.count, 4);
    let c = PingRequest { host: "h".to_string(), count: Some(9) }.into_config();
    assert_eq!(c.count, 9);
    let c = TcpingRequest { host: "h".to_string(), port: 443, count: None }.into_config();
    assert_eq!(c.port, 443);
    assert_eq!(c.count, 4);
    assert_eq!(c.timeout_ms, 3000);
    let c = WebsiteRequest { url: "u".to_string(), method: None }.into_config();
    assert_eq!(c.method, "GET");
    let c = TracerouteRequest { host: "h".to_string(), max_hops: Some(3) }.into_config();
    assert_eq!(c.max_hops, 3);
    let c = DnsRequest {
        domain: "d".to_string(),
        query_type: Some("NS".to_string()),
        nameserver: None,
    }
    .into_config();
    assert_eq!(c.query_type, DnsQueryType::NS);
    let c = DnsRequest { domain: "d".to_string(), query_type: None, nameserver: None }
        .into_config();
    assert_eq!(c.query_type, DnsQueryType::A);
}

#[test]
fn test_api_response_wrappers() {
    let r: ApiResponse<u32> = ApiResponse::success(7);
    assert!(r.success);
    assert_eq!(r.data, Some(7));
    assert!(r.error.is_none());
    let r: ApiResponse<u32> = ApiResponse::error("bad".to_string());
    assert!(!r.success);
    assert!(r.data.is_none());
    assert_eq!(r.error, Some("bad".to_string()));
}

#[test]
fn test_decode_rejects_near_misses() {
    // unknown request kind
    assert!(decode_request("{\"type\":\"Scan\",\"data\":{\"host\":\"h\"}}").is_err());
    // fields out of their documented order
    assert!(decode_request("{\"type\":\"Ping\",\"data\":{\"count\":2,\"host\":\"h\"}}").is_err());
    // trailing text after the envelope
    assert!(decode_request("{\"type\":\"Ping\",\"data\":{\"host\":\"h\"}} ").is_err());
    // port beyond the valid range
    assert!(decode_request(
        "{\"type\":\"Tcping\",\"data\":{\"host\":\"h\",\"port\":65536}}"
    )
    .is_err());
}
