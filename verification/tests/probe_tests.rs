use network_probe::dns::{
    build_query_result, filter_family, normalize_mx, records_from_values, DnsConfig, DnsQueryType,
    LookupKind, DEFAULT_TTL,
};
use network_probe::error::NetworkError;
use network_probe::ping::{PingConfig, PingService};
use network_probe::stats::AttemptOutcome;
use network_probe::tcping::{TcpingConfig, TcpingService};
use network_probe::traceroute::{
    protocol_config, HopOutcome, HopWalk, TracerouteConfig, TracerouteService,
};
use network_probe::website::{
    parse_method, transport_failure, transport_success, HttpMethod, WebsiteTestConfig,
};

fn ok(rtt_micros: u64) -> AttemptOutcome {
    AttemptOutcome::Success { rtt_micros }
}

#[test]
fn test_ping_loopback_two_attempts() {
    let service = PingService::new();
    let config = PingConfig { host: "127.0.0.1".to_string(), count: 2, ..Default::default() };
    assert_eq!(config.timeout_ms, 2000);

    // both echoes answered
    let outcomes = vec![ok(120), ok(140)];
    let r = service.summarize(&config, "127.0.0.1".to_string(), &outcomes, 7).unwrap();
    assert_eq!(r.host, "127.0.0.1");
    assert_eq!(r.packets_sent, 2);
    assert_eq!(r.packets_received, 2);
    assert_eq!(r.packet_loss, 0);

    // one echo lost
    let outcomes = vec![ok(120), AttemptOutcome::Timeout];
    let r = service.summarize(&config, "127.0.0.1".to_string(), &outcomes, 7).unwrap();
    assert_eq!(r.packets_sent, 2);
    assert_eq!(r.packets_received, 1);
    assert_eq!(r.packet_loss, 50);
}

#[test]
fn test_ping_all_lost_is_failure() {
    let service = PingService::new();
    let config = PingConfig { host: "127.0.0.1".to_string(), count: 2, ..Default::default() };
    let outcomes = vec![AttemptOutcome::Timeout, AttemptOutcome::Timeout];
    let r = service.summarize(&config, "127.0.0.1".to_string(), &outcomes, 7);
    match r {
        Err(NetworkError::Ping(_)) => {},
        other => panic!("expected the all-lost ping failure, got {:?}", other),
    }
}

#[test]
fn test_tcping_closed_port_single_attempt() {
    let service = TcpingService::new();
    let config =
        TcpingConfig { host: "127.0.0.1".to_string(), port: 1, count: 1, ..Default::default() };
    let outcomes = vec![AttemptOutcome::Failure];
    let r = service.summarize(&config, "127.0.0.1".to_string(), &outcomes, 7);
    match r {
        Err(NetworkError::Tcp(e)) => {
            assert!(!e.is_empty());
        },
        other => panic!("expected the all-failed tcp variant, got {:?}", other),
    }
}

#[test]
fn test_tcping_summarize_success() {
    let service = TcpingService::new();
    let config =
        TcpingConfig { host: "127.0.0.1".to_string(), port: 22, count: 3, ..Default::default() };
    let outcomes = vec![ok(500), AttemptOutcome::Failure, ok(700)];
    let r = service.summarize(&config, "127.0.0.1".to_string(), &outcomes, 42).unwrap();
    assert!(r.success);
    assert_eq!(r.port, 22);
    assert_eq!(r.attempts, 3);
    assert_eq!(r.successful_attempts, 2);
    assert_eq!(r.packet_loss, 33);
    assert_eq!(r.min_rtt_micros, 500);
    assert_eq!(r.max_rtt_micros, 700);
    assert_eq!(r.avg_rtt_micros, 600);
    assert_eq!(r.timestamp_ms, 42);
}

#[test]
fn test_hop_walk_stops_at_target() {
    let mut walk = HopWalk::new("10.0.0.3".to_string(), 5);
    assert!(!walk.is_finished());
    walk.step(HopOutcome::NoResponse);
    walk.step(HopOutcome::Response {
        ip: "10.0.0.2".to_string(),
        hostname: None,
        rtt_micros: 1500,
    });
    assert!(!walk.is_finished());
    walk.step(HopOutcome::Response {
        ip: "10.0.0.3".to_string(),
        hostname: Some("gw.example.com".to_string()),
        rtt_micros: 2500,
    });
    assert!(walk.is_finished());
    let result = walk.finish("target.example.com".to_string(), 9000, 7);
    assert_eq!(result.ip, "10.0.0.3");
    assert_eq!(result.max_hops, 5);
    assert_eq!(result.hops.len(), 3);
    // indices are 1..k, strictly increasing, with no gaps
    for (i, hop) in result.hops.iter().enumerate() {
        assert_eq!(hop.hop_number as usize, i + 1);
    }
    assert!(!result.hops[0].success);
    assert!(result.hops[0].ip.is_none());
    // only the final hop carries the target address
    assert_eq!(result.hops[1].ip.as_deref(), Some("10.0.0.2"));
    assert_eq!(result.hops[2].ip.as_deref(), Some("10.0.0.3"));
}

#[test]
fn test_hop_walk_budget_exhausted() {
    let mut walk = HopWalk::new("192.0.2.9".to_string(), 2);
    walk.step(HopOutcome::NoResponse);
    assert!(!walk.is_finished());
    walk.step(HopOutcome::NoResponse);
    // budget spent without reaching the target: a valid, incomplete path
    assert!(walk.is_finished());
    let result = walk.finish("192.0.2.9".to_string(), 100, 7);
    assert_eq!(result.hops.len(), 2);
    assert!(result.hops.iter().all(|h| !h.success));
}

#[test]
fn test_protocol_config_variants() {
    let c = protocol_config("h".to_string(), "ICMP").unwrap();
    assert_eq!(c.packet_size, 60);
    assert_eq!(c.timeout_ms, 3000);
    let c = protocol_config("h".to_string(), "udp").unwrap();
    assert_eq!(c.packet_size, 40);
    let c = protocol_config("h".to_string(), "Tcp").unwrap();
    assert_eq!(c.timeout_ms, 5000);
    assert!(matches!(
        protocol_config("h".to_string(), "http"),
        Err(NetworkError::InvalidInput(_))
    ));
}

#[test]
fn test_traceroute_defaults() {
    let _service = TracerouteService::new();
    let c = TracerouteConfig::default();
    assert_eq!(c.max_hops, 30);
    assert_eq!(c.timeout_ms, 3000);
    assert_eq!(c.delay_ms, 100);
    assert_eq!(c.packet_size, 60);
}

#[test]
fn test_parse_method_cases() {
    assert_eq!(parse_method("get").unwrap(), HttpMethod::Get);
    assert_eq!(parse_method("DELETE").unwrap(), HttpMethod::Delete);
    assert_eq!(parse_method("Head").unwrap(), HttpMethod::Head);
    assert_eq!(parse_method("post").unwrap(), HttpMethod::Post);
    assert_eq!(parse_method("PUT").unwrap(), HttpMethod::Put);
    assert!(matches!(parse_method("PATCH"), Err(NetworkError::InvalidInput(_))));
}

#[test]
fn test_transport_outcomes() {
    let r = transport_success(
        "http://example.com/".to_string(),
        200,
        1234,
        Some(17),
        vec![("server".to_string(), "demo".to_string())],
        7,
    );
    assert!(r.success);
    assert_eq!(r.status_code, Some(200));
    assert!(r.error_message.is_none());

    // an answered non-2xx status is an unsuccessful probe, not an error
    let r = transport_success("http://example.com/".to_string(), 404, 1234, None, vec![], 7);
    assert!(!r.success);
    assert_eq!(r.status_code, Some(404));
    assert!(r.error_message.is_none());

    // a failed transport is a successful probe execution that observed failure
    let r = transport_failure(
        "http://closed.example/".to_string(),
        999,
        "connection refused".to_string(),
        7,
    );
    assert!(!r.success);
    assert!(r.status_code.is_none());
    assert_eq!(r.error_message.as_deref(), Some("connection refused"));
    assert!(r.headers.is_empty());
}

#[test]
fn test_website_config_defaults() {
    let c = WebsiteTestConfig::default();
    assert_eq!(c.method, "GET");
    assert_eq!(c.timeout_ms, 30000);
    assert!(c.follow_redirects);
    assert!(c.verify_ssl);
    assert_eq!(c.headers, vec![("User-Agent".to_string(), "NetworkProbe/1.0".to_string())]);
}

#[test]
fn test_dns_a_records_for_domain() {
    // resolver answers as (is_v4, address text) pairs
    let answers = vec![
        (true, "93.184.216.34".to_string()),
        (false, "2606:2800:220:1:248:1893:25c8:1946".to_string()),
        (true, "93.184.216.35".to_string()),
    ];
    let v4 = filter_family(&answers, true);
    assert_eq!(v4, vec!["93.184.216.34".to_string(), "93.184.216.35".to_string()]);
    let records = records_from_values(&v4, "A");
    assert!(!records.is_empty());
    for rec in &records {
        assert_eq!(rec.record_type, "A");
        assert_eq!(rec.ttl, DEFAULT_TTL);
    }
    let result = build_query_result("example.com".to_string(), DnsQueryType::A, records, 2100, 7);
    assert_eq!(result.domain, "example.com");
    assert_eq!(result.query_type, "A");
    assert!(!result.records.is_empty());
    assert!(result.records.iter().all(|r| r.record_type == "A"));
}

#[test]
fn test_dns_fallback_and_lookup_kinds() {
    assert_eq!(DnsQueryType::CNAME.effective_type(), DnsQueryType::A);
    assert_eq!(DnsQueryType::SOA.effective_type(), DnsQueryType::A);
    assert_eq!(DnsQueryType::PTR.effective_type(), DnsQueryType::A);
    assert_eq!(DnsQueryType::ALL.effective_type(), DnsQueryType::A);
    assert_eq!(DnsQueryType::MX.effective_type(), DnsQueryType::MX);
    assert_eq!(DnsQueryType::A.lookup_kind(), LookupKind::AddressesV4);
    assert_eq!(DnsQueryType::AAAA.lookup_kind(), LookupKind::AddressesV6);
    assert_eq!(DnsQueryType::MX.lookup_kind(), LookupKind::MailExchangers);
    assert_eq!(DnsQueryType::TXT.lookup_kind(), LookupKind::TextRecords);
    assert_eq!(DnsQueryType::NS.lookup_kind(), LookupKind::NameServers);
    assert_eq!(DnsQueryType::PTR.lookup_kind(), LookupKind::AddressesV4);
}

#[test]
fn test_query_type_names() {
    assert_eq!(DnsQueryType::from_name("MX"), Some(DnsQueryType::MX));
    assert_eq!(DnsQueryType::from_name("AAAA"), Some(DnsQueryType::AAAA));
    assert_eq!(DnsQueryType::from_name("mx"), None);
    assert_eq!(DnsQueryType::from_name("bogus"), None);
    assert_eq!(DnsQueryType::TXT.as_str(), "TXT");
}

#[test]
fn test_normalize_mx_value_text() {
    let entries = vec![(10u16, "mail.example.com.".to_string())];
    let records = normalize_mx(&entries);
    assert_eq!(records.len(), 1);
    assert_eq!(records[0].record_type, "MX");
    assert_eq!(records[0].value, "mail.example.com. (priority: 10)");
    assert_eq!(records[0].ttl, DEFAULT_TTL);
}

#[test]
fn test_dns_config_defaults() {
    let c = DnsConfig::default();
    assert_eq!(c.query_type, DnsQueryType::A);
    assert!(c.nameserver.is_none());
    assert_eq!(c.timeout_ms, 5000);
}

#[test]
fn test_error_messages() {
    assert_eq!(
        NetworkError::Dns("no answer".to_string()).message(),
        "DNS resolution failed: no answer"
    );
    assert_eq!(NetworkError::Timeout("probe".to_string()).message(), "Timeout: probe");
    assert_eq!(NetworkError::InvalidInput("x".to_string()).message(), "Invalid input: x");
    assert_eq!(NetworkError::Io("broken pipe".to_string()).message(), "IO error: broken pipe");
    assert_eq!(NetworkError::Http("tls".to_string()).message(), "HTTP request failed: tls");
    assert_eq!(
        NetworkError::Traceroute("walk".to_string()).message(),
        "Traceroute failed: walk"
    );
    assert_eq!(NetworkError::Other("misc".to_string()).message(), "Other error: misc");
}

#[test]
fn test_record_values_projection() {
    let values = vec!["1.2.3.4".to_string(), "5.6.7.8".to_string()];
    let records = records_from_values(&values, "A");
    assert_eq!(network_probe::dns::record_values(&records), values);
}
