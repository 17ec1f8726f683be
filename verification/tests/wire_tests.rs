use network_probe::dns::{DnsQueryResult, DnsRecord};
use network_probe::ping::PingResult;
use network_probe::tcping::TcpingResult;
use network_probe::traceroute::{Hop, TracerouteResult};
use network_probe::website::WebsiteTestResult;
use network_probe::wire::{
    decode_dns, decode_ping, decode_tcping, decode_traceroute, decode_website, encode_dns,
    encode_ping, encode_tcping, encode_traceroute, encode_website,
};

fn sample_ping() -> PingResult {
    PingResult {
        host: "example.com".to_string(),
        ip: "93.184.216.34".to_string(),
        packet_loss: 25,
        min_rtt_micros: 1000,
        max_rtt_micros: 3000,
        avg_rtt_micros: 2000,
        packets_sent: 4,
        packets_received: 3,
        timestamp_ms: 1700000000000,
    }
}

#[test]
fn test_ping_encoding_is_exact() {
    let r = PingResult {
        host: "h".to_string(),
        ip: "1.2.3.4".to_string(),
        packet_loss: 0,
        min_rtt_micros: 5,
        max_rtt_micros: 7,
        avg_rtt_micros: 6,
        packets_sent: 2,
        packets_received: 2,
        timestamp_ms: 9,
    };
    let text = encode_ping(&r);
    assert_eq!(
        text,
        "{\"host\":\"h\",\"ip\":\"1.2.3.4\",\"packet_loss\":0,\"min_rtt_micros\":5,\
         \"max_rtt_micros\":7,\"avg_rtt_micros\":6,\"packets_sent\":2,\
         \"packets_received\":2,\"timestamp_ms\":9}"
    );
}

#[test]
fn test_ping_round_trip() {
    let r = sample_ping();
    let decoded = decode_ping(&encode_ping(&r)).unwrap();
    assert_eq!(decoded, r);
}

#[test]
fn test_ping_round_trip_with_escapes() {
    let mut r = sample_ping();
    r.host = "a\"b\\c".to_string();
    let text = encode_ping(&r);
    let decoded = decode_ping(&text).unwrap();
    assert_eq!(decoded, r);
}

#[test]
fn test_decode_rejects_trailing_text() {
    let r = sample_ping();
    let mut text = encode_ping(&r);
    text.push(' ');
    assert!(decode_ping(&text).is_none());
    assert!(decode_ping("{}").is_none());
    assert!(decode_ping("").is_none());
}

#[test]
fn test_tcping_round_trip() {
    let r = TcpingResult {
        host: "127.0.0.1".to_string(),
        port: 8080,
        ip: "127.0.0.1".to_string(),
        success: true,
        avg_rtt_micros: 600,
        min_rtt_micros: 500,
        max_rtt_micros: 700,
        attempts: 3,
        successful_attempts: 2,
        packet_loss: 33,
        timestamp_ms: 12345,
    };
    let decoded = decode_tcping(&encode_tcping(&r)).unwrap();
    assert_eq!(decoded, r);
}

#[test]
fn test_dns_round_trip() {
    let r = DnsQueryResult {
        domain: "example.com".to_string(),
        query_type: "MX".to_string(),
        records: vec![
            DnsRecord {
                record_type: "MX".to_string(),
                value: "mail.example.com. (priority: 10)".to_string(),
                ttl: 300,
            },
            DnsRecord {
                record_type: "MX".to_string(),
                value: "backup.example.com. (priority: 20)".to_string(),
                ttl: 300,
            },
        ],
        response_time_micros: 2100,
        timestamp_ms: 7,
    };
    let decoded = decode_dns(&encode_dns(&r)).unwrap();
    assert_eq!(decoded, r);
}

#[test]
fn test_dns_round_trip_empty_records() {
    let r = DnsQueryResult {
        domain: "empty.example".to_string(),
        query_type: "A".to_string(),
        records: vec![],
        response_time_micros: 1,
        timestamp_ms: 2,
    };
    let decoded = decode_dns(&encode_dns(&r)).unwrap();
    assert_eq!(decoded, r);
}

#[test]
fn test_traceroute_round_trip() {
    let r = TracerouteResult {
        host: "example.com".to_string(),
        ip: "93.184.216.34".to_string(),
        hops: vec![
            Hop { hop_number: 1, ip: None, hostname: None, rtt_micros: None, success: false },
            Hop {
                hop_number: 2,
                ip: Some("10.0.0.2".to_string()),
                hostname: Some("gw.example.com".to_string()),
                rtt_micros: Some(1500),
                success: true,
            },
            Hop {
                hop_number: 3,
                ip: Some("93.184.216.34".to_string()),
                hostname: None,
                rtt_micros: Some(2500),
                success: true,
            },
        ],
        max_hops: 30,
        total_time_micros: 9000,
        timestamp_ms: 7,
    };
    let decoded = decode_traceroute(&encode_traceroute(&r)).unwrap();
    assert_eq!(decoded, r);
}

#[test]
fn test_website_round_trip_full() {
    let r = WebsiteTestResult {
        url: "https://example.com/a?b=c".to_string(),
        status_code: Some(200),
        response_time_micros: 123456,
        content_length: Some(512),
        success: true,
        error_message: None,
        headers: vec![
            ("content-type".to_string(), "text/html".to_string()),
            ("server".to_string(), "demo/1.0".to_string()),
        ],
        timestamp_ms: 7,
    };
    let decoded = decode_website(&encode_website(&r)).unwrap();
    assert_eq!(decoded, r);
}

#[test]
fn test_website_round_trip_failure_shape() {
    let r = WebsiteTestResult {
        url: "https://closed.example/".to_string(),
        status_code: None,
        response_time_micros: 999,
        content_length: None,
        success: false,
        error_message: Some("connection refused".to_string()),
        headers: vec![],
        timestamp_ms: 7,
    };
    let text = encode_website(&r);
    assert!(text.contains("\"status_code\":null"));
    let decoded = decode_website(&text).unwrap();
    assert_eq!(decoded, r);
}
