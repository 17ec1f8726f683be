use network_probe::error::NetworkError;
use network_probe::ports::{pair_scan_results, parse_port, parse_port_range};

#[test]
fn test_single_port() {
    assert_eq!(parse_port_range("80").unwrap(), vec![80u16]);
}

#[test]
fn test_port_range() {
    assert_eq!(parse_port_range("8000-8003").unwrap(), vec![8000u16, 8001, 8002, 8003]);
}

#[test]
fn test_inverted_range_rejected() {
    // rejected by parsing alone, before any connection could be attempted
    let r = parse_port_range("65000-1");
    assert!(matches!(r, Err(NetworkError::InvalidInput(_))));
}

#[test]
fn test_malformed_ranges_rejected() {
    assert!(matches!(parse_port_range("1-2-3"), Err(NetworkError::InvalidInput(_))));
    assert!(matches!(parse_port_range("abc"), Err(NetworkError::InvalidInput(_))));
    assert!(matches!(parse_port_range(""), Err(NetworkError::InvalidInput(_))));
    assert!(matches!(parse_port_range("70000"), Err(NetworkError::InvalidInput(_))));
    assert!(matches!(parse_port_range("10-"), Err(NetworkError::InvalidInput(_))));
    assert!(matches!(parse_port_range("-10"), Err(NetworkError::InvalidInput(_))));
}

#[test]
fn test_equal_bounds_range() {
    assert_eq!(parse_port_range("443-443").unwrap(), vec![443u16]);
}

#[test]
fn test_largest_port() {
    assert_eq!(parse_port_range("65535").unwrap(), vec![65535u16]);
    assert_eq!(parse_port_range("65534-65535").unwrap(), vec![65534u16, 65535]);
}

#[test]
fn test_parse_port_leading_zeros() {
    assert_eq!(parse_port("0080"), Some(80));
    assert_eq!(parse_port("65536"), None);
    assert_eq!(parse_port(""), None);
    assert_eq!(parse_port("1 2"), None);
}

#[test]
fn test_scan_output_is_requested_ports_in_order() {
    let ports = parse_port_range("20-23").unwrap();
    let open = vec![false, true, false, true];
    let results = pair_scan_results(&ports, &open);
    let scanned: Vec<u16> = results.iter().map(|e| e.0).collect();
    assert_eq!(scanned, ports);
    let flags: Vec<bool> = results.iter().map(|e| e.1).collect();
    assert_eq!(flags, open);
    // no duplicates
    for i in 0..scanned.len() {
        for j in (i + 1)..scanned.len() {
            assert_ne!(scanned[i], scanned[j]);
        }
    }
}
