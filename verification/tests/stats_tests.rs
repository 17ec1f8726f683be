use network_probe::stats::{compute_statistics, AttemptLog, AttemptOutcome};

fn ok(rtt_micros: u64) -> AttemptOutcome {
    AttemptOutcome::Success { rtt_micros }
}

#[test]
fn test_partition_and_loss_bounds() {
    let attempts = vec![ok(1000), AttemptOutcome::Failure, AttemptOutcome::Timeout, ok(3000)];
    let st = compute_statistics(&attempts).unwrap();
    assert_eq!(st.sent, 4);
    assert_eq!(st.succeeded, 2);
    // sent == succeeded + failed
    assert_eq!(st.sent - st.succeeded, 2);
    assert_eq!(st.loss_percent, 50);
    assert!(st.loss_percent <= 100);
    assert_eq!(st.min_rtt_micros, 1000);
    assert_eq!(st.max_rtt_micros, 3000);
    assert_eq!(st.avg_rtt_micros, 2000);
}

#[test]
fn test_all_failed_run_has_no_statistics() {
    let attempts = vec![AttemptOutcome::Failure, AttemptOutcome::Timeout];
    assert!(compute_statistics(&attempts).is_none());
}

#[test]
fn test_empty_run_has_no_statistics() {
    let attempts: Vec<AttemptOutcome> = Vec::new();
    assert!(compute_statistics(&attempts).is_none());
}

#[test]
fn test_min_avg_max_ordering() {
    let attempts = vec![ok(100), ok(250), ok(400)];
    let st = compute_statistics(&attempts).unwrap();
    assert_eq!(st.min_rtt_micros, 100);
    assert_eq!(st.max_rtt_micros, 400);
    assert_eq!(st.avg_rtt_micros, 250);
    assert!(st.min_rtt_micros <= st.avg_rtt_micros);
    assert!(st.avg_rtt_micros <= st.max_rtt_micros);
}

#[test]
fn test_single_success() {
    let attempts = vec![ok(777)];
    let st = compute_statistics(&attempts).unwrap();
    assert_eq!(st.sent, 1);
    assert_eq!(st.succeeded, 1);
    assert_eq!(st.loss_percent, 0);
    assert_eq!(st.min_rtt_micros, 777);
    assert_eq!(st.max_rtt_micros, 777);
    assert_eq!(st.avg_rtt_micros, 777);
}

#[test]
fn test_loss_percent_rounds_down() {
    let attempts = vec![ok(10), AttemptOutcome::Failure, AttemptOutcome::Failure];
    let st = compute_statistics(&attempts).unwrap();
    // 2 of 3 lost: 66.66... rounds down to 66
    assert_eq!(st.loss_percent, 66);
}

#[test]
fn test_avg_rounds_down() {
    let attempts = vec![ok(1), ok(2)];
    let st = compute_statistics(&attempts).unwrap();
    assert_eq!(st.avg_rtt_micros, 1);
}

#[test]
fn test_attempt_log_records_in_order() {
    let mut log = AttemptLog::new(3);
    assert_eq!(log.remaining(), 3);
    log.record(ok(100));
    log.record(AttemptOutcome::Timeout);
    assert_eq!(log.remaining(), 1);
    log.record(ok(300));
    assert_eq!(log.remaining(), 0);
    let st = log.finish().unwrap();
    assert_eq!(st.sent, 3);
    assert_eq!(st.succeeded, 2);
    assert_eq!(st.loss_percent, 33);
    assert_eq!(st.min_rtt_micros, 100);
    assert_eq!(st.max_rtt_micros, 300);
    assert_eq!(st.avg_rtt_micros, 200);
}

#[test]
fn test_attempt_log_all_lost() {
    let mut log = AttemptLog::new(2);
    log.record(AttemptOutcome::Timeout);
    log.record(AttemptOutcome::Failure);
    assert!(log.finish().is_none());
}
