use api_tester::assign::calls_for_worker;
use api_tester::latency::LatencyLog;

#[test]
fn completed_run_logs_every_call() {
    let total = 37;
    let threads = 5;
    let mut log = LatencyLog::new();
    for worker in 0..threads {
        let share = calls_for_worker(total, threads, worker);
        for call in 0..share {
            log.record(1_000 + call as u64);
        }
    }
    assert_eq!(log.len(), total);
}

#[test]
fn record_appends_one_entry_per_call() {
    let mut log = LatencyLog::new();
    assert_eq!(log.len(), 0);
    log.record(150);
    log.record(90);
    log.record(10_000_000);
    log.record(75);
    assert_eq!(log.len(), 4);
    assert_eq!(log.get(0), 150);
    assert_eq!(log.get(2), 10_000_000);
}

#[test]
fn total_and_average_exact() {
    let mut log = LatencyLog::new();
    log.record(100);
    log.record(200);
    log.record(300);
    assert_eq!(log.total_nanos(), 600);
    assert_eq!(log.average_nanos(), Some(200));
}

#[test]
fn average_rounds_down() {
    let mut log = LatencyLog::new();
    log.record(100);
    log.record(200);
    log.record(301);
    assert_eq!(log.total_nanos(), 601);
    assert_eq!(log.average_nanos(), Some(200));
}

#[test]
fn empty_log_has_no_average() {
    let log = LatencyLog::new();
    assert_eq!(log.average_nanos(), None);
}

#[test]
fn average_includes_failure_latencies() {
    // two fast successes and one slow timed-out call: the mean covers all
    // three entries alike
    let mut log = LatencyLog::new();
    log.record(10);
    log.record(20);
    log.record(10_000);
    assert_eq!(log.average_nanos(), Some(3343));
}

#[test]
fn large_durations_do_not_overflow() {
    let mut log = LatencyLog::new();
    log.record(u64::MAX);
    log.record(u64::MAX);
    log.record(u64::MAX);
    assert_eq!(log.total_nanos(), 3 * (u64::MAX as u128));
    assert_eq!(log.average_nanos(), Some(u64::MAX));
}
