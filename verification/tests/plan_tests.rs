use api_tester::config::RunConfig;
use api_tester::plan::{client_plan, ConnectionHeader};

fn base_config(url: &str, reuse: bool) -> RunConfig {
    RunConfig {
        url: url.to_string(),
        total_calls: 100,
        num_threads: 12,
        sleep_time_ms: 0,
        request_timeout_ms: 10000,
        connect_timeout_ms: 30000,
        reuse_connects: reuse,
        keep_connects_open: false,
    }
}

#[test]
fn reuse_connects_sets_keep_alive_and_pool() {
    let plan = client_plan(&base_config("http://localhost", true));
    assert_eq!(plan.connection_header, ConnectionHeader::KeepAlive);
    assert_eq!(plan.connection_header.value_str(), "keep-alive");
    assert_eq!(plan.pool_max_idle_per_host, 120);
}

#[test]
fn no_reuse_sets_close_and_zero_pool() {
    let plan = client_plan(&base_config("http://localhost", false));
    assert_eq!(plan.connection_header, ConnectionHeader::Close);
    assert_eq!(plan.connection_header.value_str(), "close");
    assert_eq!(plan.pool_max_idle_per_host, 0);
}

#[test]
fn https_disables_certificate_validation() {
    let plan = client_plan(&base_config("https://example.com", false));
    assert!(plan.accept_invalid_certs);
}

#[test]
fn plain_http_keeps_certificate_validation() {
    let plan = client_plan(&base_config("http://example.com", false));
    assert!(!plan.accept_invalid_certs);
}

#[test]
fn timeouts_copied_from_config() {
    let mut cfg = base_config("http://localhost", true);
    cfg.request_timeout_ms = 1234;
    cfg.connect_timeout_ms = 5678;
    let plan = client_plan(&cfg);
    assert_eq!(plan.request_timeout_ms, 1234);
    assert_eq!(plan.connect_timeout_ms, 5678);
}
