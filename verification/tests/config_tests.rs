use api_tester::config::{parse_args, NumericFlag, ParseOutcome};

fn args_of(parts: &[&str]) -> Vec<String> {
    parts.iter().map(|s| s.to_string()).collect()
}

#[test]
fn no_args_reports_error() {
    let out = parse_args(&args_of(&["api-tester"]));
    assert!(matches!(out, ParseOutcome::NoArgs));
}

#[test]
fn help_flag_short_form() {
    let out = parse_args(&args_of(&["api-tester", "http://localhost", "-?"]));
    assert!(matches!(out, ParseOutcome::HelpRequested));
}

#[test]
fn help_flag_long_form() {
    let out = parse_args(&args_of(&["api-tester", "--help"]));
    assert!(matches!(out, ParseOutcome::HelpRequested));
}

#[test]
fn invalid_url_reports_usage_error() {
    let out = parse_args(&args_of(&["api-tester", "ftp://example.com"]));
    assert!(matches!(out, ParseOutcome::InvalidUrl));
}

#[test]
fn defaults_when_no_flags() {
    let out = parse_args(&args_of(&["api-tester", "http://localhost:8080"]));
    match out {
        ParseOutcome::Ready(cfg) => {
            assert_eq!(cfg.url, "http://localhost:8080");
            assert_eq!(cfg.total_calls, 10000);
            assert_eq!(cfg.num_threads, 12);
            assert_eq!(cfg.sleep_time_ms, 0);
            assert_eq!(cfg.request_timeout_ms, 10000);
            assert_eq!(cfg.connect_timeout_ms, 30000);
            assert!(!cfg.reuse_connects);
            assert!(!cfg.keep_connects_open);
        }
        _ => panic!("expected a ready configuration"),
    }
}

#[test]
fn all_flags_parsed() {
    let out = parse_args(&args_of(&[
        "api-tester",
        "https://example.com",
        "-totalCalls",
        "500",
        "-numThreads",
        "4",
        "-sleepTime",
        "25",
        "-requestTimeOut",
        "2000",
        "-connectTimeOut",
        "3000",
        "-reuseConnects",
        "-keepConnectsOpen",
    ]));
    match out {
        ParseOutcome::Ready(cfg) => {
            assert_eq!(cfg.total_calls, 500);
            assert_eq!(cfg.num_threads, 4);
            assert_eq!(cfg.sleep_time_ms, 25);
            assert_eq!(cfg.request_timeout_ms, 2000);
            assert_eq!(cfg.connect_timeout_ms, 3000);
            assert!(cfg.reuse_connects);
            assert!(cfg.keep_connects_open);
        }
        _ => panic!("expected a ready configuration"),
    }
}

#[test]
fn unrecognized_tokens_skipped() {
    let out = parse_args(&args_of(&[
        "api-tester",
        "http://localhost",
        "-bogus",
        "17",
        "-numThreads",
        "3",
    ]));
    match out {
        ParseOutcome::Ready(cfg) => {
            assert_eq!(cfg.num_threads, 3);
            assert_eq!(cfg.total_calls, 10000);
        }
        _ => panic!("expected a ready configuration"),
    }
}

#[test]
fn non_integer_sleep_time_is_fatal() {
    let out = parse_args(&args_of(&["api-tester", "http://localhost", "-sleepTime", "abc"]));
    assert!(matches!(out, ParseOutcome::BadValue(NumericFlag::SleepTime)));
}

#[test]
fn missing_numeric_value_is_fatal() {
    let out = parse_args(&args_of(&["api-tester", "http://localhost", "-totalCalls"]));
    assert!(matches!(out, ParseOutcome::MissingValue(NumericFlag::TotalCalls)));
}

#[test]
fn overflowing_value_is_fatal() {
    let out = parse_args(&args_of(&[
        "api-tester",
        "http://localhost",
        "-sleepTime",
        "99999999999999999999999999",
    ]));
    assert!(matches!(out, ParseOutcome::BadValue(NumericFlag::SleepTime)));
}

#[test]
fn plus_sign_accepted_on_numbers() {
    let out = parse_args(&args_of(&["api-tester", "http://localhost", "-totalCalls", "+42"]));
    match out {
        ParseOutcome::Ready(cfg) => assert_eq!(cfg.total_calls, 42),
        _ => panic!("expected a ready configuration"),
    }
}

#[test]
fn url_check_ignores_letter_case() {
    let out = parse_args(&args_of(&["api-tester", "HTTPS://EXAMPLE.COM"]));
    assert!(matches!(out, ParseOutcome::Ready(_)));
}

#[test]
fn later_flag_overrides_earlier() {
    let out = parse_args(&args_of(&[
        "api-tester",
        "http://localhost",
        "-numThreads",
        "3",
        "-numThreads",
        "7",
    ]));
    match out {
        ParseOutcome::Ready(cfg) => assert_eq!(cfg.num_threads, 7),
        _ => panic!("expected a ready configuration"),
    }
}
