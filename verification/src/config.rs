//! Resolving the command-line argument list into a run configuration.
//!
//! The first positional argument is the target URL and must start with
//! `http` (any letter case). The remaining arguments are scanned left to
//! right as `-flagName value` pairs; boolean flags take no value and
//! unrecognized tokens are skipped silently. A numeric flag whose value
//! is missing or is not an integer is a fatal configuration error.

use vstd::prelude::*;
use crate::numbers::{dec_parses, dec_value, digit_seq_of, parse_u64, parse_usize};

verus! {

/// The validated, immutable configuration of one run.
pub struct RunConfig {
    /// Target URL; starts with `http`, ignoring letter case.
    pub url: String,
    /// Total number of calls across all workers.
    pub total_calls: usize,
    /// Number of concurrent workers.
    pub num_threads: usize,
    /// Sleep between consecutive calls of one worker, in milliseconds.
    pub sleep_time_ms: u64,
    /// Per-request timeout, in milliseconds.
    pub request_timeout_ms: u64,
    /// Connect timeout, in milliseconds.
    pub connect_timeout_ms: u64,
    /// Send `Connection: keep-alive` and keep an idle connection pool.
    pub reuse_connects: bool,
    /// Skip draining the response body after each call.
    pub keep_connects_open: bool,
}

/// The non-URL settings of a run; what the flag scan resolves.
pub struct FlagSettings {
    pub total_calls: usize,
    pub num_threads: usize,
    pub sleep_time_ms: u64,
    pub request_timeout_ms: u64,
    pub connect_timeout_ms: u64,
    pub reuse_connects: bool,
    pub keep_connects_open: bool,
}

/// The numeric flags, named for error reports when a value is bad.
#[derive(PartialEq, Eq, Structural, Debug, Clone, Copy)]
pub enum NumericFlag {
    TotalCalls,
    NumThreads,
    SleepTime,
    RequestTimeOut,
    ConnectTimeOut,
}

/// Result of scanning the flag arguments.
pub enum ScanResult {
    /// Every recognized flag was well-formed; these are the settings.
    Settings(FlagSettings),
    /// A numeric flag stood last, with no value after it.
    MissingValue(NumericFlag),
    /// A numeric flag's value did not parse as an integer in range.
    BadValue(NumericFlag),
}

/// How the program was told to proceed, resolved from the argument list.
pub enum ParseOutcome {
    /// No arguments at all: report and print the help text.
    NoArgs,
    /// A help flag occurred somewhere: print the help text.
    HelpRequested,
    /// The URL argument does not start with `http`: report and print help.
    InvalidUrl,
    /// Fatal: a numeric flag with no value after it.
    MissingValue(NumericFlag),
    /// Fatal: a numeric flag whose value is not an integer in range.
    BadValue(NumericFlag),
    /// A validated configuration; the run can start.
    Ready(RunConfig),
}

/// The character views of an argument list.
pub open spec fn arg_views(args: Seq<String>) -> Seq<Seq<char>> {
    Seq::new(args.len(), |i: int| args[i]@)
}

/// `s` asks for the help text.
pub open spec fn is_help_token(s: Seq<char>) -> bool {
    s == "-?"@ || s == "--help"@
}

/// Some argument asks for the help text.
pub open spec fn has_help_flag(args: Seq<Seq<char>>) -> bool {
    exists|i: int| 0 <= i < args.len() && is_help_token(#[trigger] args[i])
}

/// `s` starts with `http`, ignoring ASCII letter case.
pub open spec fn is_http_prefix(s: Seq<char>) -> bool {
    s.len() >= 4 && (s[0] == 'h' || s[0] == 'H') && (s[1] == 't' || s[1] == 'T') && (s[2] == 't'
        || s[2] == 'T') && (s[3] == 'p' || s[3] == 'P')
}

/// `s` starts with `https`, ignoring ASCII letter case.
pub open spec fn is_https_prefix(s: Seq<char>) -> bool {
    is_http_prefix(s) && s.len() >= 5 && (s[4] == 's' || s[4] == 'S')
}

/// The settings used when no flag overrides them.
pub open spec fn default_settings() -> FlagSettings {
    FlagSettings {
        total_calls: 10000,
        num_threads: 12,
        sleep_time_ms: 0,
        request_timeout_ms: 10000,
        connect_timeout_ms: 30000,
        reuse_connects: false,
        keep_connects_open: false,
    }
}

/// The non-URL settings held in a configuration.
pub open spec fn settings_of(cfg: RunConfig) -> FlagSettings {
    FlagSettings {
        total_calls: cfg.total_calls,
        num_threads: cfg.num_threads,
        sleep_time_ms: cfg.sleep_time_ms,
        request_timeout_ms: cfg.request_timeout_ms,
        connect_timeout_ms: cfg.connect_timeout_ms,
        reuse_connects: cfg.reuse_connects,
        keep_connects_open: cfg.keep_connects_open,
    }
}

/// The left-to-right scan of the flag arguments from position `i`
/// onward, starting from the settings `acc`: recognized flags override
/// the corresponding setting, unrecognized tokens are skipped, and a
/// missing or malformed numeric value stops the scan.
pub open spec fn scan_flags(args: Seq<Seq<char>>, i: int, acc: FlagSettings) -> ScanResult
    decreases args.len() - i,
{
    if i >= args.len() {
        ScanResult::Settings(acc)
    } else if args[i] == "-totalCalls"@ {
        if i + 1 >= args.len() {
            ScanResult::MissingValue(NumericFlag::TotalCalls)
        } else if dec_parses(args[i + 1], usize::MAX as int) {
            scan_flags(
                args,
                i + 2,
                FlagSettings { total_calls: dec_value(digit_seq_of(args[i + 1])) as usize, ..acc },
            )
        } else {
            ScanResult::BadValue(NumericFlag::TotalCalls)
        }
    } else if args[i] == "-numThreads"@ {
        if i + 1 >= args.len() {
            ScanResult::MissingValue(NumericFlag::NumThreads)
        } else if dec_parses(args[i + 1], usize::MAX as int) {
            scan_flags(
                args,
                i + 2,
                FlagSettings { num_threads: dec_value(digit_seq_of(args[i + 1])) as usize, ..acc },
            )
        } else {
            ScanResult::BadValue(NumericFlag::NumThreads)
        }
    } else if args[i] == "-sleepTime"@ {
        if i + 1 >= args.len() {
            ScanResult::MissingValue(NumericFlag::SleepTime)
        } else if dec_parses(args[i + 1], u64::MAX as int) {
            scan_flags(
                args,
                i + 2,
                FlagSettings { sleep_time_ms: dec_value(digit_seq_of(args[i + 1])) as u64, ..acc },
            )
        } else {
            ScanResult::BadValue(NumericFlag::SleepTime)
        }
    } else if args[i] == "-requestTimeOut"@ {
        if i + 1 >= args.len() {
            ScanResult::MissingValue(NumericFlag::RequestTimeOut)
        } else if dec_parses(args[i + 1], u64::MAX as int) {
            scan_flags(
                args,
                i + 2,
                FlagSettings {
                    request_timeout_ms: dec_value(digit_seq_of(args[i + 1])) as u64,
                    ..acc
                },
            )
        } else {
            ScanResult::BadValue(NumericFlag::RequestTimeOut)
        }
    } else if args[i] == "-connectTimeOut"@ {
        if i + 1 >= args.len() {
            ScanResult::MissingValue(NumericFlag::ConnectTimeOut)
        } else if dec_parses(args[i + 1], u64::MAX as int) {
            scan_flags(
                args,
                i + 2,
                FlagSettings {
                    connect_timeout_ms: dec_value(digit_seq_of(args[i + 1])) as u64,
                    ..acc
                },
            )
        } else {
            ScanResult::BadValue(NumericFlag::ConnectTimeOut)
        }
    } else if args[i] == "-reuseConnects"@ {
        scan_flags(args, i + 1, FlagSettings { reuse_connects: true, ..acc })
    } else if args[i] == "-keepConnectsOpen"@ {
        scan_flags(args, i + 1, FlagSettings { keep_connects_open: true, ..acc })
    } else {
        scan_flags(args, i + 1, acc)
    }
}

/// Character-for-character string equality.
fn str_eq(a: &str, b: &str) -> (r: bool)
    ensures
        r == (a@ == b@),
{
    let na = a.unicode_len();
    let nb = b.unicode_len();
    if na != nb {
        return false;
    }
    let mut i: usize = 0;
    while i < na
        invariant
            i <= na,
            na == a@.len(),
            na == b@.len(),
            forall|k: int| 0 <= k < i ==> a@[k] == b@[k],
        decreases na - i,
    {
        if a.get_char(i) != b.get_char(i) {
            return false;
        }
        i = i + 1;
    }
    proof {
        assert(a@ =~= b@);
    }
    true
}

/// The URL test applied to the first positional argument.
pub fn url_is_http(url: &str) -> (r: bool)
    ensures
        r == is_http_prefix(url@),
{
    let n = url.unicode_len();
    if n < 4 {
        return false;
    }
    let c0 = url.get_char(0);
    let c1 = url.get_char(1);
    let c2 = url.get_char(2);
    let c3 = url.get_char(3);
    (c0 == 'h' || c0 == 'H') && (c1 == 't' || c1 == 'T') && (c2 == 't' || c2 == 'T') && (c3 == 'p'
        || c3 == 'P')
}

/// Whether the target URL selects the TLS scheme.
pub fn url_is_https(url: &str) -> (r: bool)
    ensures
        r == is_https_prefix(url@),
{
    if !url_is_http(url) {
        return false;
    }
    let n = url.unicode_len();
    if n < 5 {
        return false;
    }
    let c4 = url.get_char(4);
    c4 == 's' || c4 == 'S'
}

/// Resolve the raw argument list (program name first) into the outcome
/// of the run's configuration phase.
pub fn parse_args(args: &Vec<String>) -> (r: ParseOutcome)
    ensures
        ({
            let v = arg_views(args@);
            match r {
                ParseOutcome::NoArgs => v.len() < 2,
                ParseOutcome::HelpRequested => v.len() >= 2 && has_help_flag(v),
                ParseOutcome::InvalidUrl => v.len() >= 2 && !has_help_flag(v) && !is_http_prefix(
                    v[1],
                ),
                ParseOutcome::MissingValue(f) => v.len() >= 2 && !has_help_flag(v)
                    && is_http_prefix(v[1]) && scan_flags(v, 2, default_settings())
                    == ScanResult::MissingValue(f),
                ParseOutcome::BadValue(f) => v.len() >= 2 && !has_help_flag(v) && is_http_prefix(
                    v[1],
                ) && scan_flags(v, 2, default_settings()) == ScanResult::BadValue(f),
                ParseOutcome::Ready(cfg) => v.len() >= 2 && !has_help_flag(v) && is_http_prefix(
                    v[1],
                ) && cfg.url@ == v[1] && scan_flags(v, 2, default_settings())
                    == ScanResult::Settings(settings_of(cfg)),
            }
        }),
{
    let ghost v = arg_views(args@);
    if args.len() < 2 {
        return ParseOutcome::NoArgs;
    }
    let mut j: usize = 0;
    while j < args.len()
        invariant
            j <= args.len(),
            args.len() >= 2,
            v == arg_views(args@),
            forall|k: int| 0 <= k < j ==> !is_help_token(#[trigger] v[k]),
        decreases args.len() - j,
    {
        proof {
            assert(v[j as int] == args@[j as int]@);
        }
        if str_eq(args[j].as_str(), "-?") || str_eq(args[j].as_str(), "--help") {
            proof {
                assert(is_help_token(v[j as int]));
            }
            return ParseOutcome::HelpRequested;
        }
        j = j + 1;
    }
    proof {
        assert(!has_help_flag(v));
        assert(v[1] == args@[1]@);
    }
    if !url_is_http(args[1].as_str()) {
        return ParseOutcome::InvalidUrl;
    }
    let mut total_calls: usize = 10000;
    let mut num_threads: usize = 12;
    let mut sleep_time_ms: u64 = 0;
    let mut request_timeout_ms: u64 = 10000;
    let mut connect_timeout_ms: u64 = 30000;
    let mut reuse_connects: bool = false;
    let mut keep_connects_open: bool = false;
    let mut i: usize = 2;
    while i < args.len()
        invariant
            2 <= i,
            args.len() >= 2,
            v == arg_views(args@),
            !has_help_flag(v),
            is_http_prefix(v[1]),
            scan_flags(v, 2, default_settings()) == scan_flags(
                v,
                i as int,
                (FlagSettings {
                    total_calls,
                    num_threads,
                    sleep_time_ms,
                    request_timeout_ms,
                    connect_timeout_ms,
                    reuse_connects,
                    keep_connects_open,
                }),
            ),
        decreases args.len() - i,
    {
        proof {
            assert(v[i as int] == args@[i as int]@);
            if i + 1 < args.len() {
                assert(v[i as int + 1] == args@[i as int + 1]@);
            }
        }
        if str_eq(args[i].as_str(), "-totalCalls") {
            if i + 1 >= args.len() {
                return ParseOutcome::MissingValue(NumericFlag::TotalCalls);
            }
            match parse_usize(args[i + 1].as_str()) {
                Some(value) => {
                    total_calls = value;
                    i = i + 2;
                },
                None => {
                    return ParseOutcome::BadValue(NumericFlag::TotalCalls);
                },
            }
        } else if str_eq(args[i].as_str(), "-numThreads") {
            if i + 1 >= args.len() {
                return ParseOutcome::MissingValue(NumericFlag::NumThreads);
            }
            match parse_usize(args[i + 1].as_str()) {
                Some(value) => {
                    num_threads = value;
                    i = i + 2;
                },
                None => {
                    return ParseOutcome::BadValue(NumericFlag::NumThreads);
                },
            }
        } else if str_eq(args[i].as_str(), "-sleepTime") {
            if i + 1 >= args.len() {
                return ParseOutcome::MissingValue(NumericFlag::SleepTime);
            }
            match parse_u64(args[i + 1].as_str()) {
                Some(value) => {
                    sleep_time_ms = value;
                    i = i + 2;
                },
                None => {
                    return ParseOutcome::BadValue(NumericFlag::SleepTime);
                },
            }
        } else if str_eq(args[i].as_str(), "-requestTimeOut") {
            if i + 1 >= args.len() {
                return ParseOutcome::MissingValue(NumericFlag::RequestTimeOut);
            }
            match parse_u64(args[i + 1].as_str()) {
                Some(value) => {
                    request_timeout_ms = value;
                    i = i + 2;
                },
                None => {
                    return ParseOutcome::BadValue(NumericFlag::RequestTimeOut);
                },
            }
        } else if str_eq(args[i].as_str(), "-connectTimeOut") {
            if i + 1 >= args.len() {
                return ParseOutcome::MissingValue(NumericFlag::ConnectTimeOut);
            }
            match parse_u64(args[i + 1].as_str()) {
                Some(value) => {
                    connect_timeout_ms = value;
                    i = i + 2;
                },
                None => {
                    return ParseOutcome::BadValue(NumericFlag::ConnectTimeOut);
                },
            }
        } else if str_eq(args[i].as_str(), "-reuseConnects") {
            reuse_connects = true;
            i = i + 1;
        } else if str_eq(args[i].as_str(), "-keepConnectsOpen") {
            keep_connects_open = true;
            i = i + 1;
        } else {
            i = i + 1;
        }
    }
    let cfg = RunConfig {
        url: args[1].clone(),
        total_calls,
        num_threads,
        sleep_time_ms,
        request_timeout_ms,
        connect_timeout_ms,
        reuse_connects,
        keep_connects_open,
    };
    ParseOutcome::Ready(cfg)
}

} // verus!
