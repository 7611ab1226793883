use space_trader::debug::client_server::ConnectionHealth;
use space_trader::debug::error_analysis::{
    analyze_error_patterns, clear_errors, generate_error_report, generate_error_report_with, get_error_count,
    get_errors, get_errors_by_module, get_errors_by_type, get_recent_errors_at, record_error, record_error_at,
    register_simple_error, ErrorLog, ErrorRecord, MAX_ERRORS,
};
use space_trader::debug::{
    format_log_line, get_module_level, get_timing_stats, info, log_internal, log_level_from_name, record_timing,
    set_module_level, trace, LogLevel, Logger, Timings,
};

#[test]
fn module_levels_override_global() {
    let mut logger = Logger::new();
    assert_eq!(get_module_level(&logger, "net"), LogLevel::Info);
    set_module_level(&mut logger, "net", LogLevel::Trace);
    assert_eq!(get_module_level(&logger, "net"), LogLevel::Trace);
    assert_eq!(get_module_level(&logger, "ui"), LogLevel::Info);
    set_module_level(&mut logger, "net", LogLevel::Error);
    assert_eq!(get_module_level(&logger, "net"), LogLevel::Error);
    assert_eq!(logger.module_levels.len(), 1);
}

#[test]
fn filter_decides_what_is_logged() {
    let mut logger = Logger::new();
    assert!(trace(&logger, "hidden").is_none());
    let line = info(&logger, "hello").unwrap();
    assert!(line.starts_with('['));
    assert!(line.ends_with("] [INFO] [main] hello"));
    set_module_level(&mut logger, "main", LogLevel::Trace);
    assert!(trace(&logger, "shown").is_some());
    assert!(log_internal(&logger, LogLevel::Debug, "other", "x").is_none());
    assert!(log_internal(&logger, LogLevel::Warning, "other", "x").unwrap().ends_with("[WARN] [other] x"));
}

#[test]
fn log_line_format() {
    assert_eq!(format_log_line("T", LogLevel::Error, "m", "boom"), "[T] [ERROR] [m] boom");
    assert_eq!(LogLevel::Warning.to_string(), "WARN");
    assert!(LogLevel::Trace.rank() < LogLevel::Error.rank());
}

#[test]
fn level_names() {
    assert_eq!(log_level_from_name(Some("trace")), LogLevel::Trace);
    assert_eq!(log_level_from_name(Some("warning")), LogLevel::Warning);
    assert_eq!(log_level_from_name(Some("warn")), LogLevel::Warning);
    assert_eq!(log_level_from_name(Some("loud")), LogLevel::Info);
    assert_eq!(log_level_from_name(None), LogLevel::Info);
}

#[test]
fn timing_statistics() {
    let mut t = Timings::new();
    assert_eq!(get_timing_stats(&t, "load"), None);
    record_timing(&mut t, "load", 30);
    record_timing(&mut t, "load", 10);
    record_timing(&mut t, "load", 21);
    record_timing(&mut t, "save", 5);
    assert_eq!(get_timing_stats(&t, "load"), Some((10, 20, 30)));
    assert_eq!(get_timing_stats(&t, "save"), Some((5, 5, 5)));
}

fn ctx(pairs: &[(&str, &str)]) -> Option<Vec<(String, String)>> {
    Some(pairs.iter().map(|(k, v)| (k.to_string(), v.to_string())).collect())
}

#[test]
fn error_log_records_and_filters() {
    let mut log = ErrorLog::new();
    record_error_at(&mut log, "network", "timeout", "slow", None, 1_000);
    record_error_at(&mut log, "game", "save_error", "disk", ctx(&[("file", "a.json")]), 2_000);
    record_error_at(&mut log, "network", "connection_error", "refused", None, 3_000);
    register_simple_error(&mut log, "ui", "glitch");
    assert_eq!(get_error_count(&log), 4);
    let net = get_errors_by_module(&log, "network");
    assert_eq!(net.len(), 2);
    assert_eq!(net[0].message, "slow");
    assert_eq!(net[1].message, "refused");
    assert_eq!(get_errors_by_type(&log, "error").len(), 1);
    let recent = get_recent_errors_at(&log, 1_500, 3_200);
    assert_eq!(recent.len(), 2);
    assert_eq!(get_errors(&log)[1].context, ctx(&[("file", "a.json")]));
    clear_errors(&mut log);
    assert_eq!(get_error_count(&log), 0);
}

#[test]
fn error_log_keeps_the_newest() {
    let mut log = ErrorLog::new();
    for i in 0..(MAX_ERRORS as u64 + 5) {
        record_error_at(&mut log, "m", "t", &format!("e{}", i), None, i);
    }
    assert_eq!(get_error_count(&log), MAX_ERRORS);
    assert_eq!(log.records[0].message, "e5");
    assert_eq!(log.records[MAX_ERRORS - 1].message, format!("e{}", MAX_ERRORS + 4));
    record_error(&mut log, "m", "t", "now", None);
    assert_eq!(get_error_count(&log), MAX_ERRORS);
}

#[test]
fn empty_reports() {
    let log = ErrorLog::new();
    assert_eq!(generate_error_report(&log), "No errors recorded.");
    assert_eq!(analyze_error_patterns(&log), "No errors to analyze.");
}

#[test]
fn error_report_text() {
    let mut log = ErrorLog::new();
    record_error_at(&mut log, "network", "timeout", "slow", None, 1_000_000_000_000);
    record_error_at(&mut log, "game", "save_error", "disk", ctx(&[("file", "a.json")]), 2_000_000_000_000);
    let stamps = vec!["S2".to_string(), "S1".to_string()];
    let report = generate_error_report_with(&log, 2_000_000_000_000, &stamps);
    let expected = "Error Report (2 errors)\n=======================\n\n\
Errors by Module:\n  network: 1 errors\n  game: 1 errors\n\n\
Errors by Type:\n  timeout: 1 errors\n  save_error: 1 errors\n\n\
Recent errors (last 15 min): 1\n\n\
Most Recent Errors:\n\
\n--- Error 1 ---\n[S2] game::save_error: disk\nContext:\n  file: a.json\n\
\n--- Error 2 ---\n[S1] network::timeout: slow\n";
    assert_eq!(report, expected);
}

#[test]
fn record_display_has_local_time() {
    let rec = ErrorRecord {
        timestamp: 0,
        module: "a".to_string(),
        error_type: "b".to_string(),
        message: "c".to_string(),
        context: None,
    };
    let text = rec.to_display_string();
    assert!(text.starts_with('['));
    assert!(text.ends_with("] a::b: c"));
    assert!(text.len() > "[] a::b: c".len());
}

#[test]
fn pattern_analysis_text() {
    let mut log = ErrorLog::new();
    let s = 1_000_000_000u64;
    record_error_at(&mut log, "network", "timeout", "t1", None, 10 * s);
    record_error_at(&mut log, "game", "save_error", "g1", None, 12 * s);
    record_error_at(&mut log, "network", "timeout", "t2", None, 100 * s);
    record_error_at(&mut log, "database", "query", "d1", None, 300 * s);
    let text = analyze_error_patterns(&log);
    let expected = "Error Pattern Analysis\n=====================\n\n\
Common Error Patterns:\n  network::timeout: 2 occurrences\n  game::save_error: 1 occurrences\n  database::query: 1 occurrences\n\n\
Possible correlation between network and game modules: 1 related errors\n\
\nPotential Solutions:\n\
\x20 For network::timeout: Increase timeout values or check for network congestion.\n\
\x20 For game::save_error: Check file permissions and available disk space.\n\
\x20 For database::query: Verify database connection settings and schema integrity.\n";
    assert_eq!(text, expected);
}

#[test]
fn pattern_key_splits_at_first_separator() {
    let mut log = ErrorLog::new();
    record_error_at(&mut log, "x", "y::permission_denied", "m", None, 0);
    let text = analyze_error_patterns(&log);
    assert!(text.ends_with("  For x::y::permission_denied: Review logs for more details about this error type.\n"));
}

#[test]
fn connection_health_counts_and_bounds() {
    let mut h = ConnectionHealth::new("conn-1");
    assert!(h.is_healthy_at(0));
    h.record_send_at(1_000);
    h.record_receive_at(1_000);
    assert!(h.is_healthy_at(2_000));
    assert!(!h.is_healthy_at(62_000));
    for _ in 0..9 {
        h.record_send_at(61_000);
    }
    h.record_receive_at(61_000);
    h.record_send_failure_at("reset", 61_000);
    assert!(h.is_healthy_at(62_000));
    h.record_receive_failure_at("late", 61_000);
    assert!(!h.is_healthy_at(62_000));
    assert_eq!(h.recent_errors[0].1, "Send error: reset");
    assert_eq!(h.recent_errors[1].1, "Receive error: late");
    for i in 0..150u64 {
        h.record_send_latency(i);
    }
    assert_eq!(h.send_latencies.len(), 100);
    assert_eq!(h.send_latencies[0], 50);
    h.record_send();
    h.record_receive();
    h.record_send_failure("x");
    h.record_receive_failure("y");
    h.record_receive_latency(7);
    assert_eq!(h.receive_latencies, vec![7]);
    assert_eq!(h.send_count, 11);
    let _ = h.is_healthy();
}

#[test]
fn counters_wrap_like_atomics() {
    let mut h = ConnectionHealth::new("c");
    h.send_count = u32::MAX;
    h.record_send_at(5);
    assert_eq!(h.send_count, 0);
    assert_eq!(h.last_send, Some(5));
}

#[test]
fn timing_statistics_are_ordered() {
    let mut t = Timings::new();
    record_timing(&mut t, "tick", 7);
    record_timing(&mut t, "tick", 2);
    record_timing(&mut t, "tick", 9);
    let (lo, avg, hi) = get_timing_stats(&t, "tick").unwrap();
    assert_eq!((lo, avg, hi), (2, 6, 9));
    assert!(lo <= avg && avg <= hi);
}

#[test]
fn module_counts_add_up_to_the_total() {
    let mut log = ErrorLog::new();
    record_error_at(&mut log, "network", "timeout", "a", None, 1);
    record_error_at(&mut log, "game", "save_error", "b", None, 2);
    record_error_at(&mut log, "network", "timeout", "c", None, 3);
    record_error_at(&mut log, "ui", "glitch", "d", None, 4);
    let total: usize = ["network", "game", "ui"].iter().map(|m| get_errors_by_module(&log, m).len()).sum();
    assert_eq!(total, get_error_count(&log));
    assert_eq!(total, 4);
}

#[test]
fn timing_totals_past_u64_are_averaged() {
    let mut t = Timings::new();
    record_timing(&mut t, "long", u64::MAX);
    record_timing(&mut t, "long", u64::MAX - 2);
    assert_eq!(get_timing_stats(&t, "long"), Some((u64::MAX - 2, u64::MAX - 1, u64::MAX)));
}
