use log_scan::parse_syslog_line;
use log_scan::parse_journalctl_line;
use log_scan::extract_severity;
use log_scan::contains_ci;
use log_scan::Severity;

#[test]
fn syslog_plain_line() {
    let r = parse_syslog_line("p1 2024-01-15 myhost sshd: hello world");
    assert_eq!(
        r,
        Some((
            "2024-01-15".to_string(),
            "sshd".to_string(),
            "hello world".to_string()
        ))
    );
}

#[test]
fn syslog_message_keeps_internal_colons() {
    let r = parse_syslog_line("p1 2024-01-15 myhost cron: job done: 3 tasks");
    assert_eq!(
        r,
        Some((
            "2024-01-15".to_string(),
            "cron".to_string(),
            "job done: 3 tasks".to_string()
        ))
    );
}

#[test]
fn syslog_priority_glued_to_date() {
    // The leading token runs to the first space, so a priority glued to the
    // date is discarded with it and the next token becomes the date field.
    let r = parse_syslog_line("<34>2024-01-15 10:00:00 myhost sshd: Failed password for root");
    assert_eq!(
        r,
        Some((
            "10:00:00".to_string(),
            "sshd".to_string(),
            "Failed password for root".to_string()
        ))
    );
}

#[test]
fn syslog_missing_colon_fails() {
    assert_eq!(parse_syslog_line("not a log line"), None);
}

#[test]
fn syslog_empty_message() {
    let r = parse_syslog_line("p d h svc:");
    assert_eq!(
        r,
        Some(("d".to_string(), "svc".to_string(), "".to_string()))
    );
}

#[test]
fn syslog_whitespace_after_colon_swallowed() {
    let r = parse_syslog_line("p d h svc:   spaced out");
    assert_eq!(
        r,
        Some((
            "d".to_string(),
            "svc".to_string(),
            "spaced out".to_string()
        ))
    );
}

#[test]
fn journalctl_plain_line() {
    let r = parse_journalctl_line("2024-01-15T10:00:00 myhost nginx[ERROR] connection refused");
    assert_eq!(
        r,
        Some((
            "2024-01-15T10:00:00".to_string(),
            "ERROR".to_string(),
            "connection refused".to_string()
        ))
    );
}

#[test]
fn journalctl_service_may_hold_spaces() {
    let r = parse_journalctl_line("ts host my svc[tag] msg");
    assert_eq!(
        r,
        Some(("ts".to_string(), "tag".to_string(), "msg".to_string()))
    );
}

#[test]
fn journalctl_missing_bracket_fails() {
    assert_eq!(parse_journalctl_line("2024-01-15 myhost nginx error"), None);
}

#[test]
fn severity_error_from_message() {
    assert_eq!(extract_severity("sshd", "Failed password"), Severity::Error);
}

#[test]
fn severity_error_from_tag() {
    assert_eq!(extract_severity("ERROR", "connection refused"), Severity::Error);
}

#[test]
fn severity_priority_error_over_warn() {
    assert_eq!(
        extract_severity("x", "warning: an error occurred"),
        Severity::Error
    );
}

#[test]
fn severity_warn() {
    assert_eq!(extract_severity("x", "a Warning appeared"), Severity::Warn);
}

#[test]
fn severity_info_keyword() {
    assert_eq!(extract_severity("x", "some Information here"), Severity::Info);
}

#[test]
fn severity_debug() {
    assert_eq!(extract_severity("x", "trace output"), Severity::Debug);
}

#[test]
fn severity_debug_from_tag() {
    assert_eq!(extract_severity("DEBUG", "x"), Severity::Debug);
}

#[test]
fn severity_default_info() {
    assert_eq!(extract_severity("x", "hello"), Severity::Info);
}

#[test]
fn severity_err_substring_hides_in_words() {
    // "Interrupted" holds "err" as a substring, so the ERROR family hits.
    assert_eq!(extract_severity("x", "Interrupted"), Severity::Error);
}

#[test]
fn severity_labels() {
    assert_eq!(Severity::Error.label(), "ERROR");
    assert_eq!(Severity::Warn.label(), "WARN");
    assert_eq!(Severity::Info.label(), "INFO");
    assert_eq!(Severity::Debug.label(), "DEBUG");
}

#[test]
fn contains_ci_cases() {
    assert!(contains_ci("It WORKS fine", "works"));
    assert!(contains_ci("failure", "FAIL"));
    assert!(!contains_ci("fine", "works"));
    assert!(contains_ci("anything", ""));
}
