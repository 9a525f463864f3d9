use log_scan::FilterCriteria;
use log_scan::Severity;
use log_scan::scan_content;
use log_scan::filter::entry_passes;

fn no_filters() -> FilterCriteria {
    FilterCriteria::new(None, None, None, None)
}

#[test]
fn round_trip_no_filters() {
    let content = "\
p1 2024-01-15 h sshd: Failed password\n\
2024-01-15T10:00:00 h nginx[ERROR] connection refused\n\
p1 2024-01-16 h cron: job started\n";
    let r = scan_content(content, &no_filters());
    assert_eq!(r.count(), 3);
    assert_eq!(r.entries[0].timestamp, "2024-01-15");
    assert_eq!(r.entries[0].severity, Severity::Error);
    assert_eq!(r.entries[0].message, "Failed password");
    assert_eq!(r.entries[1].timestamp, "2024-01-15T10:00:00");
    assert_eq!(r.entries[1].severity, Severity::Error);
    assert_eq!(r.entries[1].message, "connection refused");
    assert_eq!(r.entries[2].timestamp, "2024-01-16");
    assert_eq!(r.entries[2].severity, Severity::Info);
    assert_eq!(r.entries[2].message, "job started");
}

#[test]
fn malformed_lines_never_abort() {
    let content = "\
p1 2024-01-15 h sshd: Failed password\n\
total garbage\n\
p1 2024-01-15 h app: all info good\n\
2024-01-15T10:00:00 h nginx[WARN] slow response\n";
    let r = scan_content(content, &no_filters());
    assert_eq!(r.count(), 3);
    assert_eq!(r.entries[0].message, "Failed password");
    assert_eq!(r.entries[1].message, "all info good");
    assert_eq!(r.entries[2].message, "slow response");
}

#[test]
fn blank_lines_skipped() {
    let content = "\n   \n\tp1 d h svc: warn here\n\n";
    let r = scan_content(content, &no_filters());
    // The only non-blank line starts with a tab; its first token is empty
    // and it still parses.
    assert_eq!(r.count(), 1);
    assert_eq!(r.entries[0].severity, Severity::Warn);
}

#[test]
fn crlf_terminators_stripped() {
    let content = "p1 d h a: one\r\np1 d h b: two\r\n";
    let r = scan_content(content, &no_filters());
    assert_eq!(r.count(), 2);
    assert_eq!(r.entries[0].message, "one");
    assert_eq!(r.entries[1].message, "two");
}

#[test]
fn pattern_filter_keeps_matches_only() {
    let content = "\
p1 d h sshd: Failed password\n\
p1 d h cron: job started\n";
    let crit = FilterCriteria::new(Some("Failed"), None, None, None);
    let r = scan_content(content, &crit);
    assert_eq!(r.count(), 1);
    assert_eq!(r.entries[0].message, "Failed password");
}

#[test]
fn pattern_filter_sees_tag_too() {
    let content = "\
p1 d h sshd: something happened\n\
p1 d h cron: job started\n";
    let crit = FilterCriteria::new(Some("sshd"), None, None, None);
    let r = scan_content(content, &crit);
    assert_eq!(r.count(), 1);
    assert_eq!(r.entries[0].message, "something happened");
}

#[test]
fn pattern_filter_regex_syntax() {
    let content = "\
p1 d h a: saw 41 items\n\
p1 d h b: saw 42 items\n";
    let crit = FilterCriteria::new(Some(r"saw 4[2-9]"), None, None, None);
    let r = scan_content(content, &crit);
    assert_eq!(r.count(), 1);
    assert_eq!(r.entries[0].message, "saw 42 items");
}

#[test]
fn pattern_filter_no_match_drops_all() {
    let content = "p1 d h a: one\np1 d h b: two\n";
    let crit = FilterCriteria::new(Some("zzz"), None, None, None);
    let r = scan_content(content, &crit);
    assert_eq!(r.count(), 0);
}

#[test]
fn invalid_pattern_degrades_to_no_filter() {
    let content = "p1 d h a: one\np1 d h b: two\n";
    let crit = FilterCriteria::new(Some("("), None, None, None);
    let r = scan_content(content, &crit);
    assert_eq!(r.count(), 2);
}

#[test]
fn severity_filter_case_insensitive() {
    let content = "\
p1 d h sshd: Failed password\n\
p1 d h cron: job started\n\
p1 d h app: a warning\n";
    let crit = FilterCriteria::new(None, None, None, Some("error"));
    let r = scan_content(content, &crit);
    assert_eq!(r.count(), 1);
    assert_eq!(r.entries[0].severity, Severity::Error);

    let crit2 = FilterCriteria::new(None, None, None, Some("WaRn"));
    let r2 = scan_content(content, &crit2);
    assert_eq!(r2.count(), 1);
    assert_eq!(r2.entries[0].message, "a warning");
}

#[test]
fn severity_filter_unknown_label_drops_all() {
    let content = "p1 d h a: one\n";
    let crit = FilterCriteria::new(None, None, None, Some("bogus"));
    let r = scan_content(content, &crit);
    assert_eq!(r.count(), 0);
}

#[test]
fn range_boundary_inclusive() {
    let crit = FilterCriteria::new(
        None,
        Some("2024-01-15 10:00:00"),
        Some("2024-01-15 11:00:00"),
        None,
    );
    // Exactly on the start bound: kept.
    assert!(entry_passes(&crit, "2024-01-15 10:00:00", "svc", "msg"));
    // Exactly on the end bound: kept.
    assert!(entry_passes(&crit, "2024-01-15 11:00:00", "svc", "msg"));
    // One second before the start: dropped.
    assert!(!entry_passes(&crit, "2024-01-15 09:59:59", "svc", "msg"));
    // One second after the end: dropped.
    assert!(!entry_passes(&crit, "2024-01-15 11:00:01", "svc", "msg"));
}

#[test]
fn range_skipped_for_unparseable_timestamp() {
    let crit = FilterCriteria::new(
        None,
        Some("2024-01-15 10:00:00"),
        Some("2024-01-15 11:00:00"),
        None,
    );
    // A timestamp that does not read in the fixed format leaves the range
    // stage inapplicable: the line is kept.
    assert!(entry_passes(&crit, "2024-01-15T09:00:00", "svc", "msg"));
}

#[test]
fn range_needs_both_bounds() {
    let crit = FilterCriteria::new(None, Some("2024-01-15 10:00:00"), None, None);
    // Only one bound parsed: no range is applied.
    assert!(entry_passes(&crit, "2024-01-15 09:00:00", "svc", "msg"));
}

#[test]
fn filtering_is_monotonic_on_this_file() {
    let content = "\
p1 d h sshd: Failed password\n\
p1 d h cron: job started\n\
2024-01-15T10:00:00 h nginx[WARN] slow response\n";
    let coarse = scan_content(content, &no_filters());
    let fine = scan_content(
        content,
        &FilterCriteria::new(Some("s"), None, None, Some("info")),
    );
    assert!(fine.count() <= coarse.count());
    // Every surviving entry also appears, in order, in the coarser result.
    let mut pos = 0usize;
    for e in fine.entries.iter() {
        while pos < coarse.entries.len()
            && (coarse.entries[pos].timestamp != e.timestamp
                || coarse.entries[pos].message != e.message)
        {
            pos += 1;
        }
        assert!(pos < coarse.entries.len());
        pos += 1;
    }
}

#[test]
fn example_lines_through_whole_scan() {
    let content = "\
<34>2024-01-15 10:00:00 myhost sshd: Failed password for root\n\
2024-01-15T10:00:00 myhost nginx[ERROR] connection refused\n";
    let r = scan_content(content, &no_filters());
    assert_eq!(r.count(), 2);
    assert_eq!(r.entries[0].timestamp, "10:00:00");
    assert_eq!(r.entries[0].severity, Severity::Error);
    assert_eq!(r.entries[0].message, "Failed password for root");
    assert_eq!(r.entries[1].timestamp, "2024-01-15T10:00:00");
    assert_eq!(r.entries[1].severity, Severity::Error);
    assert_eq!(r.entries[1].message, "connection refused");
}

#[test]
fn empty_content_empty_result() {
    let r = scan_content("", &no_filters());
    assert_eq!(r.count(), 0);
}
