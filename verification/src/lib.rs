//! Verified log scanning: parse syslog- and journalctl-style lines, classify
//! their severity from the text, and filter them by pattern, severity and
//! inclusive timestamp range.

pub mod filter;
pub mod parse;
pub mod scan;
pub mod severity;
pub mod text;

pub use filter::FilterCriteria;
pub use parse::parse_journalctl_line;
pub use parse::parse_syslog_line;
pub use scan::LogEntry;
pub use scan::LogResult;
pub use scan::scan_content;
pub use severity::Severity;
pub use severity::extract_severity;
pub use text::contains_ci;
