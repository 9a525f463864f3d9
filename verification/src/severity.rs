//! Severity classification: a line's tag and message are searched, ASCII
//! case-insensitively, for the keyword families ERROR, WARN, INFO and DEBUG,
//! in that priority order; the first family with a hit names the label, and
//! INFO is the default when none hits.

use vstd::prelude::*;

use crate::text::spec_contains_ci;
use crate::text::contains_ci;

verus! {

/// The closed, ordered set of severity labels.
#[derive(Clone, Copy, Debug, PartialEq, Eq, Structural)]
pub enum Severity {
    Error,
    Warn,
    Info,
    Debug,
}

/// The text holds an ERROR-family keyword.
pub open spec fn text_error(s: Seq<char>) -> bool {
    spec_contains_ci(s, "error"@) || spec_contains_ci(s, "err"@) || spec_contains_ci(s, "failed"@)
        || spec_contains_ci(s, "failure"@)
}

/// The text holds a WARN-family keyword.
pub open spec fn text_warn(s: Seq<char>) -> bool {
    spec_contains_ci(s, "warn"@) || spec_contains_ci(s, "warning"@)
}

/// The text holds an INFO-family keyword.
pub open spec fn text_info(s: Seq<char>) -> bool {
    spec_contains_ci(s, "info"@) || spec_contains_ci(s, "information"@)
}

/// The text holds a DEBUG-family keyword.
pub open spec fn text_debug(s: Seq<char>) -> bool {
    spec_contains_ci(s, "debug"@) || spec_contains_ci(s, "trace"@)
}

/// The ERROR family hits the line: its message or its tag holds a keyword.
pub open spec fn family_error(tag: Seq<char>, msg: Seq<char>) -> bool {
    text_error(msg) || text_error(tag)
}

/// The WARN family hits the line.
pub open spec fn family_warn(tag: Seq<char>, msg: Seq<char>) -> bool {
    text_warn(msg) || text_warn(tag)
}

/// The INFO family hits the line.
pub open spec fn family_info(tag: Seq<char>, msg: Seq<char>) -> bool {
    text_info(msg) || text_info(tag)
}

/// The DEBUG family hits the line.
pub open spec fn family_debug(tag: Seq<char>, msg: Seq<char>) -> bool {
    text_debug(msg) || text_debug(tag)
}

/// The label of a line: the first family, in priority order
/// ERROR, WARN, INFO, DEBUG, whose keywords occur in the message or the tag;
/// INFO when none does. Total and deterministic: it is a function of the two
/// texts alone.
pub open spec fn severity_of(tag: Seq<char>, msg: Seq<char>) -> Severity {
    if family_error(tag, msg) {
        Severity::Error
    } else if family_warn(tag, msg) {
        Severity::Warn
    } else if family_info(tag, msg) {
        Severity::Info
    } else if family_debug(tag, msg) {
        Severity::Debug
    } else {
        Severity::Info
    }
}

/// The text of a label, as it appears in results and severity filters.
pub open spec fn label_of(s: Severity) -> Seq<char> {
    match s {
        Severity::Error => "ERROR"@,
        Severity::Warn => "WARN"@,
        Severity::Info => "INFO"@,
        Severity::Debug => "DEBUG"@,
    }
}

impl Severity {
    /// The label's text.
    pub fn label(&self) -> (r: String)
        ensures
            r@ == label_of(*self),
    {
        match self {
            Severity::Error => "ERROR".to_owned(),
            Severity::Warn => "WARN".to_owned(),
            Severity::Info => "INFO".to_owned(),
            Severity::Debug => "DEBUG".to_owned(),
        }
    }
}

/// Classify a line from its tag and message.
pub fn extract_severity(service: &str, message: &str) -> (r: Severity)
    ensures
        r == severity_of(service@, message@),
{
    if contains_ci(message, "error") || contains_ci(message, "err") || contains_ci(
        message,
        "failed",
    ) || contains_ci(message, "failure") || contains_ci(service, "error") || contains_ci(
        service,
        "err",
    ) || contains_ci(service, "failed") || contains_ci(service, "failure") {
        Severity::Error
    } else if contains_ci(message, "warn") || contains_ci(message, "warning") || contains_ci(
        service,
        "warn",
    ) || contains_ci(service, "warning") {
        Severity::Warn
    } else if contains_ci(message, "info") || contains_ci(message, "information") || contains_ci(
        service,
        "info",
    ) || contains_ci(service, "information") {
        Severity::Info
    } else if contains_ci(message, "debug") || contains_ci(message, "trace") || contains_ci(
        service,
        "debug",
    ) || contains_ci(service, "trace") {
        Severity::Debug
    } else {
        Severity::Info
    }
}

/// Classification is total (defined for every tag and message) and follows
/// the priority order ERROR over WARN over INFO over DEBUG whenever several
/// families hit; INFO is the default when none hits.
pub proof fn lemma_severity_priority(tag: Seq<char>, msg: Seq<char>)
    ensures
        family_error(tag, msg) ==> severity_of(tag, msg) == Severity::Error,
        !family_error(tag, msg) && family_warn(tag, msg) ==> severity_of(tag, msg)
            == Severity::Warn,
        !family_error(tag, msg) && !family_warn(tag, msg) && family_info(tag, msg) ==> severity_of(
            tag,
            msg,
        ) == Severity::Info,
        !family_error(tag, msg) && !family_warn(tag, msg) && !family_info(tag, msg)
            && family_debug(tag, msg) ==> severity_of(tag, msg) == Severity::Debug,
        !family_error(tag, msg) && !family_warn(tag, msg) && !family_info(tag, msg)
            && !family_debug(tag, msg) ==> severity_of(tag, msg) == Severity::Info,
{
}

} // verus!
