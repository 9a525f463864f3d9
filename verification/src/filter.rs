//! Filter criteria and the three filter stages: a regex pattern over message
//! and tag, an exact severity label compared ASCII case-insensitively, and an
//! inclusive timestamp range in the fixed format `YYYY-MM-DD HH:MM:SS`.
//!
//! The regex engine and the timestamp parser are outside collaborators; each
//! is reached through one trusted wrapper whose result is named by an
//! uninterpreted spec function, and everything around those names is
//! verified.

use vstd::prelude::*;

use crate::severity::Severity;
use crate::severity::label_of;
use crate::severity::severity_of;
use crate::text::seq_ci_eq;
use crate::text::str_eq_ci;

verus! {

#[verifier::external_type_specification]
#[verifier::external_body]
pub struct ExRegex(regex::Regex);

/// Whether the regex engine accepts `pattern` as a valid expression; the
/// outcome of `regex::Regex::new` depends on the pattern text alone.
pub uninterp spec fn re_valid(pattern: Seq<char>) -> bool;

/// Whether the compiled form of `pattern` matches somewhere in `text`; the
/// outcome of `regex::Regex::is_match` depends on the two texts alone.
pub uninterp spec fn re_match(pattern: Seq<char>, text: Seq<char>) -> bool;

/// A compiled pattern together with the text it was compiled from. The two
/// fields travel only as a pair: `compile_pattern` is the sole constructor,
/// so `re` is always the compiled form of `pat`.
pub(crate) struct PatternFilter {
    re: regex::Regex,
    pat: String,
}

impl PatternFilter {
    /// The pattern text this filter was compiled from.
    pub(crate) closed spec fn pat_view(&self) -> Seq<char> {
        self.pat@
    }
}

/// Relies on `regex::Regex::new`: it compiles the pattern, or rejects it by
/// its text alone; the compiled value is stored beside the text it came from.
#[verifier::external_body]
fn compile_pattern(pattern: &str) -> (r: Option<PatternFilter>)
    ensures
        r is Some <==> re_valid(pattern@),
        r matches Some(pf) ==> pf.pat_view() == pattern@,
{
    match regex::Regex::new(pattern) {
        Ok(re) => Some(PatternFilter { re, pat: pattern.to_owned() }),
        Err(_) => None,
    }
}

/// Relies on `regex::Regex::is_match`: true exactly when the pattern this
/// filter was compiled from matches somewhere in `text`.
#[verifier::external_body]
fn pattern_matches(pf: &PatternFilter, text: &str) -> (r: bool)
    ensures
        r == re_match(pf.pat_view(), text@),
{
    pf.re.is_match(text)
}

/// The timestamp `text` reads under the fixed format `YYYY-MM-DD HH:MM:SS`,
/// as seconds since the Unix epoch in UTC, or nothing when the text does not
/// parse; a function of the text alone.
pub uninterp spec fn utc_secs_of(text: Seq<char>) -> Option<int>;

/// Relies on `chrono::NaiveDateTime::parse_from_str` with the format
/// `%Y-%m-%d %H:%M:%S`, and on `DateTime::timestamp`. A parsed value has a
/// zero subsecond part, so comparing these second counts orders timestamps
/// exactly as comparing the parsed `DateTime<Utc>` values does.
#[verifier::external_body]
fn parse_timestamp(text: &str) -> (r: Option<i64>)
    ensures
        r matches Some(t) ==> utc_secs_of(text@) == Some(t as int),
        r is None ==> utc_secs_of(text@) is None,
{
    match chrono::NaiveDateTime::parse_from_str(text, "%Y-%m-%d %H:%M:%S") {
        Ok(ndt) => Some(ndt.and_utc().timestamp()),
        Err(_) => None,
    }
}

/// The ghost form of a criteria set: the pattern text, the parsed bounds and
/// the severity filter text, each absent when not to be filtered on.
pub struct CritView {
    pub pattern: Option<Seq<char>>,
    pub start: Option<int>,
    pub end: Option<int>,
    pub severity: Option<Seq<char>>,
}

/// Caller-supplied constraints, constructed once per scan and read-only
/// afterwards.
pub struct FilterCriteria {
    pattern: Option<PatternFilter>,
    start: Option<i64>,
    end: Option<i64>,
    severity: Option<String>,
}

impl View for FilterCriteria {
    type V = CritView;

    closed spec fn view(&self) -> CritView {
        CritView {
            pattern: match self.pattern {
                Some(pf) => Some(pf.pat_view()),
                None => None,
            },
            start: match self.start {
                Some(s) => Some(s as int),
                None => None,
            },
            end: match self.end {
                Some(e) => Some(e as int),
                None => None,
            },
            severity: match self.severity {
                Some(s) => Some(s@),
                None => None,
            },
        }
    }
}

impl FilterCriteria {
    /// Build the criteria from raw caller text. An invalid pattern degrades
    /// to no pattern filter; a bound that does not parse degrades to no
    /// bound; the severity text is kept as given.
    pub fn new(
        pattern: Option<&str>,
        start: Option<&str>,
        end: Option<&str>,
        severity: Option<&str>,
    ) -> (c: FilterCriteria)
        ensures
            c@.pattern == (match pattern {
                Some(p) => if re_valid(p@) {
                    Some(p@)
                } else {
                    None::<Seq<char>>
                },
                None => None::<Seq<char>>,
            }),
            c@.start == (match start {
                Some(s) => utc_secs_of(s@),
                None => None::<int>,
            }),
            c@.end == (match end {
                Some(e) => utc_secs_of(e@),
                None => None::<int>,
            }),
            c@.severity == (match severity {
                Some(s) => Some(s@),
                None => None::<Seq<char>>,
            }),
    {
        let pat = match pattern {
            Some(p) => compile_pattern(p),
            None => None,
        };
        let st = match start {
            Some(s) => parse_timestamp(s),
            None => None,
        };
        let en = match end {
            Some(e) => parse_timestamp(e),
            None => None,
        };
        let sev = match severity {
            Some(s) => Some(s.to_owned()),
            None => None,
        };
        FilterCriteria { pattern: pat, start: st, end: en, severity: sev }
    }
}

/// The pattern stage keeps the line when no pattern is set, or when the
/// pattern matches the message or the tag.
pub open spec fn pattern_pass(c: CritView, tag: Seq<char>, msg: Seq<char>) -> bool {
    match c.pattern {
        None => true,
        Some(p) => re_match(p, msg) || re_match(p, tag),
    }
}

/// The severity stage keeps the line when no label is asked for, or when the
/// line's label equals the asked-for text up to ASCII case.
pub open spec fn severity_pass(c: CritView, sev: Severity) -> bool {
    match c.severity {
        None => true,
        Some(f) => seq_ci_eq(label_of(sev), f),
    }
}

/// The range a criteria set actually applies: present only when both bounds
/// parsed.
pub open spec fn applied_range(c: CritView) -> Option<(int, int)> {
    match (c.start, c.end) {
        (Some(s), Some(e)) => Some((s, e)),
        _ => None,
    }
}

/// The range stage keeps the line when no range applies, when the line's
/// timestamp does not read in the fixed format (the stage is then
/// inapplicable), or when the timestamp lies within the bounds, both ends
/// inclusive.
pub open spec fn range_pass(c: CritView, ts: Seq<char>) -> bool {
    match applied_range(c) {
        None => true,
        Some((s, e)) => match utc_secs_of(ts) {
            Some(t) => s <= t && t <= e,
            None => true,
        },
    }
}

/// A parsed and classified line survives the whole pipeline: every
/// applicable stage passes.
pub open spec fn keeps(c: CritView, ts: Seq<char>, tag: Seq<char>, msg: Seq<char>) -> bool {
    pattern_pass(c, tag, msg) && severity_pass(c, severity_of(tag, msg)) && range_pass(c, ts)
}

/// Exec pattern stage.
pub(crate) fn check_pattern(c: &FilterCriteria, tag: &str, msg: &str) -> (r: bool)
    ensures
        r == pattern_pass(c@, tag@, msg@),
{
    match &c.pattern {
        None => true,
        Some(pf) => pattern_matches(pf, msg) || pattern_matches(pf, tag),
    }
}

/// Exec severity stage.
pub(crate) fn check_severity(c: &FilterCriteria, sev: Severity) -> (r: bool)
    ensures
        r == severity_pass(c@, sev),
{
    match &c.severity {
        None => true,
        Some(f) => {
            let lbl = sev.label();
            str_eq_ci(lbl.as_str(), f.as_str())
        },
    }
}

/// Exec range stage: the line's timestamp text is read here, per line.
pub(crate) fn check_range(c: &FilterCriteria, ts: &str) -> (r: bool)
    ensures
        r == range_pass(c@, ts@),
{
    match (&c.start, &c.end) {
        (Some(s), Some(e)) => match parse_timestamp(ts) {
            Some(t) => *s <= t && t <= *e,
            None => true,
        },
        _ => true,
    }
}

/// The whole filter pipeline on one parsed line: pattern stage, then
/// severity stage on the line's computed label, then range stage,
/// short-circuiting on the first miss.
pub fn entry_passes(c: &FilterCriteria, ts: &str, tag: &str, msg: &str) -> (r: bool)
    ensures
        r == keeps(c@, ts@, tag@, msg@),
{
    if !check_pattern(c, tag, msg) {
        return false;
    }
    let sev = crate::severity::extract_severity(tag, msg);
    if !check_severity(c, sev) {
        return false;
    }
    check_range(c, ts)
}

/// `c2` refines `c1`: every criterion `c1` applies, `c2` applies the same
/// way, and `c2` may apply more.
pub open spec fn refines(c2: CritView, c1: CritView) -> bool {
    &&& (c1.pattern is None || c2.pattern == c1.pattern)
    &&& (c1.severity is None || c2.severity == c1.severity)
    &&& (applied_range(c1) is None || applied_range(c2) == applied_range(c1))
}

/// No criterion is applied at all.
pub open spec fn no_criteria(c: CritView) -> bool {
    c.pattern is None && c.severity is None && applied_range(c) is None
}

/// Stage-by-stage monotonicity: a line that survives the refined criteria
/// survives the coarser ones too.
pub proof fn lemma_keeps_monotonic(
    c2: CritView,
    c1: CritView,
    ts: Seq<char>,
    tag: Seq<char>,
    msg: Seq<char>,
)
    requires
        refines(c2, c1),
        keeps(c2, ts, tag, msg),
    ensures
        keeps(c1, ts, tag, msg),
{
}

/// With no criteria every parsed line is kept.
pub proof fn lemma_no_criteria_keeps(c: CritView, ts: Seq<char>, tag: Seq<char>, msg: Seq<char>)
    requires
        no_criteria(c),
    ensures
        keeps(c, ts, tag, msg),
{
}

/// A timestamp exactly on a bound is kept; one second outside either bound
/// is dropped (the range is inclusive at both ends).
pub proof fn lemma_range_boundary(c: CritView, ts: Seq<char>, s: int, e: int, t: int)
    requires
        c.start == Some(s),
        c.end == Some(e),
        utc_secs_of(ts) == Some(t),
        s <= e,
    ensures
        t == s ==> range_pass(c, ts),
        t == e ==> range_pass(c, ts),
        t < s ==> !range_pass(c, ts),
        t > e ==> !range_pass(c, ts),
{
}

} // verus!
