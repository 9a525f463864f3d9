//! The scan: split the buffer into lines, skip blank lines, try the syslog
//! strategy then the journalctl strategy on each, classify the survivors and
//! run them through the filter stages, collecting kept entries in original
//! line order. A line that parses under neither format is skipped, never an
//! error.

use vstd::prelude::*;

use crate::filter::CritView;
use crate::filter::FilterCriteria;
use crate::filter::keeps;
use crate::filter::refines;
use crate::filter::no_criteria;
use crate::filter::lemma_keeps_monotonic;
use crate::filter::lemma_no_criteria_keeps;
use crate::filter::check_pattern;
use crate::filter::check_severity;
use crate::filter::check_range;
use crate::parse::parse_syslog;
use crate::parse::parse_journalctl;
use crate::parse::parse_syslog_line;
use crate::parse::parse_journalctl_line;
use crate::severity::Severity;
use crate::severity::severity_of;
use crate::severity::extract_severity;
use crate::text::spec_blank;
use crate::text::spec_lines;
use crate::text::is_blank;
use crate::text::split_lines;

verus! {

/// One surviving line: its timestamp text, its label, its message text.
pub struct LogEntry {
    pub timestamp: String,
    pub severity: Severity,
    pub message: String,
}

/// The ghost form of an entry.
pub struct EntryView {
    pub timestamp: Seq<char>,
    pub severity: Severity,
    pub message: Seq<char>,
}

impl View for LogEntry {
    type V = EntryView;

    open spec fn view(&self) -> EntryView {
        EntryView { timestamp: self.timestamp@, severity: self.severity, message: self.message@ }
    }
}

/// The ordered result of one scan, in original file line order.
pub struct LogResult {
    pub entries: Vec<LogEntry>,
}

impl LogResult {
    /// How many entries survived.
    pub fn count(&self) -> (n: usize)
        ensures
            n == self.entries@.len(),
    {
        self.entries.len()
    }
}

/// One line's fields: the syslog strategy first, the journalctl strategy as
/// the fallback.
pub open spec fn parse_line(l: Seq<char>) -> Option<(Seq<char>, Seq<char>, Seq<char>)> {
    match parse_syslog(l) {
        Some(t) => Some(t),
        None => parse_journalctl(l),
    }
}

/// What one line contributes to the result: nothing when it is blank, fails
/// both formats, or fails a filter stage; its entry otherwise.
pub open spec fn line_entry(l: Seq<char>, c: CritView) -> Option<EntryView> {
    if spec_blank(l) {
        None
    } else {
        match parse_line(l) {
            None => None,
            Some((ts, tag, msg)) => if keeps(c, ts, tag, msg) {
                Some(EntryView { timestamp: ts, severity: severity_of(tag, msg), message: msg })
            } else {
                None
            },
        }
    }
}

/// The entries the lines `ls` yield under criteria `c`, in order.
pub open spec fn scan_lines(ls: Seq<Seq<char>>, c: CritView) -> Seq<EntryView>
    decreases ls.len(),
{
    if ls.len() == 0 {
        Seq::empty()
    } else {
        let rest = scan_lines(ls.drop_last(), c);
        match line_entry(ls.last(), c) {
            Some(e) => rest.push(e),
            None => rest,
        }
    }
}

/// The whole scan of a buffer, as a value of its text and the criteria.
pub open spec fn scan_spec(content: Seq<char>, c: CritView) -> Seq<EntryView> {
    scan_lines(spec_lines(content), c)
}

/// Scan a whole buffer under the given criteria.
pub fn scan_content(content: &str, crit: &FilterCriteria) -> (r: LogResult)
    ensures
        r.entries@.map_values(|e: LogEntry| e@) == scan_spec(content@, crit@),
{
    let lines = split_lines(content);
    let ghost lv: Seq<Seq<char>> = lines@.map_values(|l: String| l@);
    let n = lines.len();
    let mut entries: Vec<LogEntry> = Vec::new();
    let mut i: usize = 0;
    proof {
        assert(lv.take(0) =~= Seq::<Seq<char>>::empty());
    }
    while i < n
        invariant
            i <= n,
            n == lines@.len(),
            lv == lines@.map_values(|l: String| l@),
            lv == spec_lines(content@),
            entries@.map_values(|e: LogEntry| e@) == scan_lines(lv.take(i as int), crit@),
        decreases n - i,
    {
        let line: &String = &lines[i];
        proof {
            assert(lv[i as int] == line@);
        }
        if !is_blank(line.as_str()) {
            let first = parse_syslog_line(line.as_str());
            let parsed = match first {
                Some(t) => Some(t),
                None => parse_journalctl_line(line.as_str()),
            };
            match parsed {
                None => {},
                Some((ts, tag, msg)) => {
                    if check_pattern(crit, tag.as_str(), msg.as_str()) {
                        let sev = extract_severity(tag.as_str(), msg.as_str());
                        if check_severity(crit, sev) {
                            if check_range(crit, ts.as_str()) {
                                let entry = LogEntry { timestamp: ts, severity: sev, message: msg };
                                proof {
                                    assert(line_entry(lv[i as int], crit@) == Some(entry@));
                                    assert((entries@.push(entry)).map_values(|e: LogEntry| e@)
                                        =~= entries@.map_values(|e: LogEntry| e@).push(entry@));
                                }
                                entries.push(entry);
                            }
                        }
                    }
                },
            }
        }
        proof {
            assert(lv.take(i + 1).drop_last() =~= lv.take(i as int));
            assert(lv.take(i + 1).last() == lv[i as int]);
        }
        i = i + 1;
    }
    proof {
        assert(lv.take(n as int) =~= lv);
    }
    LogResult { entries }
}

/// `a` is `b` with zero or more elements removed, order kept.
pub open spec fn is_subseq_of<T>(a: Seq<T>, b: Seq<T>) -> bool
    decreases b.len(),
{
    if a.len() == 0 {
        true
    } else if b.len() == 0 {
        false
    } else if a.last() == b.last() {
        is_subseq_of(a.drop_last(), b.drop_last())
    } else {
        is_subseq_of(a, b.drop_last())
    }
}

proof fn lemma_subseq_drop_left<T>(a: Seq<T>, b: Seq<T>)
    requires
        is_subseq_of(a, b),
        a.len() > 0,
    ensures
        is_subseq_of(a.drop_last(), b),
    decreases b.len(),
{
    if a.last() == b.last() {
        if a.drop_last().len() > 0 {
            if a.drop_last().last() == b.last() {
                lemma_subseq_drop_left(a.drop_last(), b.drop_last());
            }
        }
    } else {
        lemma_subseq_drop_left(a, b.drop_last());
        if a.drop_last().len() > 0 && a.drop_last().last() == b.last() {
            lemma_subseq_drop_left(a.drop_last(), b.drop_last());
        }
    }
}

proof fn lemma_subseq_extend<T>(a: Seq<T>, b: Seq<T>, x: T)
    requires
        is_subseq_of(a, b),
    ensures
        is_subseq_of(a, b.push(x)),
{
    assert(b.push(x).drop_last() =~= b);
    assert(b.push(x).last() == x);
    if a.len() > 0 && a.last() == x {
        lemma_subseq_drop_left(a, b);
    }
}

proof fn lemma_subseq_push_both<T>(a: Seq<T>, b: Seq<T>, x: T)
    requires
        is_subseq_of(a, b),
    ensures
        is_subseq_of(a.push(x), b.push(x)),
{
    assert(a.push(x).drop_last() =~= a);
    assert(b.push(x).drop_last() =~= b);
    assert(a.push(x).last() == b.push(x).last());
}

/// Adding criteria can only shrink or preserve the result: the scan under
/// refined criteria yields a subsequence, in order, of the scan under the
/// coarser criteria.
pub proof fn lemma_filter_monotonic(ls: Seq<Seq<char>>, c1: CritView, c2: CritView)
    requires
        refines(c2, c1),
    ensures
        is_subseq_of(scan_lines(ls, c2), scan_lines(ls, c1)),
    decreases ls.len(),
{
    if ls.len() == 0 {
        assert(is_subseq_of(scan_lines(ls, c2), scan_lines(ls, c1)));
    } else {
        lemma_filter_monotonic(ls.drop_last(), c1, c2);
        let l = ls.last();
        let r1 = scan_lines(ls.drop_last(), c1);
        let r2 = scan_lines(ls.drop_last(), c2);
        match line_entry(l, c2) {
            Some(e) => {
                if !spec_blank(l) {
                    match parse_line(l) {
                        Some((ts, tag, msg)) => {
                            lemma_keeps_monotonic(c2, c1, ts, tag, msg);
                        },
                        None => {},
                    }
                }
                assert(line_entry(l, c1) == Some(e));
                lemma_subseq_push_both(r2, r1, e);
            },
            None => {
                match line_entry(l, c1) {
                    Some(e1) => {
                        lemma_subseq_extend(r2, r1, e1);
                    },
                    None => {},
                }
            },
        }
    }
}

/// Round trip: with no criteria, a file of non-blank, well-formed lines
/// yields exactly one entry per line, in original order.
pub proof fn lemma_round_trip(ls: Seq<Seq<char>>, c: CritView)
    requires
        no_criteria(c),
        forall|i: int|
            0 <= i < ls.len() ==> !spec_blank(#[trigger] ls[i]) && parse_line(ls[i]) is Some,
    ensures
        scan_lines(ls, c).len() == ls.len(),
        forall|i: int|
            0 <= i < ls.len() ==> Some(#[trigger] scan_lines(ls, c)[i]) == line_entry(ls[i], c),
    decreases ls.len(),
{
    if ls.len() > 0 {
        assert forall|i: int| 0 <= i < ls.drop_last().len() implies !spec_blank(
            #[trigger] ls.drop_last()[i],
        ) && parse_line(ls.drop_last()[i]) is Some by {
            assert(ls.drop_last()[i] == ls[i]);
        }
        lemma_round_trip(ls.drop_last(), c);
        let l = ls.last();
        assert(!spec_blank(l) && parse_line(l) is Some);
        match parse_line(l) {
            Some((ts, tag, msg)) => {
                lemma_no_criteria_keeps(c, ts, tag, msg);
            },
            None => {},
        }
        assert(line_entry(l, c) is Some);
        assert forall|i: int| 0 <= i < ls.len() implies Some(#[trigger] scan_lines(ls, c)[i])
            == line_entry(ls[i], c) by {
            if i < ls.len() - 1 {
                assert(scan_lines(ls, c)[i] == scan_lines(ls.drop_last(), c)[i]);
                assert(ls.drop_last()[i] == ls[i]);
            } else {
                assert(ls[i] == l);
            }
        }
    }
}

/// A blank or malformed line never aborts the scan and contributes nothing:
/// appending it leaves the result unchanged.
pub proof fn lemma_malformed_line_skipped(ls: Seq<Seq<char>>, l: Seq<char>, c: CritView)
    requires
        spec_blank(l) || parse_line(l) is None,
    ensures
        scan_lines(ls.push(l), c) == scan_lines(ls, c),
{
    assert(ls.push(l).drop_last() =~= ls);
    assert(ls.push(l).last() == l);
}

} // verus!
