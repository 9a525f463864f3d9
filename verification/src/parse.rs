//! The two line formats and their field extraction.
//!
//! A syslog-style line reads `<discarded> <date> <host> <service>: <message>`:
//! everything up to the first space is discarded, the date and the host are
//! the next two space-delimited tokens (the host is discarded from the
//! output), the service runs up to the first colon, and the message is the
//! rest of the line after the colon and any following whitespace.
//!
//! A journalctl-style line reads `<timestamp> <host> <service>[<tag>]
//! <message>`: the timestamp and the host are space-delimited tokens (the
//! host is discarded), the service runs up to `[`, the tag up to `]`, and the
//! message is the rest after `]` and any following whitespace. The tag takes
//! the service's place in the output.
//!
//! Each token search fails when its delimiter is absent, and then the whole
//! line fails to parse; a space delimiter swallows the entire run of spaces
//! and tabs that follows it.

use vstd::prelude::*;

use crate::text::is_sp;
use crate::text::is_ms;
use crate::text::first_at;
use crate::text::skip_sp;
use crate::text::skip_ms;
use crate::text::find_char;
use crate::text::skip_spaces;
use crate::text::skip_multispace;
use crate::text::lemma_first_at_found;
use crate::text::lemma_skip_sp_exact;
use crate::text::lemma_skip_ms_exact;

verus! {

/// The fields a parse yields: timestamp text, tag text, message text.
pub open spec fn parse_syslog(s: Seq<char>) -> Option<(Seq<char>, Seq<char>, Seq<char>)> {
    let n = s.len() as int;
    let p0 = first_at(s, ' ', 0);
    if p0 == n {
        None
    } else {
        let i1 = skip_sp(s, p0);
        let p1 = first_at(s, ' ', i1);
        if p1 == n {
            None
        } else {
            let i2 = skip_sp(s, p1);
            let p2 = first_at(s, ' ', i2);
            if p2 == n {
                None
            } else {
                let i3 = skip_sp(s, p2);
                let p3 = first_at(s, ':', i3);
                if p3 == n {
                    None
                } else {
                    let i4 = skip_ms(s, p3 + 1);
                    Some((s.subrange(i1, p1), s.subrange(i3, p3), s.subrange(i4, n)))
                }
            }
        }
    }
}

/// The journalctl strategy's fields: timestamp, bracketed tag, message.
pub open spec fn parse_journalctl(s: Seq<char>) -> Option<(Seq<char>, Seq<char>, Seq<char>)> {
    let n = s.len() as int;
    let p0 = first_at(s, ' ', 0);
    if p0 == n {
        None
    } else {
        let i1 = skip_sp(s, p0);
        let p1 = first_at(s, ' ', i1);
        if p1 == n {
            None
        } else {
            let i2 = skip_sp(s, p1);
            let p2 = first_at(s, '[', i2);
            if p2 == n {
                None
            } else {
                let p3 = first_at(s, ']', p2 + 1);
                if p3 == n {
                    None
                } else {
                    let i4 = skip_ms(s, p3 + 1);
                    Some((s.subrange(0, p0), s.subrange(p2 + 1, p3), s.subrange(i4, n)))
                }
            }
        }
    }
}

/// Try the syslog strategy on one line; `None` when a delimiter is missing.
pub fn parse_syslog_line(line: &str) -> (r: Option<(String, String, String)>)
    ensures
        match r {
            Some(t) => parse_syslog(line@) == Some((t.0@, t.1@, t.2@)),
            None => parse_syslog(line@) is None,
        },
{
    let n = line.unicode_len();
    let p0 = find_char(line, 0, ' ');
    if p0 == n {
        return None;
    }
    let i1 = skip_spaces(line, p0);
    let p1 = find_char(line, i1, ' ');
    if p1 == n {
        return None;
    }
    let i2 = skip_spaces(line, p1);
    let p2 = find_char(line, i2, ' ');
    if p2 == n {
        return None;
    }
    let i3 = skip_spaces(line, p2);
    let p3 = find_char(line, i3, ':');
    if p3 == n {
        return None;
    }
    let i4 = skip_multispace(line, p3 + 1);
    let date = line.substring_char(i1, p1).to_owned();
    let svc = line.substring_char(i3, p3).to_owned();
    let msg = line.substring_char(i4, n).to_owned();
    Some((date, svc, msg))
}

/// Try the journalctl strategy on one line; `None` when a delimiter is
/// missing.
pub fn parse_journalctl_line(line: &str) -> (r: Option<(String, String, String)>)
    ensures
        match r {
            Some(t) => parse_journalctl(line@) == Some((t.0@, t.1@, t.2@)),
            None => parse_journalctl(line@) is None,
        },
{
    let n = line.unicode_len();
    let p0 = find_char(line, 0, ' ');
    if p0 == n {
        return None;
    }
    let i1 = skip_spaces(line, p0);
    let p1 = find_char(line, i1, ' ');
    if p1 == n {
        return None;
    }
    let i2 = skip_spaces(line, p1);
    let p2 = find_char(line, i2, '[');
    if p2 == n {
        return None;
    }
    let p3 = find_char(line, p2 + 1, ']');
    if p3 == n {
        return None;
    }
    let i4 = skip_multispace(line, p3 + 1);
    let ts = line.substring_char(0, p0).to_owned();
    let tag = line.substring_char(p2 + 1, p3).to_owned();
    let msg = line.substring_char(i4, n).to_owned();
    Some((ts, tag, msg))
}

/// Every well-formed syslog line `pri date host svc: msg` parses to exactly
/// `(date, svc, msg)`; the message keeps any internal colons. Well-formed
/// means: the leading token and the date and host tokens hold no space, the
/// date and host are non-empty and none of date, host, service begins with
/// space or tab, the service holds no colon, and the message does not begin
/// with whitespace (a leading run would be swallowed by the separator).
pub proof fn lemma_parse_syslog_exact(
    pri: Seq<char>,
    date: Seq<char>,
    host: Seq<char>,
    svc: Seq<char>,
    msg: Seq<char>,
)
    requires
        !pri.contains(' '),
        date.len() > 0,
        !date.contains(' '),
        !is_sp(date[0]),
        host.len() > 0,
        !host.contains(' '),
        !is_sp(host[0]),
        !svc.contains(':'),
        svc.len() > 0 ==> !is_sp(svc[0]),
        msg.len() > 0 ==> !is_ms(msg[0]),
    ensures
        parse_syslog(
            pri + seq![' '] + date + seq![' '] + host + seq![' '] + svc + seq![':', ' '] + msg,
        ) == Some((date, svc, msg)),
{
    let s = pri + seq![' '] + date + seq![' '] + host + seq![' '] + svc + seq![':', ' '] + msg;
    let n = s.len() as int;
    let a = pri.len() as int;
    let b = a + 1 + date.len() as int;
    let c0 = b + 1 + host.len() as int;
    let d = c0 + 1 + svc.len() as int;
    assert(n == d + 2 + msg.len());
    assert forall|j: int| 0 <= j < a implies s[j] == pri[j] by {}
    assert(s[a] == ' ');
    assert forall|j: int| 0 <= j < date.len() implies s[a + 1 + j] == date[j] by {}
    assert(s[b] == ' ');
    assert forall|j: int| 0 <= j < host.len() implies s[b + 1 + j] == host[j] by {}
    assert(s[c0] == ' ');
    assert forall|j: int| 0 <= j < svc.len() implies s[c0 + 1 + j] == svc[j] by {}
    assert(s[d] == ':');
    assert(s[d + 1] == ' ');
    assert forall|j: int| 0 <= j < msg.len() implies s[d + 2 + j] == msg[j] by {}
    assert forall|j: int| 0 <= j < a implies s[j] != ' ' by {
        assert(s[j] == pri[j]);
        assert(!pri.contains(' '));
    }
    lemma_first_at_found(s, ' ', 0, a);
    lemma_skip_sp_exact(s, a, a + 1);
    assert forall|j: int| a + 1 <= j < b implies s[j] != ' ' by {
        assert(s[j] == date[j - (a + 1)]);
    }
    lemma_first_at_found(s, ' ', a + 1, b);
    lemma_skip_sp_exact(s, b, b + 1);
    assert forall|j: int| b + 1 <= j < c0 implies s[j] != ' ' by {
        assert(s[j] == host[j - (b + 1)]);
    }
    lemma_first_at_found(s, ' ', b + 1, c0);
    lemma_skip_sp_exact(s, c0, c0 + 1);
    assert forall|j: int| c0 + 1 <= j < d implies s[j] != ':' by {
        assert(s[j] == svc[j - (c0 + 1)]);
    }
    lemma_first_at_found(s, ':', c0 + 1, d);
    lemma_skip_ms_exact(s, d + 1, d + 2);
    assert(s.subrange(a + 1, b) =~= date);
    assert(s.subrange(c0 + 1, d) =~= svc);
    assert(s.subrange(d + 2, n) =~= msg);
}

/// Every well-formed journalctl line `ts host svc[tag] msg` parses to
/// exactly `(ts, tag, msg)`. Well-formed means: the timestamp and host
/// tokens hold no space, the host is non-empty and neither the host nor the
/// service begins with space or tab, the service holds no `[`, the tag holds
/// no `]`, and the message does not begin with whitespace.
pub proof fn lemma_parse_journalctl_exact(
    ts: Seq<char>,
    host: Seq<char>,
    svc: Seq<char>,
    tag: Seq<char>,
    msg: Seq<char>,
)
    requires
        !ts.contains(' '),
        host.len() > 0,
        !host.contains(' '),
        !is_sp(host[0]),
        !svc.contains('['),
        svc.len() > 0 ==> !is_sp(svc[0]),
        !tag.contains(']'),
        msg.len() > 0 ==> !is_ms(msg[0]),
    ensures
        parse_journalctl(
            ts + seq![' '] + host + seq![' '] + svc + seq!['['] + tag + seq![']', ' '] + msg,
        ) == Some((ts, tag, msg)),
{
    let s = ts + seq![' '] + host + seq![' '] + svc + seq!['['] + tag + seq![']', ' '] + msg;
    let n = s.len() as int;
    let a = ts.len() as int;
    let b = a + 1 + host.len() as int;
    let c0 = b + 1 + svc.len() as int;
    let d = c0 + 1 + tag.len() as int;
    assert(n == d + 2 + msg.len());
    assert forall|j: int| 0 <= j < a implies s[j] == ts[j] by {}
    assert(s[a] == ' ');
    assert forall|j: int| 0 <= j < host.len() implies s[a + 1 + j] == host[j] by {}
    assert(s[b] == ' ');
    assert forall|j: int| 0 <= j < svc.len() implies s[b + 1 + j] == svc[j] by {}
    assert(s[c0] == '[');
    assert forall|j: int| 0 <= j < tag.len() implies s[c0 + 1 + j] == tag[j] by {}
    assert(s[d] == ']');
    assert(s[d + 1] == ' ');
    assert forall|j: int| 0 <= j < msg.len() implies s[d + 2 + j] == msg[j] by {}
    assert forall|j: int| 0 <= j < a implies s[j] != ' ' by {
        assert(s[j] == ts[j]);
        assert(!ts.contains(' '));
    }
    lemma_first_at_found(s, ' ', 0, a);
    lemma_skip_sp_exact(s, a, a + 1);
    assert forall|j: int| a + 1 <= j < b implies s[j] != ' ' by {
        assert(s[j] == host[j - (a + 1)]);
    }
    lemma_first_at_found(s, ' ', a + 1, b);
    lemma_skip_sp_exact(s, b, b + 1);
    assert forall|j: int| b + 1 <= j < c0 implies s[j] != '[' by {
        assert(s[j] == svc[j - (b + 1)]);
    }
    lemma_first_at_found(s, '[', b + 1, c0);
    assert forall|j: int| c0 + 1 <= j < d implies s[j] != ']' by {
        assert(s[j] == tag[j - (c0 + 1)]);
    }
    lemma_first_at_found(s, ']', c0 + 1, d);
    lemma_skip_ms_exact(s, d + 1, d + 2);
    assert(s.subrange(0, a) =~= ts);
    assert(s.subrange(c0 + 1, d) =~= tag);
    assert(s.subrange(d + 2, n) =~= msg);
}

} // verus!
