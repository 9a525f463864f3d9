//! Character-level text utilities: delimiter search, whitespace runs,
//! ASCII-case-insensitive comparison and substring search, and splitting a
//! buffer into lines.

use vstd::prelude::*;

verus! {

/// The characters a single-space run may hold (space and horizontal tab).
pub open spec fn is_sp(c: char) -> bool {
    c == ' ' || c == '\t'
}

/// The characters a multispace run may hold (space, tab, carriage return, newline).
pub open spec fn is_ms(c: char) -> bool {
    c == ' ' || c == '\t' || c == '\r' || c == '\n'
}

/// Unicode whitespace, as `char::is_whitespace` defines it (the White_Space
/// property): used only to decide whether a whole line is blank.
pub open spec fn is_uws(c: char) -> bool {
    let u = c as u32;
    u == 0x09 || u == 0x0A || u == 0x0B || u == 0x0C || u == 0x0D || u == 0x20 || u == 0x85
        || u == 0xA0 || u == 0x1680 || (0x2000 <= u && u <= 0x200A) || u == 0x2028 || u == 0x2029
        || u == 0x202F || u == 0x205F || u == 0x3000
}

/// A line is blank when every character in it is whitespace (so the empty
/// line is blank).
pub open spec fn spec_blank(s: Seq<char>) -> bool {
    forall|i: int| 0 <= i < s.len() ==> is_uws(s[i])
}

/// Index of the first occurrence of `c` in `s` at or after `i`, or `s.len()`
/// when there is none.
pub open spec fn first_at(s: Seq<char>, c: char, i: int) -> int
    decreases s.len() - i,
{
    if 0 <= i < s.len() {
        if s[i] == c {
            i
        } else {
            first_at(s, c, i + 1)
        }
    } else {
        i
    }
}

/// Index just past the run of spaces and tabs that begins at `i`.
pub open spec fn skip_sp(s: Seq<char>, i: int) -> int
    decreases s.len() - i,
{
    if 0 <= i < s.len() && is_sp(s[i]) {
        skip_sp(s, i + 1)
    } else {
        i
    }
}

/// Index just past the run of multispace characters that begins at `i`.
pub open spec fn skip_ms(s: Seq<char>, i: int) -> int
    decreases s.len() - i,
{
    if 0 <= i < s.len() && is_ms(s[i]) {
        skip_ms(s, i + 1)
    } else {
        i
    }
}

/// `first_at` returns exactly the position of the first occurrence: `c` is
/// there, and nowhere earlier in the searched range.
pub proof fn lemma_first_at_found(s: Seq<char>, c: char, i: int, k: int)
    requires
        0 <= i <= k < s.len(),
        s[k] == c,
        forall|j: int| i <= j < k ==> s[j] != c,
    ensures
        first_at(s, c, i) == k,
    decreases k - i,
{
    if i < k {
        lemma_first_at_found(s, c, i + 1, k);
    }
}

/// `first_at` stays within `[i, s.len()]`.
pub proof fn lemma_first_at_bounds(s: Seq<char>, c: char, i: int)
    requires
        0 <= i <= s.len(),
    ensures
        i <= first_at(s, c, i) <= s.len(),
    decreases s.len() - i,
{
    if i < s.len() && s[i] != c {
        lemma_first_at_bounds(s, c, i + 1);
    }
}

/// `skip_sp` stops exactly at the first index whose character is not a space
/// or tab.
pub proof fn lemma_skip_sp_exact(s: Seq<char>, i: int, k: int)
    requires
        0 <= i <= k <= s.len(),
        forall|j: int| i <= j < k ==> is_sp(s[j]),
        k == s.len() || !is_sp(s[k]),
    ensures
        skip_sp(s, i) == k,
    decreases k - i,
{
    if i < k {
        lemma_skip_sp_exact(s, i + 1, k);
    }
}

/// `skip_ms` stops exactly at the first index whose character is not
/// multispace.
pub proof fn lemma_skip_ms_exact(s: Seq<char>, i: int, k: int)
    requires
        0 <= i <= k <= s.len(),
        forall|j: int| i <= j < k ==> is_ms(s[j]),
        k == s.len() || !is_ms(s[k]),
    ensures
        skip_ms(s, i) == k,
    decreases k - i,
{
    if i < k {
        lemma_skip_ms_exact(s, i + 1, k);
    }
}

/// Exec search for `c` in `s` from index `from`; returns the first index
/// holding `c`, or the length when there is none.
pub fn find_char(s: &str, from: usize, c: char) -> (r: usize)
    requires
        from <= s@.len(),
    ensures
        r as int == first_at(s@, c, from as int),
        from <= r <= s@.len(),
{
    let n = s.unicode_len();
    let mut i = from;
    while i < n
        invariant
            from <= i <= n,
            n == s@.len(),
            first_at(s@, c, from as int) == first_at(s@, c, i as int),
        decreases n - i,
    {
        if s.get_char(i) == c {
            return i;
        }
        proof {
            assert(first_at(s@, c, i as int) == first_at(s@, c, i + 1));
        }
        i = i + 1;
    }
    i
}

fn sp_at(s: &str, i: usize) -> (r: bool)
    requires
        i < s@.len(),
    ensures
        r == is_sp(s@[i as int]),
{
    let ch = s.get_char(i);
    ch == ' ' || ch == '\t'
}

fn ms_at(s: &str, i: usize) -> (r: bool)
    requires
        i < s@.len(),
    ensures
        r == is_ms(s@[i as int]),
{
    let ch = s.get_char(i);
    ch == ' ' || ch == '\t' || ch == '\r' || ch == '\n'
}

/// Exec skip over the run of spaces and tabs beginning at `from`.
pub fn skip_spaces(s: &str, from: usize) -> (r: usize)
    requires
        from <= s@.len(),
    ensures
        r as int == skip_sp(s@, from as int),
        from <= r <= s@.len(),
{
    let n = s.unicode_len();
    let mut i = from;
    while i < n && sp_at(s, i)
        invariant
            from <= i <= n,
            n == s@.len(),
            skip_sp(s@, from as int) == skip_sp(s@, i as int),
        decreases n - i,
    {
        proof {
            assert(skip_sp(s@, i as int) == skip_sp(s@, i + 1));
        }
        i = i + 1;
    }
    i
}

/// Exec skip over the run of multispace characters beginning at `from`.
pub fn skip_multispace(s: &str, from: usize) -> (r: usize)
    requires
        from <= s@.len(),
    ensures
        r as int == skip_ms(s@, from as int),
        from <= r <= s@.len(),
{
    let n = s.unicode_len();
    let mut i = from;
    while i < n && ms_at(s, i)
        invariant
            from <= i <= n,
            n == s@.len(),
            skip_ms(s@, from as int) == skip_ms(s@, i as int),
        decreases n - i,
    {
        proof {
            assert(skip_ms(s@, i as int) == skip_ms(s@, i + 1));
        }
        i = i + 1;
    }
    i
}

/// Exec check that a line is blank (all characters whitespace).
pub fn is_blank(s: &str) -> (r: bool)
    ensures
        r == spec_blank(s@),
{
    let n = s.unicode_len();
    let mut i: usize = 0;
    while i < n
        invariant
            i <= n,
            n == s@.len(),
            forall|j: int| 0 <= j < i ==> is_uws(s@[j]),
        decreases n - i,
    {
        let u = s.get_char(i) as u32;
        let ws = u == 0x09 || u == 0x0A || u == 0x0B || u == 0x0C || u == 0x0D || u == 0x20
            || u == 0x85 || u == 0xA0 || u == 0x1680 || (0x2000 <= u && u <= 0x200A) || u == 0x2028
            || u == 0x2029 || u == 0x202F || u == 0x205F || u == 0x3000;
        if !ws {
            return false;
        }
        i = i + 1;
    }
    true
}

/// The code point of `c` with an ASCII upper-case letter folded to lower
/// case; other characters are left as they are.
pub open spec fn lower_int(c: char) -> int {
    if 'A' as int <= c as int && c as int <= 'Z' as int {
        c as int + 32
    } else {
        c as int
    }
}

/// ASCII-case-insensitive character equality.
pub open spec fn ci_eq(a: char, b: char) -> bool {
    lower_int(a) == lower_int(b)
}

/// Exec ASCII-case-insensitive character comparison.
pub fn char_eq_ci(a: char, b: char) -> (r: bool)
    ensures
        r == ci_eq(a, b),
{
    let av = a as u32;
    let bv = b as u32;
    let al = if 65 <= av && av <= 90 { av + 32 } else { av };
    let bl = if 65 <= bv && bv <= 90 { bv + 32 } else { bv };
    al == bl
}

/// `needle` occurs in `hay` at index `i`, compared ASCII-case-insensitively.
pub open spec fn ci_match_at(hay: Seq<char>, needle: Seq<char>, i: int) -> bool {
    0 <= i && i + needle.len() <= hay.len() && (forall|j: int|
        0 <= j < needle.len() ==> ci_eq(hay[i + j], needle[j]))
}

/// `hay` contains `needle` somewhere, compared ASCII-case-insensitively.
pub open spec fn spec_contains_ci(hay: Seq<char>, needle: Seq<char>) -> bool {
    exists|i: int| ci_match_at(hay, needle, i)
}

fn match_at_ci(hay: &str, needle: &str, i: usize) -> (r: bool)
    requires
        i + needle@.len() <= hay@.len() <= usize::MAX,
    ensures
        r == ci_match_at(hay@, needle@, i as int),
{
    let m = needle.unicode_len();
    let mut j: usize = 0;
    while j < m
        invariant
            i + m <= hay@.len() <= usize::MAX,
            m == needle@.len(),
            j <= m,
            forall|q: int| 0 <= q < j ==> ci_eq(hay@[i + q], needle@[q]),
        decreases m - j,
    {
        let hc = hay.get_char(i + j);
        let nc = needle.get_char(j);
        if !char_eq_ci(hc, nc) {
            proof {
                assert(!ci_eq(hay@[i + j], needle@[j as int]));
            }
            return false;
        }
        j = j + 1;
    }
    true
}

/// Exec ASCII-case-insensitive substring search.
pub fn contains_ci(hay: &str, needle: &str) -> (r: bool)
    ensures
        r == spec_contains_ci(hay@, needle@),
{
    let h = hay.unicode_len();
    let m = needle.unicode_len();
    if m > h {
        proof {
            assert(forall|i: int| !ci_match_at(hay@, needle@, i));
        }
        return false;
    }
    let mut i: usize = 0;
    while i <= h - m
        invariant
            m <= h,
            h == hay@.len(),
            m == needle@.len(),
            i <= h - m + 1,
            forall|k: int| 0 <= k < i ==> !ci_match_at(hay@, needle@, k),
        decreases h + 1 - i,
    {
        if match_at_ci(hay, needle, i) {
            proof {
                assert(spec_contains_ci(hay@, needle@));
            }
            return true;
        }
        i = i + 1;
    }
    proof {
        assert(forall|k: int| !ci_match_at(hay@, needle@, k)) by {
            assert(forall|k: int| k > h - m ==> !ci_match_at(hay@, needle@, k));
        }
    }
    false
}

/// Sequences equal up to ASCII case.
pub open spec fn seq_ci_eq(a: Seq<char>, b: Seq<char>) -> bool {
    a.len() == b.len() && (forall|i: int| 0 <= i < a.len() ==> ci_eq(a[i], b[i]))
}

/// Exec ASCII-case-insensitive string equality (as
/// `str::eq_ignore_ascii_case` decides it).
pub fn str_eq_ci(a: &str, b: &str) -> (r: bool)
    ensures
        r == seq_ci_eq(a@, b@),
{
    let n = a.unicode_len();
    let m = b.unicode_len();
    if n != m {
        return false;
    }
    let mut i: usize = 0;
    while i < n
        invariant
            i <= n,
            n == a@.len(),
            n == b@.len(),
            forall|j: int| 0 <= j < i ==> ci_eq(a@[j], b@[j]),
        decreases n - i,
    {
        if !char_eq_ci(a.get_char(i), b.get_char(i)) {
            proof {
                assert(!ci_eq(a@[i as int], b@[i as int]));
            }
            return false;
        }
        i = i + 1;
    }
    true
}

/// A line with its terminator removed: one trailing carriage return is
/// stripped (it belonged to a `\r\n` ending).
pub open spec fn strip_cr(l: Seq<char>) -> Seq<char> {
    if l.len() > 0 && l[l.len() - 1] == '\r' {
        l.drop_last()
    } else {
        l
    }
}

/// The lines of `s` from index `i` on, split at `'\n'`, each with a trailing
/// `'\r'` stripped; a final line ending yields no extra empty line (as
/// `str::lines` splits).
pub open spec fn lines_from(s: Seq<char>, i: int) -> Seq<Seq<char>>
    decreases s.len() - i,
{
    if !(0 <= i < s.len()) {
        Seq::empty()
    } else {
        let k = first_at(s, '\n', i);
        if i <= k < s.len() {
            seq![strip_cr(s.subrange(i, k))] + lines_from(s, k + 1)
        } else {
            seq![s.subrange(i, s.len() as int)]
        }
    }
}

/// The lines of `s`.
pub open spec fn spec_lines(s: Seq<char>) -> Seq<Seq<char>> {
    lines_from(s, 0)
}

/// Exec line splitting, against the `spec_lines` model.
pub fn split_lines(s: &str) -> (r: Vec<String>)
    ensures
        r@.map_values(|l: String| l@) == spec_lines(s@),
{
    let n = s.unicode_len();
    let mut out: Vec<String> = Vec::new();
    let mut i: usize = 0;
    while i < n
        invariant
            i <= n,
            n == s@.len(),
            out@.map_values(|l: String| l@) + lines_from(s@, i as int) == spec_lines(s@),
        decreases n - i,
    {
        let k = find_char(s, i, '\n');
        let end = if k < n {
            let mut e = k;
            if e > i && s.get_char(e - 1) == '\r' {
                e = e - 1;
            }
            e
        } else {
            k
        };
        let line = s.substring_char(i, end).to_owned();
        proof {
            lemma_first_at_bounds(s@, '\n', i as int);
            if (k as int) < s@.len() {
                assert(strip_cr(s@.subrange(i as int, k as int)) =~= s@.subrange(
                    i as int,
                    end as int,
                ));
            }
            assert((out@.push(line)).map_values(|l: String| l@) =~= out@.map_values(
                |l: String| l@,
            ).push(line@));
        }
        out.push(line);
        if k == n {
            proof {
                assert(lines_from(s@, k as int) =~= Seq::<Seq<char>>::empty());
            }
            return out;
        }
        i = k + 1;
    }
    proof {
        assert(out@.map_values(|l: String| l@) + lines_from(s@, i as int) =~= out@.map_values(
            |l: String| l@,
        ));
    }
    out
}

} // verus!
