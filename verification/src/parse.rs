//! Byte-level parsing of version text: a trimmed `major.minor` pair, and
//! the `Version `-prefixed stderr line that the musl loader prints.

use vstd::prelude::*;

verus! {

/// ASCII whitespace: what surrounding trim removes.
pub open spec fn is_space(b: u8) -> bool {
    b == 32 || b == 9 || b == 10 || b == 11 || b == 12 || b == 13
}

/// A decimal digit.
pub open spec fn is_digit(b: u8) -> bool {
    48 <= b <= 57
}

/// The sequence with its leading whitespace removed.
pub open spec fn ltrim(s: Seq<u8>) -> Seq<u8>
    decreases s.len(),
{
    if s.len() > 0 && is_space(s[0]) {
        ltrim(s.drop_first())
    } else {
        s
    }
}

/// The sequence with its trailing whitespace removed.
pub open spec fn rtrim(s: Seq<u8>) -> Seq<u8>
    decreases s.len(),
{
    if s.len() > 0 && is_space(s.last()) {
        rtrim(s.drop_last())
    } else {
        s
    }
}

/// The sequence with surrounding whitespace removed.
pub open spec fn trim(s: Seq<u8>) -> Seq<u8> {
    rtrim(ltrim(s))
}

/// The position of the first occurrence of `b`, if any.
pub open spec fn find_byte(s: Seq<u8>, b: u8) -> Option<int>
    decreases s.len(),
{
    if s.len() == 0 {
        None
    } else if s[0] == b {
        Some(0)
    } else {
        match find_byte(s.drop_first(), b) {
            Some(i) => Some(i + 1),
            None => None,
        }
    }
}

/// An optional leading `+` sign removed, as `u32` text parsing allows one.
pub open spec fn strip_plus(s: Seq<u8>) -> Seq<u8> {
    if s.len() > 0 && s[0] == 43 {
        s.drop_first()
    } else {
        s
    }
}

pub open spec fn all_digits(s: Seq<u8>) -> bool {
    forall|i: int| 0 <= i < s.len() ==> is_digit(s[i])
}

/// The number that a sequence of decimal digits denotes.
pub open spec fn digits_value(s: Seq<u8>) -> nat
    decreases s.len(),
{
    if s.len() == 0 {
        0
    } else {
        (digits_value(s.drop_last()) * 10 + (s.last() - 48)) as nat
    }
}

/// A non-negative integer read from text, exactly as `u32` parsing reads
/// it: an optional leading `+`, then at least one decimal digit, with the
/// value in range.
pub open spec fn parse_u32(s: Seq<u8>) -> Option<u32> {
    let t = strip_plus(s);
    if t.len() > 0 && all_digits(t) && digits_value(t) <= u32::MAX {
        Some(digits_value(t) as u32)
    } else {
        None
    }
}

/// A `major.minor` pair read from a version string: surrounding
/// whitespace trimmed, the text split on `.`, the first two segments
/// each read as a non-negative integer.  Absent when no second segment
/// exists or either read fails; trailing segments are ignored.
pub open spec fn parse_major_minor(s: Seq<u8>) -> Option<(u32, u32)> {
    let t = trim(s);
    match find_byte(t, 46) {
        None => None,
        Some(i) => {
            let seg1 = t.subrange(0, i);
            let rest = t.subrange(i + 1, t.len() as int);
            let seg2 = match find_byte(rest, 46) {
                Some(j) => rest.subrange(0, j),
                None => rest,
            };
            match (parse_u32(seg1), parse_u32(seg2)) {
                (Some(major), Some(minor)) => Some((major, minor)),
                _ => None,
            }
        },
    }
}

proof fn lemma_ltrim_is_skip(s: Seq<u8>, k: int)
    requires
        0 <= k <= s.len(),
        forall|j: int| 0 <= j < k ==> is_space(s[j]),
        k == s.len() || !is_space(s[k]),
    ensures
        ltrim(s) == s.skip(k),
    decreases k,
{
    if k == 0 {
        assert(s.skip(0) =~= s);
    } else {
        assert forall|j: int| 0 <= j < k - 1 implies is_space(s.drop_first()[j]) by {
            assert(s.drop_first()[j] == s[j + 1]);
        }
        if k < s.len() {
            assert(s.drop_first()[k - 1] == s[k]);
        }
        lemma_ltrim_is_skip(s.drop_first(), k - 1);
        assert(s.drop_first().skip(k - 1) =~= s.skip(k));
    }
}

proof fn lemma_rtrim_is_take(s: Seq<u8>, k: int)
    requires
        0 <= k <= s.len(),
        forall|j: int| k <= j < s.len() ==> is_space(s[j]),
        k == 0 || !is_space(s[k - 1]),
    ensures
        rtrim(s) == s.take(k),
    decreases s.len() - k,
{
    if k == s.len() {
        assert(s.take(k) =~= s);
    } else {
        assert(is_space(s.last()));
        assert forall|j: int| k <= j < s.drop_last().len() implies is_space(s.drop_last()[j]) by {
            assert(s.drop_last()[j] == s[j]);
        }
        lemma_rtrim_is_take(s.drop_last(), k);
        assert(s.drop_last().take(k) =~= s.take(k));
    }
}

proof fn lemma_find_byte_at(s: Seq<u8>, b: u8, i: int)
    requires
        0 <= i < s.len(),
        s[i] == b,
        forall|j: int| 0 <= j < i ==> s[j] != b,
    ensures
        find_byte(s, b) == Some(i),
    decreases i,
{
    if i > 0 {
        assert(s[0] != b);
        assert(s.drop_first()[i - 1] == s[i]);
        assert forall|j: int| 0 <= j < i - 1 implies s.drop_first()[j] != b by {
            assert(s.drop_first()[j] == s[j + 1]);
        }
        lemma_find_byte_at(s.drop_first(), b, i - 1);
    }
}

proof fn lemma_find_byte_none(s: Seq<u8>, b: u8)
    requires
        forall|j: int| 0 <= j < s.len() ==> s[j] != b,
    ensures
        find_byte(s, b) is None,
    decreases s.len(),
{
    if s.len() > 0 {
        assert forall|j: int| 0 <= j < s.drop_first().len() implies s.drop_first()[j] != b by {
            assert(s.drop_first()[j] == s[j + 1]);
        }
        lemma_find_byte_none(s.drop_first(), b);
    }
}

/// Every position reported by `find_byte` lies in range and holds `b`.
proof fn lemma_find_byte_props(s: Seq<u8>, b: u8)
    ensures
        find_byte(s, b) matches Some(i) ==> 0 <= i < s.len() && s[i] == b,
    decreases s.len(),
{
    if s.len() > 0 && s[0] != b {
        lemma_find_byte_props(s.drop_first(), b);
        let fb = find_byte(s.drop_first(), b);
        if fb is Some {
            let i = fb->Some_0;
            assert(s.drop_first()[i] == s[i + 1]);
        }
    }
}

proof fn lemma_digits_prefix_le(s: Seq<u8>, k: int)
    requires
        0 <= k <= s.len(),
        all_digits(s),
    ensures
        digits_value(s.take(k)) <= digits_value(s),
    decreases s.len() - k,
{
    if k == s.len() {
        assert(s.take(k) =~= s);
    } else {
        assert forall|j: int| 0 <= j < s.drop_last().len() implies is_digit(s.drop_last()[j]) by {
            assert(s.drop_last()[j] == s[j]);
        }
        lemma_digits_prefix_le(s.drop_last(), k);
        assert(s.drop_last().take(k) =~= s.take(k));
        assert(is_digit(s.last()));
    }
}

fn space_byte(b: u8) -> (r: bool)
    ensures
        r == is_space(b),
{
    b == 32 || b == 9 || b == 10 || b == 11 || b == 12 || b == 13
}

fn trim_slice(s: &[u8]) -> (r: &[u8])
    ensures
        r@ == trim(s@),
{
    let n: usize = s.len();
    let mut lo: usize = 0;
    while lo < n && space_byte(s[lo])
        invariant
            0 <= lo <= n,
            n == s@.len(),
            forall|j: int| 0 <= j < lo ==> is_space(s@[j]),
        decreases n - lo,
    {
        lo = lo + 1;
    }
    let mut hi: usize = n;
    while hi > lo && space_byte(s[hi - 1])
        invariant
            lo <= hi <= n,
            n == s@.len(),
            forall|j: int| hi <= j < n ==> is_space(s@[j]),
        decreases hi,
    {
        hi = hi - 1;
    }
    proof {
        lemma_ltrim_is_skip(s@, lo as int);
        assert forall|j: int| (hi - lo) <= j < s@.skip(lo as int).len() implies is_space(
            s@.skip(lo as int)[j],
        ) by {
            assert(s@.skip(lo as int)[j] == s@[j + lo]);
        }
        if hi > lo {
            assert(s@.skip(lo as int)[hi - lo - 1] == s@[hi - 1]);
        }
        lemma_rtrim_is_take(s@.skip(lo as int), hi - lo);
        assert(s@.skip(lo as int).take(hi - lo) =~= s@.subrange(lo as int, hi as int));
    }
    &s[lo..hi]
}

fn find_byte_in(s: &[u8], b: u8) -> (r: Option<usize>)
    ensures
        r matches Some(i) ==> find_byte(s@, b) == Some(i as int),
        r is None ==> find_byte(s@, b) is None,
{
    let n: usize = s.len();
    let mut i: usize = 0;
    while i < n
        invariant
            0 <= i <= n,
            n == s@.len(),
            forall|j: int| 0 <= j < i ==> s@[j] != b,
        decreases n - i,
    {
        if s[i] == b {
            proof {
                lemma_find_byte_at(s@, b, i as int);
            }
            return Some(i);
        }
        i = i + 1;
    }
    proof {
        lemma_find_byte_none(s@, b);
    }
    None
}

fn parse_u32_slice(s: &[u8]) -> (r: Option<u32>)
    ensures
        r == parse_u32(s@),
{
    let n: usize = s.len();
    let start: usize = if n > 0 && s[0] == 43 {
        1
    } else {
        0
    };
    proof {
        assert(strip_plus(s@) =~= s@.subrange(start as int, n as int));
    }
    if start == n {
        return None;
    }
    let mut i: usize = start;
    let mut acc: u64 = 0;
    while i < n
        invariant
            start <= i <= n,
            start < n,
            n == s@.len(),
            strip_plus(s@) == s@.subrange(start as int, n as int),
            forall|j: int| start <= j < i ==> is_digit(s@[j]),
            acc == digits_value(s@.subrange(start as int, i as int)),
            acc <= u32::MAX,
        decreases n - i,
    {
        let b = s[i];
        if b < 48 || b > 57 {
            proof {
                assert(strip_plus(s@)[i - start] == s@[i as int]);
            }
            return None;
        }
        let d: u64 = (b - 48) as u64;
        let next: u64 = acc * 10 + d;
        proof {
            let pre = s@.subrange(start as int, i as int);
            let pre1 = s@.subrange(start as int, i as int + 1);
            assert(pre1.drop_last() =~= pre);
            assert(pre1.last() == s@[i as int]);
            assert(digits_value(pre1) == next);
        }
        if next > 0xFFFF_FFFF {
            proof {
                let t = strip_plus(s@);
                if all_digits(t) {
                    lemma_digits_prefix_le(t, i as int + 1 - start);
                    assert(t.take(i as int + 1 - start) =~= s@.subrange(
                        start as int,
                        i as int + 1,
                    ));
                }
            }
            return None;
        }
        acc = next;
        i = i + 1;
    }
    proof {
        let t = strip_plus(s@);
        assert forall|j: int| 0 <= j < t.len() implies is_digit(t[j]) by {
            assert(t[j] == s@[j + start]);
        }
        assert(t =~= s@.subrange(start as int, n as int));
        assert(digits_value(t) == acc);
    }
    Some(acc as u32)
}

/// Reads `major.minor` from raw version text, as
/// [`parse_major_minor`] describes: whitespace trimmed, split on `.`,
/// the first two segments read as `u32`, anything after them ignored.
pub fn parse_major_minor_version(version: &[u8]) -> (r: Option<(u32, u32)>)
    ensures
        r == parse_major_minor(version@),
{
    let t = trim_slice(version);
    let tn: usize = t.len();
    proof {
        lemma_find_byte_props(t@, 46);
    }
    match find_byte_in(t, 46) {
        None => None,
        Some(i) => {
            proof {
                assert((i as int) < t@.len());
            }
            let major = parse_u32_slice(&t[0..i]);
            let rest: &[u8] = &t[(i + 1)..tn];
            proof {
                lemma_find_byte_props(rest@, 46);
            }
            let seg2: &[u8] = match find_byte_in(rest, 46) {
                Some(j) => &rest[0..j],
                None => rest,
            };
            let minor = parse_u32_slice(seg2);
            match (major, minor) {
                (Some(major_v), Some(minor_v)) => Some((major_v, minor_v)),
                _ => None,
            }
        },
    }
}

/// A line with one trailing carriage return removed.
pub open spec fn chomp_cr(line: Seq<u8>) -> Seq<u8> {
    if line.len() > 0 && line.last() == 13 {
        line.drop_last()
    } else {
        line
    }
}

/// The lines of a byte text, split at newlines, each with a trailing
/// carriage return removed; a final newline closes the last line rather
/// than opening an empty one.
pub open spec fn lines_of(s: Seq<u8>) -> Seq<Seq<u8>>
    decreases s.len(),
    via lines_of_decreases
{
    if s.len() == 0 {
        Seq::<Seq<u8>>::empty()
    } else {
        match find_byte(s, 10) {
            Some(i) => seq![chomp_cr(s.subrange(0, i))] + lines_of(
                s.subrange(i + 1, s.len() as int),
            ),
            None => seq![chomp_cr(s)],
        }
    }
}

#[via_fn]
proof fn lines_of_decreases(s: Seq<u8>) {
    if s.len() > 0 {
        lemma_find_byte_props(s, 10);
    }
}

/// Whether a line starts with `Version ` (the musl loader's banner).
pub open spec fn has_version_prefix(line: Seq<u8>) -> bool {
    // the bytes of "Version "
    &&& line.len() >= 8
    &&& line[0] == 86
    &&& line[1] == 101
    &&& line[2] == 114
    &&& line[3] == 115
    &&& line[4] == 105
    &&& line[5] == 111
    &&& line[6] == 110
    &&& line[7] == 32
}

/// The text after `Version ` on the first line that carries that prefix.
pub open spec fn first_version_payload(ls: Seq<Seq<u8>>) -> Option<Seq<u8>>
    decreases ls.len(),
{
    if ls.len() == 0 {
        None
    } else if has_version_prefix(ls[0]) {
        Some(ls[0].skip(8))
    } else {
        first_version_payload(ls.drop_first())
    }
}

/// The version that the musl loader's stderr text carries: the first
/// line prefixed `Version `, with the prefix stripped, read as
/// `major.minor`.  The invoking process's exit status plays no part.
pub open spec fn musl_stderr_version(s: Seq<u8>) -> Option<(u32, u32)> {
    match first_version_payload(lines_of(s)) {
        Some(payload) => parse_major_minor(payload),
        None => None,
    }
}

proof fn lemma_first_payload_cons(line: Seq<u8>, ls: Seq<Seq<u8>>)
    ensures
        has_version_prefix(line) ==> first_version_payload(seq![line] + ls) == Some(line.skip(8)),
        !has_version_prefix(line) ==> first_version_payload(seq![line] + ls)
            == first_version_payload(ls),
{
    let c = seq![line] + ls;
    assert(c.len() == 1 + ls.len());
    assert(c[0] == line);
    assert(c.drop_first() =~= ls);
}

fn chomp_cr_slice(line: &[u8]) -> (r: &[u8])
    ensures
        r@ == chomp_cr(line@),
{
    let n: usize = line.len();
    if n > 0 && line[n - 1] == 13 {
        proof {
            assert(line@.subrange(0, n as int - 1) =~= line@.drop_last());
        }
        &line[0..n - 1]
    } else {
        line
    }
}

fn next_line<'a>(s: &'a [u8]) -> (r: (&'a [u8], &'a [u8]))
    requires
        s@.len() > 0,
    ensures
        lines_of(s@) == seq![r.0@] + lines_of(r.1@),
        r.1@.len() < s@.len(),
{
    let sn: usize = s.len();
    proof {
        lemma_find_byte_props(s@, 10);
    }
    match find_byte_in(s, 10) {
        Some(i) => {
            proof {
                assert((i as int) < s@.len());
            }
            let line = chomp_cr_slice(&s[0..i]);
            let rest = &s[(i + 1)..sn];
            (line, rest)
        },
        None => {
            let line = chomp_cr_slice(s);
            let rest = &s[s.len()..s.len()];
            proof {
                assert(rest@ =~= Seq::<u8>::empty());
                assert(seq![chomp_cr(s@)] + lines_of(rest@) =~= seq![chomp_cr(s@)]);
            }
            (line, rest)
        },
    }
}

fn starts_with_version(line: &[u8]) -> (r: bool)
    ensures
        r == has_version_prefix(line@),
{
    if line.len() < 8 {
        return false;
    }
    line[0] == 86 && line[1] == 101 && line[2] == 114 && line[3] == 115 && line[4] == 105
        && line[5] == 111 && line[6] == 110 && line[7] == 32
}

/// Extracts the musl version from captured loader stderr, as
/// [`musl_stderr_version`] describes: the first `Version `-prefixed
/// line decides, whatever the loader's exit status was.
pub fn musl_version_from_stderr(stderr_text: &[u8]) -> (r: Option<(u32, u32)>)
    ensures
        r == musl_stderr_version(stderr_text@),
{
    let mut rest: &[u8] = stderr_text;
    while rest.len() > 0
        invariant
            first_version_payload(lines_of(stderr_text@)) == first_version_payload(
                lines_of(rest@),
            ),
        decreases rest@.len(),
    {
        let (line, next_rest) = next_line(rest);
        proof {
            lemma_first_payload_cons(line@, lines_of(next_rest@));
        }
        if starts_with_version(line) {
            let payload = &line[8..line.len()];
            proof {
                assert(payload@ =~= line@.skip(8));
            }
            return parse_major_minor_version(payload);
        }
        rest = next_rest;
    }
    proof {
        assert(rest@ =~= Seq::<u8>::empty());
    }
    None
}

} // verus!
