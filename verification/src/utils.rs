//! Text parsing for the attachment layer: hexadecimal addresses, the
//! online-CPU range list, and the kernel release string.

use vstd::prelude::*;
use vstd::arithmetic::overflow::CheckedU64;
use vstd::arithmetic::overflow::CheckedUsize;

verus! {

// ---------------------------------------------------------------------------
// Digits
// ---------------------------------------------------------------------------

/// A decimal digit '0'..'9'.
pub open spec fn is_dec_digit(c: char) -> bool {
    '0' <= c && c <= '9'
}

pub open spec fn dec_digit_val(c: char) -> nat {
    (c as int - '0' as int) as nat
}

pub open spec fn all_dec_digits(s: Seq<char>) -> bool {
    forall|i: int| 0 <= i < s.len() ==> is_dec_digit(#[trigger] s[i])
}

/// The value of a sequence of decimal digits, most significant first.
pub open spec fn dec_val(s: Seq<char>) -> nat
    decreases s.len(),
{
    if s.len() == 0 {
        0
    } else {
        dec_val(s.drop_last()) * 10 + dec_digit_val(s.last())
    }
}

/// A hexadecimal digit, either case.
pub open spec fn is_hex_digit(c: char) -> bool {
    ('0' <= c && c <= '9') || ('a' <= c && c <= 'f') || ('A' <= c && c <= 'F')
}

pub open spec fn hex_digit_val(c: char) -> nat {
    if '0' <= c && c <= '9' {
        (c as int - '0' as int) as nat
    } else if 'a' <= c && c <= 'f' {
        (c as int - 'a' as int + 10) as nat
    } else {
        (c as int - 'A' as int + 10) as nat
    }
}

pub open spec fn all_hex_digits(s: Seq<char>) -> bool {
    forall|i: int| 0 <= i < s.len() ==> is_hex_digit(#[trigger] s[i])
}

/// The value of a sequence of hexadecimal digits, most significant first.
pub open spec fn hex_val(s: Seq<char>) -> nat
    decreases s.len(),
{
    if s.len() == 0 {
        0
    } else {
        hex_val(s.drop_last()) * 16 + hex_digit_val(s.last())
    }
}

// ---------------------------------------------------------------------------
// Hexadecimal addresses
// ---------------------------------------------------------------------------

/// The digits of a hexadecimal literal: the text with one optional leading
/// "0x" removed.
pub open spec fn strip_hex_prefix(s: Seq<char>) -> Seq<char> {
    if s.len() >= 2 && s[0] == '0' && s[1] == 'x' {
        s.subrange(2, s.len() as int)
    } else {
        s
    }
}

/// Why a hexadecimal address failed to parse.
#[derive(Clone, Copy, PartialEq, Eq, Structural, Debug)]
pub enum HexParseError {
    /// No digits after the optional "0x" prefix.
    Empty,
    /// A character that is not a hexadecimal digit.
    InvalidDigit,
    /// The value does not fit in the machine's address width.
    Overflow,
}

/// Parses a hexadecimal address with an optional "0x" prefix.
pub fn hexstr2int(hex: &String) -> (r: Result<usize, HexParseError>)
    ensures
        ({
            let s = strip_hex_prefix(hex@);
            match r {
                Ok(v) => s.len() > 0 && all_hex_digits(s) && hex_val(s) <= usize::MAX && v
                    == hex_val(s),
                Err(HexParseError::Empty) => s.len() == 0,
                Err(HexParseError::InvalidDigit) => s.len() > 0 && !all_hex_digits(s),
                Err(HexParseError::Overflow) => s.len() > 0 && all_hex_digits(s) && hex_val(s)
                    > usize::MAX,
            }
        }),
{
    let t = hex.as_str();
    let n = t.unicode_len();
    let start: usize = if n >= 2 && t.get_char(0) == '0' && t.get_char(1) == 'x' {
        2
    } else {
        0
    };
    let ghost s = strip_hex_prefix(hex@);
    proof {
        assert(s =~= t@.subrange(start as int, n as int));
    }
    if start == n {
        return Err(HexParseError::Empty);
    }
    let mut acc = CheckedUsize::new(0);
    let mut j: usize = start;
    while j < n
        invariant
            start <= j <= n,
            n == t@.len(),
            t@ == hex@,
            s == strip_hex_prefix(hex@),
            s =~= t@.subrange(start as int, n as int),
            acc@ == hex_val(s.take(j - start)),
            forall|k: int| 0 <= k < j - start ==> is_hex_digit(#[trigger] s[k]),
        decreases n - j,
    {
        let c = t.get_char(j);
        let u = c as u32;
        if !((u >= 48 && u <= 57) || (u >= 97 && u <= 102) || (u >= 65 && u <= 70)) {
            proof {
                assert(s[j - start] == c);
                assert(!is_hex_digit(c));
                assert(!all_hex_digits(s)) by {
                    assert(0 <= j - start < s.len() && !is_hex_digit(s[j - start]));
                }
            }
            return Err(HexParseError::InvalidDigit);
        }
        let d: u32 = if u <= 57 {  // '0'..'9'
            u - 48
        } else if u >= 97 {  // 'a'..'f'
            u - 97 + 10
        } else {  // 'A'..'F'
            u - 65 + 10
        };
        proof {
            assert(is_hex_digit(s[j - start]));
            assert(d == hex_digit_val(s[j - start]));
            assert(s.take(j - start + 1).drop_last() =~= s.take(j - start));
            assert(s.take(j - start + 1).last() == s[j - start]);
        }
        acc = acc.mul_value(16).add_value(d as usize);
        j = j + 1;
    }
    proof {
        assert(s.take(n - start) =~= s);
    }
    if acc.is_overflowed() {
        Err(HexParseError::Overflow)
    } else {
        Ok(acc.unwrap())
    }
}

// ---------------------------------------------------------------------------
// Searching and trimming
// ---------------------------------------------------------------------------

/// The first index at or after `i` where `c` occurs, or `s.len()` if none.
pub open spec fn find_from(s: Seq<char>, c: char, i: int) -> int
    decreases s.len() - i,
{
    if i < 0 || i >= s.len() {
        s.len() as int
    } else if s[i] == c {
        i
    } else {
        find_from(s, c, i + 1)
    }
}

pub proof fn lemma_find_from(s: Seq<char>, c: char, i: int)
    requires
        0 <= i <= s.len(),
    ensures
        i <= find_from(s, c, i) <= s.len(),
        forall|j: int| i <= j < find_from(s, c, i) ==> s[j] != c,
        find_from(s, c, i) < s.len() ==> s[find_from(s, c, i)] == c,
    decreases s.len() - i,
{
    if i < s.len() && s[i] != c {
        lemma_find_from(s, c, i + 1);
    }
}

/// `find_from` is pinned down by a scan that saw no `c` before `e`.
pub proof fn lemma_find_from_is(s: Seq<char>, c: char, i: int, e: int)
    requires
        0 <= i <= e <= s.len(),
        forall|j: int| i <= j < e ==> s[j] != c,
        e < s.len() ==> s[e] == c,
    ensures
        find_from(s, c, i) == e,
    decreases e - i,
{
    if i < e {
        assert(s[i] != c);
        lemma_find_from_is(s, c, i + 1, e);
    }
}

/// ASCII whitespace as the topology source may carry it.
pub open spec fn is_space_char(c: char) -> bool {
    c == ' ' || c == '\n' || c == '\t' || c == '\r'
}

pub open spec fn ltrim(s: Seq<char>) -> Seq<char>
    decreases s.len(),
{
    if s.len() > 0 && is_space_char(s[0]) {
        ltrim(s.drop_first())
    } else {
        s
    }
}

pub open spec fn rtrim(s: Seq<char>) -> Seq<char>
    decreases s.len(),
{
    if s.len() > 0 && is_space_char(s.last()) {
        rtrim(s.drop_last())
    } else {
        s
    }
}

/// The text with leading and trailing whitespace removed.
pub open spec fn trim(s: Seq<char>) -> Seq<char> {
    rtrim(ltrim(s))
}

proof fn lemma_ltrim_at(s: Seq<char>, k: int)
    requires
        0 <= k <= s.len(),
        forall|i: int| 0 <= i < k ==> is_space_char(#[trigger] s[i]),
        k == s.len() || !is_space_char(s[k]),
    ensures
        ltrim(s) =~= s.subrange(k, s.len() as int),
    decreases k,
{
    if k == 0 {
    } else {
        assert(is_space_char(s[0]));
        lemma_ltrim_at(s.drop_first(), k - 1);
        assert(s.drop_first().subrange(k - 1, s.drop_first().len() as int) =~= s.subrange(
            k,
            s.len() as int,
        ));
    }
}

proof fn lemma_rtrim_at(s: Seq<char>, k: int)
    requires
        0 <= k <= s.len(),
        forall|i: int| k <= i < s.len() ==> is_space_char(#[trigger] s[i]),
        k == 0 || !is_space_char(s[k - 1]),
    ensures
        rtrim(s) =~= s.subrange(0, k),
    decreases s.len(),
{
    if k == s.len() {
        assert(rtrim(s) =~= s.subrange(0, k));
    } else {
        assert(is_space_char(s.last()));
        lemma_rtrim_at(s.drop_last(), k);
        assert(s.drop_last().subrange(0, k) =~= s.subrange(0, k));
    }
}

fn is_space(c: char) -> (b: bool)
    ensures
        b == is_space_char(c),
{
    c == ' ' || c == '\n' || c == '\t' || c == '\r'
}

/// Removes leading and trailing whitespace.
fn trim_str<'a>(t: &'a str) -> (r: &'a str)
    ensures
        r@ =~= trim(t@),
{
    let n = t.unicode_len();
    let mut lo: usize = 0;
    while lo < n && is_space(t.get_char(lo))
        invariant
            0 <= lo <= n,
            n == t@.len(),
            forall|j: int| 0 <= j < lo ==> is_space_char(#[trigger] t@[j]),
        decreases n - lo,
    {
        lo = lo + 1;
    }
    let mut hi: usize = n;
    while hi > lo && is_space(t.get_char(hi - 1))
        invariant
            lo <= hi <= n,
            n == t@.len(),
            forall|j: int| hi <= j < n ==> is_space_char(#[trigger] t@[j]),
        decreases hi,
    {
        hi = hi - 1;
    }
    proof {
        lemma_ltrim_at(t@, lo as int);
        let mid = t@.subrange(lo as int, n as int);
        lemma_rtrim_at(mid, hi - lo);
        assert(mid.subrange(0, hi - lo) =~= t@.subrange(lo as int, hi as int));
    }
    t.substring_char(lo, hi)
}

// ---------------------------------------------------------------------------
// Decimal numbers
// ---------------------------------------------------------------------------

/// Parses the decimal digits in `t[from..to)`; `None` when the range is
/// empty, holds a non-digit, or its value exceeds `u64::MAX`.
fn parse_dec_u64(t: &str, from: usize, to: usize) -> (r: Option<u64>)
    requires
        from <= to <= t@.len(),
    ensures
        ({
            let s = t@.subrange(from as int, to as int);
            match r {
                Some(v) => s.len() > 0 && all_dec_digits(s) && dec_val(s) <= u64::MAX && v
                    == dec_val(s),
                None => !(s.len() > 0 && all_dec_digits(s) && dec_val(s) <= u64::MAX),
            }
        }),
{
    let ghost s = t@.subrange(from as int, to as int);
    if from == to {
        return None;
    }
    let mut acc = CheckedU64::new(0);
    let mut j: usize = from;
    while j < to
        invariant
            from <= j <= to <= t@.len(),
            s == t@.subrange(from as int, to as int),
            acc@ == dec_val(s.take(j - from)),
            forall|k: int| 0 <= k < j - from ==> is_dec_digit(#[trigger] s[k]),
        decreases to - j,
    {
        let c = t.get_char(j);
        let u = c as u32;
        if !(u >= 48 && u <= 57) {
            proof {
                assert(s[j - from] == c);
                assert(!is_dec_digit(c));
                assert(!all_dec_digits(s)) by {
                    assert(0 <= j - from < s.len() && !is_dec_digit(s[j - from]));
                }
            }
            return None;
        }
        let d: u32 = u - 48;
        proof {
            assert(is_dec_digit(s[j - from]));
            assert(d == dec_digit_val(s[j - from]));
            assert(s.take(j - from + 1).drop_last() =~= s.take(j - from));
            assert(s.take(j - from + 1).last() == s[j - from]);
        }
        acc = acc.mul_value(10).add_value(d as u64);
        j = j + 1;
    }
    proof {
        assert(s.take(to - from) =~= s);
    }
    if acc.is_overflowed() {
        None
    } else {
        Some(acc.unwrap())
    }
}

// ---------------------------------------------------------------------------
// Online-CPU topology
// ---------------------------------------------------------------------------

/// The CPU indices `lo..=hi` in ascending order; empty when `hi < lo`.
pub open spec fn range_cpus(lo: i32, hi: i32) -> Seq<i32> {
    Seq::new(
        if hi >= lo {
            (hi - lo + 1) as nat
        } else {
            0
        },
        |k: int| (lo + k) as i32,
    )
}

/// The CPUs one range-list token stands for: either a single index or an
/// inclusive "start-end" range, both in decimal.
pub open spec fn token_cpus(t: Seq<char>) -> Option<Seq<i32>> {
    let d = find_from(t, '-', 0);
    if d == t.len() {
        if t.len() > 0 && all_dec_digits(t) && dec_val(t) <= i32::MAX {
            Some(seq![dec_val(t) as i32])
        } else {
            None
        }
    } else {
        let lo = t.subrange(0, d);
        let hi = t.subrange(d + 1, t.len() as int);
        if lo.len() > 0 && all_dec_digits(lo) && dec_val(lo) <= i32::MAX && hi.len() > 0
            && all_dec_digits(hi) && dec_val(hi) <= i32::MAX {
            Some(range_cpus(dec_val(lo) as i32, dec_val(hi) as i32))
        } else {
            None
        }
    }
}

/// The CPUs of the comma-separated tokens of `s[i..]`, in encounter order;
/// `None` when any token is malformed.
pub open spec fn cpu_list_from(s: Seq<char>, i: int) -> Option<Seq<i32>>
    decreases s.len() - i,
        via cpu_list_from_decreases
{
    if !(0 <= i <= s.len()) {
        None
    } else {
        let e = find_from(s, ',', i);
        match token_cpus(s.subrange(i, e)) {
            None => None,
            Some(cs) => {
                if e == s.len() {
                    Some(cs)
                } else {
                    match cpu_list_from(s, e + 1) {
                        None => None,
                        Some(rest) => Some(cs + rest),
                    }
                }
            },
        }
    }
}

#[via_fn]
proof fn cpu_list_from_decreases(s: Seq<char>, i: int) {
    if 0 <= i <= s.len() {
        lemma_find_from(s, ',', i);
    }
}

/// The ordered online-CPU list described by the whitespace-trimmed
/// range-list text, or `None` when the text is malformed.
pub open spec fn cpu_list_of(s: Seq<char>) -> Option<Seq<i32>> {
    cpu_list_from(trim(s), 0)
}

/// The range-list text could not be parsed.
#[derive(Clone, Copy, PartialEq, Eq, Structural, Debug)]
pub struct TopologyError {}

/// Parses the CPUs of the token `t[from..to)` and appends them to `cpus`.
fn push_token_cpus(t: &str, from: usize, to: usize, cpus: &mut Vec<i32>) -> (ok: bool)
    requires
        from <= to <= t@.len(),
    ensures
        ({
            let tok = t@.subrange(from as int, to as int);
            match token_cpus(tok) {
                Some(cs) => ok && final(cpus)@ == old(cpus)@ + cs,
                None => !ok,
            }
        }),
{
    let ghost tok = t@.subrange(from as int, to as int);
    // locate the first range separator, if any
    let mut d = from;
    while d < to && t.get_char(d) != '-'
        invariant
            from <= d <= to <= t@.len(),
            tok == t@.subrange(from as int, to as int),
            forall|j: int| from <= j < d ==> t@[j] != '-',
        decreases to - d,
    {
        d = d + 1;
    }
    proof {
        assert(forall|j: int| 0 <= j < d - from ==> tok[j] != '-');
        lemma_find_from_is(tok, '-', 0, d - from);
    }
    if d == to {
        // a single index
        match parse_dec_u64(t, from, to) {
            Some(v) => {
                if v <= 0x7fff_ffff {
                    cpus.push(v as i32);
                    proof {
                        assert(cpus@ =~= old(cpus)@ + token_cpus(tok).unwrap());
                    }
                    true
                } else {
                    false
                }
            },
            None => false,
        }
    } else {
        // an inclusive "start-end" range
        proof {
            assert(tok.subrange(0, d - from) =~= t@.subrange(from as int, d as int));
            assert(tok.subrange(d - from + 1, tok.len() as int) =~= t@.subrange(
                d + 1,
                to as int,
            ));
        }
        let lo_v = match parse_dec_u64(t, from, d) {
            Some(v) => v,
            None => {
                return false;
            },
        };
        let hi_v = match parse_dec_u64(t, d + 1, to) {
            Some(v) => v,
            None => {
                return false;
            },
        };
        if lo_v > 0x7fff_ffff || hi_v > 0x7fff_ffff {
            return false;
        }
        let lo = lo_v as i32;
        let hi = hi_v as i32;
        let ghost expanded = range_cpus(lo, hi);
        if lo > hi {
            proof {
                assert(cpus@ =~= old(cpus)@ + expanded);
            }
            return true;
        }
        let mut k = lo;
        loop
            invariant_except_break
                lo <= k <= hi,
                cpus@.len() == old(cpus)@.len() + (k - lo),
                forall|m: int| 0 <= m < old(cpus)@.len() ==> #[trigger] cpus@[m] == old(cpus)@[m],
                forall|m: int| 0 <= m < k - lo ==> #[trigger] cpus@[old(cpus)@.len() + m] == lo + m,
            ensures
                cpus@.len() == old(cpus)@.len() + (hi - lo + 1),
                forall|m: int| 0 <= m < old(cpus)@.len() ==> #[trigger] cpus@[m] == old(cpus)@[m],
                forall|m: int| 0 <= m <= hi - lo ==> #[trigger] cpus@[old(cpus)@.len() + m] == lo + m,
            decreases hi - k,
        {
            cpus.push(k);
            if k == hi {
                break ;
            }
            k = k + 1;
        }
        proof {
            assert forall|i: int| 0 <= i < cpus@.len() implies cpus@[i] == (old(cpus)@
                + expanded)[i] by {
                if old(cpus)@.len() <= i {
                    let m = i - old(cpus)@.len();
                    assert(cpus@[old(cpus)@.len() + m] == lo + m);
                }
            }
            assert(cpus@ =~= old(cpus)@ + expanded);
        }
        true
    }
}

/// Parses the online-CPU range-list text ("0-3,5,7-8") into the ordered
/// list of online CPU indices.
pub fn parse_cpu_list(text: &str) -> (r: Result<Vec<i32>, TopologyError>)
    ensures
        match r {
            Ok(v) => cpu_list_of(text@) == Some(v@),
            Err(_) => cpu_list_of(text@) is None,
        },
{
    let t = trim_str(text);
    let n = t.unicode_len();
    let mut cpus: Vec<i32> = Vec::new();
    let mut i: usize = 0;
    loop
        invariant
            0 <= i <= n,
            n == t@.len(),
            t@ == trim(text@),
            cpu_list_from(t@, 0) == (match cpu_list_from(t@, i as int) {
                None => None::<Seq<i32>>,
                Some(rest) => Some(cpus@ + rest),
            }),
        decreases n - i,
    {
        // locate the end of the token that begins at i
        let mut e = i;
        while e < n && t.get_char(e) != ','
            invariant
                i <= e <= n,
                n == t@.len(),
                forall|j: int| i <= j < e ==> t@[j] != ',',
            decreases n - e,
        {
            e = e + 1;
        }
        proof {
            lemma_find_from_is(t@, ',', i as int, e as int);
        }
        let ghost before = cpus@;
        let ok = push_token_cpus(t, i, e, &mut cpus);
        if !ok {
            return Err(TopologyError {});
        }
        if e == n {
            proof {
                assert(cpu_list_from(t@, i as int) == token_cpus(
                    t@.subrange(i as int, e as int),
                ));
                assert(cpus@ =~= before + token_cpus(t@.subrange(i as int, e as int)).unwrap());
            }
            return Ok(cpus);
        }
        proof {
            let cs = token_cpus(t@.subrange(i as int, e as int)).unwrap();
            assert(cpus@ =~= before + cs);
            assert forall|rest: Seq<i32>| true implies (before + cs) + rest =~= before + (cs
                + rest) by {}
            if cpu_list_from(t@, e + 1) is Some {
                let rest = cpu_list_from(t@, e + 1).unwrap();
                assert((before + cs) + rest =~= before + (cs + rest));
            }
        }
        i = e + 1;
    }
}

// ---------------------------------------------------------------------------
// Kernel release version
// ---------------------------------------------------------------------------

/// The (major, minor) pair of a kernel release string: the first two
/// dot-separated components, both plain decimal numbers. Suffixes on the
/// minor component ("6.1-rc3") are rejected, not stripped.
pub open spec fn version_of(s: Seq<char>) -> Option<(u32, u32)> {
    let d1 = find_from(s, '.', 0);
    if d1 == s.len() {
        None
    } else {
        let major = s.subrange(0, d1);
        let minor = s.subrange(d1 + 1, find_from(s, '.', d1 + 1));
        if major.len() > 0 && all_dec_digits(major) && dec_val(major) <= u32::MAX && minor.len()
            > 0 && all_dec_digits(minor) && dec_val(minor) <= u32::MAX {
            Some((dec_val(major) as u32, dec_val(minor) as u32))
        } else {
            None
        }
    }
}

/// Why a kernel release string failed to parse.
#[derive(Clone, Copy, PartialEq, Eq, Structural, Debug)]
pub enum VersionError {
    /// Fewer than two dot-separated components.
    TooFewComponents,
    /// A component that is not a plain decimal number fitting in 32 bits.
    BadComponent,
}

/// Extracts the (major, minor) version pair from a kernel release string
/// such as "6.1.0-generic".
pub fn parse_kernel_release(release: &str) -> (r: Result<(u32, u32), VersionError>)
    ensures
        match r {
            Ok(v) => version_of(release@) == Some(v),
            Err(VersionError::TooFewComponents) => version_of(release@) is None && find_from(
                release@,
                '.',
                0,
            ) == release@.len(),
            Err(VersionError::BadComponent) => version_of(release@) is None && find_from(
                release@,
                '.',
                0,
            ) < release@.len(),
        },
{
    let n = release.unicode_len();
    // locate the first dot
    let mut d1: usize = 0;
    while d1 < n && release.get_char(d1) != '.'
        invariant
            0 <= d1 <= n,
            n == release@.len(),
            forall|j: int| 0 <= j < d1 ==> release@[j] != '.',
        decreases n - d1,
    {
        d1 = d1 + 1;
    }
    proof {
        lemma_find_from_is(release@, '.', 0, d1 as int);
    }
    if d1 == n {
        return Err(VersionError::TooFewComponents);
    }
    // locate the second dot (or the end)
    let mut d2: usize = d1 + 1;
    while d2 < n && release.get_char(d2) != '.'
        invariant
            d1 + 1 <= d2 <= n,
            n == release@.len(),
            forall|j: int| d1 + 1 <= j < d2 ==> release@[j] != '.',
        decreases n - d2,
    {
        d2 = d2 + 1;
    }
    proof {
        lemma_find_from_is(release@, '.', d1 + 1, d2 as int);
    }
    let major = match parse_dec_u64(release, 0, d1) {
        Some(v) => v,
        None => {
            return Err(VersionError::BadComponent);
        },
    };
    let minor = match parse_dec_u64(release, d1 + 1, d2) {
        Some(v) => v,
        None => {
            return Err(VersionError::BadComponent);
        },
    };
    if major > 0xffff_ffff || minor > 0xffff_ffff {
        return Err(VersionError::BadComponent);
    }
    Ok((major as u32, minor as u32))
}

} // verus!
