//! The stdout handshake protocol for port discovery.
//!
//! The backend announces its bound network port by writing one line of the
//! form `PYTHON_BACKEND_PORT:<port>` to its standard output, where `<port>`
//! is a base-10 unsigned 16-bit integer, optionally surrounded by
//! whitespace. Every other line is ignored for port purposes.

use vstd::prelude::*;

verus! {

/// The bytes of the fixed prefix `PYTHON_BACKEND_PORT:`.
pub open spec fn prefix_bytes() -> Seq<u8> {
    seq![
        80u8, 89u8, 84u8, 72u8, 79u8, 78u8, 95u8,
        66u8, 65u8, 67u8, 75u8, 69u8, 78u8, 68u8, 95u8,
        80u8, 79u8, 82u8, 84u8, 58u8,
    ]
}

/// Length of the fixed prefix, usable in executable code.
pub const PREFIX_LEN: usize = 20;

/// ASCII whitespace: space, tab, line feed, vertical tab, form feed,
/// carriage return.
pub open spec fn is_space(b: u8) -> bool {
    b == 32 || 9 <= b && b <= 13
}

/// ASCII decimal digit.
pub open spec fn is_digit(b: u8) -> bool {
    48 <= b && b <= 57
}

pub open spec fn all_spaces(s: Seq<u8>) -> bool {
    forall|i: int| 0 <= i < s.len() ==> is_space(s[i])
}

pub open spec fn all_digits(s: Seq<u8>) -> bool {
    forall|i: int| 0 <= i < s.len() ==> is_digit(s[i])
}

/// The sequence with leading and trailing whitespace removed.
pub open spec fn trim(s: Seq<u8>) -> Seq<u8>
    decreases s.len(),
{
    if s.len() > 0 && is_space(s.first()) {
        trim(s.drop_first())
    } else if s.len() > 0 && is_space(s.last()) {
        trim(s.drop_last())
    } else {
        s
    }
}

/// The value of a string of decimal digits, most significant first.
pub open spec fn digits_value(s: Seq<u8>) -> int
    decreases s.len(),
{
    if s.len() == 0 {
        0
    } else {
        10 * digits_value(s.drop_last()) + (s.last() - 48)
    }
}

/// A single leading plus sign is allowed before the digits, as the host's
/// integer parsing allows it.
pub open spec fn strip_plus(t: Seq<u8>) -> Seq<u8> {
    if t.len() > 0 && t[0] == 43 {
        t.drop_first()
    } else {
        t
    }
}

/// What parsing the remainder of a handshake line (after the prefix)
/// yields: the remainder is trimmed and an optional plus sign dropped; what
/// is left must be at least one decimal digit and denote a value that fits
/// in 16 bits.
pub open spec fn spec_parse_port(s: Seq<u8>) -> Option<u16> {
    let d = strip_plus(trim(s));
    if d.len() > 0 && all_digits(d) && digits_value(d) <= u16::MAX {
        Some(digits_value(d) as u16)
    } else {
        None
    }
}

/// Whether a line starts with the fixed handshake prefix.
pub open spec fn has_prefix(line: Seq<u8>) -> bool {
    line.len() >= prefix_bytes().len() && line.take(prefix_bytes().len() as int) == prefix_bytes()
}

/// The port a line announces, if any. Lines without the exact prefix, and
/// lines whose remainder does not parse as a 16-bit port, announce nothing.
pub open spec fn spec_parse_handshake(line: Seq<u8>) -> Option<u16> {
    if has_prefix(line) {
        spec_parse_port(line.skip(prefix_bytes().len() as int))
    } else {
        None
    }
}

fn byte_is_space(b: u8) -> (r: bool)
    ensures
        r == is_space(b),
{
    b == 32 || 9 <= b && b <= 13
}

fn byte_is_digit(b: u8) -> (r: bool)
    ensures
        r == is_digit(b),
{
    48 <= b && b <= 57
}

/// Whether a line starts with the fixed handshake prefix `PYTHON_BACKEND_PORT:`.
pub fn starts_with_prefix(line: &[u8]) -> (r: bool)
    ensures
        r == has_prefix(line@),
{
    let prefix: [u8; 20] = [
        80u8, 89u8, 84u8, 72u8, 79u8, 78u8, 95u8,
        66u8, 65u8, 67u8, 75u8, 69u8, 78u8, 68u8, 95u8,
        80u8, 79u8, 82u8, 84u8, 58u8,
    ];
    assert(prefix@ =~= prefix_bytes());
    if line.len() < PREFIX_LEN {
        return false;
    }
    let mut i: usize = 0;
    while i < PREFIX_LEN
        invariant
            0 <= i <= PREFIX_LEN,
            line@.len() >= PREFIX_LEN,
            prefix@ =~= prefix_bytes(),
            forall|j: int| 0 <= j < i ==> line@[j] == prefix_bytes()[j],
        decreases PREFIX_LEN - i,
    {
        if line[i] != prefix[i] {
            assert(line@.take(prefix_bytes().len() as int)[i as int] != prefix_bytes()[i as int]);
            return false;
        }
        i += 1;
    }
    assert(line@.take(prefix_bytes().len() as int) =~= prefix_bytes());
    true
}

/// Trimming a run of whitespace leaves nothing.
proof fn lemma_trim_all_spaces(s: Seq<u8>)
    requires
        all_spaces(s),
    ensures
        trim(s) == Seq::<u8>::empty(),
    decreases s.len(),
{
    if s.len() > 0 {
        assert(is_space(s.first()));
        assert forall|i: int| 0 <= i < s.drop_first().len() implies is_space(s.drop_first()[i]) by {
            assert(s.drop_first()[i] == s[i + 1]);
        }
        lemma_trim_all_spaces(s.drop_first());
    } else {
        assert(s =~= Seq::<u8>::empty());
    }
}

/// Trimming a sequence whose whitespace sits only at the two ends keeps
/// exactly the middle part.
proof fn lemma_trim_bounds(s: Seq<u8>, lo: int, hi: int)
    requires
        0 <= lo <= hi <= s.len(),
        forall|j: int| 0 <= j < lo ==> is_space(s[j]),
        forall|j: int| hi <= j < s.len() ==> is_space(s[j]),
        lo < hi ==> !is_space(s[lo]) && !is_space(s[hi - 1]),
    ensures
        trim(s) == s.subrange(lo, hi),
    decreases s.len(),
{
    if s.len() == 0 {
        assert(s.subrange(lo, hi) =~= s);
    } else if is_space(s.first()) {
        if lo > 0 {
            lemma_trim_bounds(s.drop_first(), lo - 1, hi - 1);
            assert(s.drop_first().subrange(lo - 1, hi - 1) =~= s.subrange(lo, hi));
        } else {
            // the first byte is whitespace yet sits at or past `lo`, so the
            // middle part is empty and the whole sequence is whitespace
            assert(lo == hi);
            assert forall|i: int| 0 <= i < s.drop_first().len() implies is_space(
                s.drop_first()[i],
            ) by {
                assert(s.drop_first()[i] == s[i + 1]);
            }
            lemma_trim_all_spaces(s.drop_first());
            assert(s.subrange(lo, hi) =~= Seq::<u8>::empty());
        }
    } else if is_space(s.last()) {
        // the first byte is not whitespace, so the middle part starts at 0
        // and ends before the whitespace tail
        assert(lo == 0);
        assert(hi < s.len());
        lemma_trim_bounds(s.drop_last(), lo, hi);
        assert(s.drop_last().subrange(lo, hi) =~= s.subrange(lo, hi));
    } else {
        assert(lo == 0);
        assert(hi == s.len());
        assert(s.subrange(0, s.len() as int) =~= s);
    }
}

proof fn lemma_digits_value_nonneg(s: Seq<u8>)
    requires
        all_digits(s),
    ensures
        digits_value(s) >= 0,
    decreases s.len(),
{
    if s.len() > 0 {
        assert forall|i: int| 0 <= i < s.drop_last().len() implies is_digit(s.drop_last()[i]) by {
            assert(s.drop_last()[i] == s[i]);
        }
        lemma_digits_value_nonneg(s.drop_last());
        assert(is_digit(s[s.len() - 1]));
    }
}

/// The value of a digit string grows by one digit at a time.
proof fn lemma_digits_step(s: Seq<u8>, k: int)
    requires
        0 <= k < s.len(),
    ensures
        digits_value(s.take(k + 1)) == 10 * digits_value(s.take(k)) + (s[k] - 48),
{
    assert(s.take(k + 1).drop_last() =~= s.take(k));
    assert(s.take(k + 1).last() == s[k]);
}

/// Extending a digit string on the right cannot decrease its value.
proof fn lemma_digits_value_prefix_le(s: Seq<u8>, k: int)
    requires
        all_digits(s),
        0 <= k <= s.len(),
    ensures
        digits_value(s.take(k)) <= digits_value(s),
    decreases s.len() - k,
{
    if k < s.len() {
        lemma_digits_step(s, k);
        assert forall|i: int| 0 <= i < s.take(k).len() implies is_digit(s.take(k)[i]) by {
            assert(s.take(k)[i] == s[i]);
        }
        lemma_digits_value_nonneg(s.take(k));
        assert(is_digit(s[k]));
        lemma_digits_value_prefix_le(s, k + 1);
    } else {
        assert(s.take(k) =~= s);
    }
}

/// Parse one line of backend output as a handshake line.
///
/// Returns the announced port for a line of the form
/// `PYTHON_BACKEND_PORT:<port>`, with optional whitespace around the
/// number, and `None` for every other line.
pub fn parse_handshake_line(line: &[u8]) -> (r: Option<u16>)
    ensures
        r == spec_parse_handshake(line@),
{
    if !starts_with_prefix(line) {
        return None;
    }
    let ghost rest: Seq<u8> = line@.skip(PREFIX_LEN as int);
    let n: usize = line.len();
    // find the first and last non-whitespace bytes of the remainder
    let mut lo: usize = PREFIX_LEN;
    while lo < n && byte_is_space(line[lo])
        invariant
            PREFIX_LEN <= lo <= n,
            n == line@.len(),
            forall|j: int| PREFIX_LEN <= j < lo ==> is_space(line@[j]),
        decreases n - lo,
    {
        lo += 1;
    }
    let mut hi: usize = n;
    while hi > lo && byte_is_space(line[hi - 1])
        invariant
            lo <= hi <= n,
            n == line@.len(),
            forall|j: int| hi <= j < n ==> is_space(line@[j]),
        decreases hi,
    {
        hi -= 1;
    }
    proof {
        assert forall|j: int| 0 <= j < lo - PREFIX_LEN implies is_space(rest[j]) by {
            assert(rest[j] == line@[j + PREFIX_LEN]);
        }
        assert forall|j: int| hi - PREFIX_LEN <= j < rest.len() implies is_space(rest[j]) by {
            assert(rest[j] == line@[j + PREFIX_LEN]);
        }
        if lo < hi {
            assert(rest[lo - PREFIX_LEN] == line@[lo as int]);
            assert(rest[hi - PREFIX_LEN - 1] == line@[hi - 1]);
        }
        lemma_trim_bounds(rest, lo - PREFIX_LEN, hi - PREFIX_LEN);
        assert(rest.subrange(lo - PREFIX_LEN, hi - PREFIX_LEN) =~= line@.subrange(
            lo as int,
            hi as int,
        ));
    }
    if lo == hi {
        // nothing but whitespace after the prefix
        return None;
    }
    let ghost t: Seq<u8> = trim(rest);
    let mut dlo: usize = lo;
    if line[dlo] == 43 {
        dlo += 1;
    }
    let ghost d: Seq<u8> = strip_plus(t);
    proof {
        assert(t[0] == line@[lo as int]);
        assert(d =~= line@.subrange(dlo as int, hi as int));
    }
    if dlo == hi {
        // nothing but a plus sign after the prefix
        return None;
    }
    let mut acc: u32 = 0;
    let mut i: usize = dlo;
    while i < hi
        invariant
            dlo <= i <= hi <= n,
            dlo < hi,
            n == line@.len(),
            rest == line@.skip(PREFIX_LEN as int),
            d == strip_plus(trim(rest)),
            d == line@.subrange(dlo as int, hi as int),
            has_prefix(line@),
            forall|j: int| dlo <= j < i ==> is_digit(line@[j]),
            acc <= 65535,
            acc == digits_value(d.take(i - dlo)),
        decreases hi - i,
    {
        let b = line[i];
        assert(d[i - dlo] == line@[i as int]);
        if !byte_is_digit(b) {
            assert(!all_digits(d));
            return None;
        }
        proof {
            lemma_digits_step(d, i - dlo);
        }
        acc = acc * 10 + (b - 48) as u32;
        if acc > 65535 {
            proof {
                if all_digits(d) {
                    lemma_digits_value_prefix_le(d, i + 1 - dlo);
                }
            }
            return None;
        }
        i += 1;
    }
    proof {
        assert(d.take(hi - dlo) =~= d);
        assert forall|j: int| 0 <= j < d.len() implies is_digit(d[j]) by {
            assert(d[j] == line@[dlo + j]);
        }
    }
    Some(acc as u16)
}

/// Law: every handshake line formed from the prefix, optional whitespace,
/// the decimal digits of a port value of at most 65535, and optional
/// trailing whitespace announces exactly that value.
pub proof fn lemma_valid_port_line_accepted(ws1: Seq<u8>, digits: Seq<u8>, ws2: Seq<u8>)
    requires
        all_spaces(ws1),
        all_spaces(ws2),
        digits.len() > 0,
        all_digits(digits),
        digits_value(digits) <= u16::MAX,
    ensures
        spec_parse_handshake(prefix_bytes() + ws1 + digits + ws2) == Some(
            digits_value(digits) as u16,
        ),
{
    let line = prefix_bytes() + ws1 + digits + ws2;
    let rest = ws1 + digits + ws2;
    let plen = prefix_bytes().len() as int;
    assert(line.take(plen) =~= prefix_bytes());
    assert(line.skip(plen) =~= rest);
    let lo = ws1.len() as int;
    let hi = lo + digits.len();
    assert forall|j: int| 0 <= j < lo implies is_space(rest[j]) by {
        assert(rest[j] == ws1[j]);
    }
    assert forall|j: int| hi <= j < rest.len() implies is_space(rest[j]) by {
        assert(rest[j] == ws2[j - hi]);
    }
    assert(rest[lo] == digits[0]);
    assert(rest[hi - 1] == digits[digits.len() - 1]);
    assert(is_digit(digits[0]) && is_digit(digits[digits.len() - 1]));
    lemma_trim_bounds(rest, lo, hi);
    assert(rest.subrange(lo, hi) =~= digits);
    assert(strip_plus(digits) == digits);
}

/// Law: a line that does not start with the exact prefix announces no port.
pub proof fn lemma_non_prefix_line_ignored(line: Seq<u8>)
    requires
        !has_prefix(line),
    ensures
        spec_parse_handshake(line) is None,
{
}

} // verus!
