//! Parsing of human-readable size strings such as `10mb` into byte counts.
//!
//! The grammar is strict: optional surrounding ASCII whitespace, then a run
//! of decimal digits, then a unit token, matched case-insensitively. The
//! recognized units are `b` and `bytes` (1 byte), `kb` (1024), `mb` (1024^2)
//! and `gb` (1024^3).

use vstd::prelude::*;
use vstd::string::StrSliceExecFns;
use vstd::string::StringSliceAdditionalSpecFns;
use crate::errors::CryptError;

verus! {

/// ASCII whitespace: space, tab, line feed, vertical tab, form feed,
/// carriage return.
pub open spec fn is_ascii_space(b: u8) -> bool {
    b == 32 || (9 <= b && b <= 13)
}

/// An ASCII decimal digit.
pub open spec fn is_ascii_digit(b: u8) -> bool {
    48 <= b && b <= 57
}

/// ASCII lowercasing of one byte; bytes outside `A`..`Z` pass unchanged.
pub open spec fn to_lower(b: u8) -> u8 {
    if 65 <= b && b <= 90 {
        (b + 32) as u8
    } else {
        b
    }
}

/// `s` with its leading ASCII whitespace removed.
pub open spec fn trim_front(s: Seq<u8>) -> Seq<u8>
    decreases s.len(),
{
    if s.len() > 0 && is_ascii_space(s[0]) {
        trim_front(s.skip(1))
    } else {
        s
    }
}

/// `s` with its trailing ASCII whitespace removed.
pub open spec fn trim_back(s: Seq<u8>) -> Seq<u8>
    decreases s.len(),
{
    if s.len() > 0 && is_ascii_space(s.last()) {
        trim_back(s.drop_last())
    } else {
        s
    }
}

/// `s` with both leading and trailing ASCII whitespace removed.
pub open spec fn trimmed(s: Seq<u8>) -> Seq<u8> {
    trim_back(trim_front(s))
}

/// The length of the run of decimal digits that opens `s`.
pub open spec fn digit_run(s: Seq<u8>) -> int
    decreases s.len(),
{
    if s.len() > 0 && is_ascii_digit(s[0]) {
        1 + digit_run(s.skip(1))
    } else {
        0
    }
}

/// The value of a run of decimal digits read as a base-10 numeral.
pub open spec fn digits_value(d: Seq<u8>) -> int
    decreases d.len(),
{
    if d.len() == 0 {
        0
    } else {
        digits_value(d.drop_last()) * 10 + d.last() - 48
    }
}

/// `s` with every byte lowercased.
pub open spec fn lower_seq(s: Seq<u8>) -> Seq<u8> {
    s.map_values(|b: u8| to_lower(b))
}

/// How many bytes one unit of the (already lowercased) unit token `u`
/// stands for, or `None` when the token is not recognized.
pub open spec fn unit_multiplier(u: Seq<u8>) -> Option<int> {
    if u.len() == 1 && u[0] == 98 {  // "b"
        Some(1)
    } else if u.len() == 5 && u[0] == 98 && u[1] == 121 && u[2] == 116 && u[3] == 101 && u[4]
        == 115 {  // "bytes"
        Some(1)
    } else if u.len() == 2 && u[0] == 107 && u[1] == 98 {  // "kb"
        Some(1024)
    } else if u.len() == 2 && u[0] == 109 && u[1] == 98 {  // "mb"
        Some((1024 * 1024) as int)
    } else if u.len() == 2 && u[0] == 103 && u[1] == 98 {  // "gb"
        Some((1024 * 1024 * 1024) as int)
    } else {
        None
    }
}

/// What parsing the byte content `s` of a size string returns, for every
/// input: the trimmed text must open with at least one digit whose numeral
/// fits the machine (else `InvalidNumber`), the rest must be a recognized
/// unit (else `UnknownUnit`), and the product of magnitude and unit must fit
/// the machine (else `SizeOverflow`).
pub open spec fn parse_size_spec(s: Seq<u8>) -> Result<usize, CryptError> {
    let t = trimmed(s);
    let k = digit_run(t);
    let magnitude = digits_value(t.take(k));
    if k == 0 || magnitude > usize::MAX as int {
        Err(CryptError::InvalidNumber)
    } else {
        match unit_multiplier(lower_seq(t.skip(k))) {
            Option::None => Err(CryptError::UnknownUnit),
            Option::Some(m) => if magnitude * m > usize::MAX as int {
                Err(CryptError::SizeOverflow)
            } else {
                Ok((magnitude * m) as usize)
            },
        }
    }
}

/// A size string made of a digit run followed by a recognized unit token is
/// trimmed already and splits back into exactly those two parts.
proof fn lemma_well_formed_split(digits: Seq<u8>, unit: Seq<u8>)
    requires
        digits.len() > 0,
        forall|j: int| 0 <= j < digits.len() ==> is_ascii_digit(digits[j]),
        unit.len() > 0 ==> !is_ascii_digit(unit[0]) && !is_ascii_space(unit.last()),
    ensures
        trimmed(digits + unit) == digits + unit,
        digit_run(digits + unit) == digits.len(),
        (digits + unit).take(digits.len() as int) == digits,
        (digits + unit).skip(digits.len() as int) == unit,
{
    let s = digits + unit;
    assert(s[0] == digits[0]);
    assert(trim_front(s) == s);
    if unit.len() > 0 {
        assert(s.last() == unit.last());
    } else {
        assert(s.last() == digits.last());
    }
    assert(trim_back(s) == s);
    assert forall|j: int| 0 <= j < digits.len() implies is_ascii_digit(s[j]) by {
        assert(s[j] == digits[j]);
    }
    if (digits.len() as int) < s.len() {
        assert(s[digits.len() as int] == unit[0]);
    }
    lemma_digit_run_exact(s, digits.len() as int);
    assert(s.take(digits.len() as int) =~= digits);
    assert(s.skip(digits.len() as int) =~= unit);
}

/// For every well-formed size string `<n><unit>` whose byte count fits the
/// machine, parsing yields exactly `n` times the unit's multiplier.
pub proof fn lemma_parse_size_valid(digits: Seq<u8>, unit: Seq<u8>)
    requires
        digits.len() > 0,
        forall|j: int| 0 <= j < digits.len() ==> is_ascii_digit(digits[j]),
        unit_multiplier(lower_seq(unit)) is Some,
        digits_value(digits) * unit_multiplier(lower_seq(unit)).unwrap() <= usize::MAX as int,
    ensures
        parse_size_spec(digits + unit) == Ok::<usize, CryptError>(
            (digits_value(digits) * unit_multiplier(lower_seq(unit)).unwrap()) as usize,
        ),
{
    let u = lower_seq(unit);
    let m = unit_multiplier(u).unwrap();
    assert(u.len() == unit.len());
    assert(u[0] == to_lower(unit[0]));
    assert(u.last() == to_lower(unit.last()));
    lemma_well_formed_split(digits, unit);
    lemma_digits_value_nonneg(digits);
    assert(digits_value(digits) * 1 <= digits_value(digits) * m) by (nonlinear_arith)
        requires
            digits_value(digits) >= 0,
            1 <= m,
    ;
}

/// For every string of a valid magnitude followed by an unrecognized unit
/// token, parsing fails with `UnknownUnit`.
pub proof fn lemma_parse_size_unknown_unit(digits: Seq<u8>, unit: Seq<u8>)
    requires
        digits.len() > 0,
        forall|j: int| 0 <= j < digits.len() ==> is_ascii_digit(digits[j]),
        digits_value(digits) <= usize::MAX as int,
        unit.len() > 0 ==> !is_ascii_digit(unit[0]) && !is_ascii_space(unit.last()),
        unit_multiplier(lower_seq(unit)) is None,
    ensures
        parse_size_spec(digits + unit) == Err::<usize, CryptError>(CryptError::UnknownUnit),
{
    lemma_well_formed_split(digits, unit);
    lemma_digits_value_nonneg(digits);
}

fn is_space_byte(b: u8) -> (r: bool)
    ensures
        r == is_ascii_space(b),
{
    b == 32 || (9 <= b && b <= 13)
}

fn is_digit_byte(b: u8) -> (r: bool)
    ensures
        r == is_ascii_digit(b),
{
    48 <= b && b <= 57
}

fn lower_byte(b: u8) -> (r: u8)
    ensures
        r == to_lower(b),
{
    if 65 <= b && b <= 90 {
        b + 32
    } else {
        b
    }
}

/// A digit run is exactly `n` long when the first `n` bytes are digits and
/// the byte after them, if any, is not.
proof fn lemma_digit_run_exact(t: Seq<u8>, n: int)
    requires
        0 <= n <= t.len(),
        forall|j: int| 0 <= j < n ==> is_ascii_digit(t[j]),
        n < t.len() ==> !is_ascii_digit(t[n]),
    ensures
        digit_run(t) == n,
    decreases n,
{
    if n == 0 {
    } else {
        assert(is_ascii_digit(t[0]));
        assert forall|j: int| 0 <= j < n - 1 implies is_ascii_digit(t.skip(1)[j]) by {
            assert(t.skip(1)[j] == t[j + 1]);
        }
        if n - 1 < t.skip(1).len() {
            assert(t.skip(1)[n - 1] == t[n]);
        }
        lemma_digit_run_exact(t.skip(1), n - 1);
    }
}

/// A numeral of digits is non-negative.
proof fn lemma_digits_value_nonneg(d: Seq<u8>)
    requires
        forall|j: int| 0 <= j < d.len() ==> is_ascii_digit(d[j]),
    ensures
        digits_value(d) >= 0,
    decreases d.len(),
{
    if d.len() > 0 {
        assert forall|j: int| 0 <= j < d.drop_last().len() implies is_ascii_digit(
            d.drop_last()[j],
        ) by {
            assert(d.drop_last()[j] == d[j]);
        }
        lemma_digits_value_nonneg(d.drop_last());
    }
}

/// A prefix of a numeral never exceeds the whole numeral in value.
proof fn lemma_digits_value_prefix_le(d: Seq<u8>, m: int)
    requires
        0 <= m <= d.len(),
        forall|j: int| 0 <= j < d.len() ==> is_ascii_digit(d[j]),
    ensures
        digits_value(d.take(m)) <= digits_value(d),
    decreases d.len() - m,
{
    if m < d.len() {
        assert forall|j: int| 0 <= j < d.take(m).len() implies is_ascii_digit(d.take(m)[j]) by {
            assert(d.take(m)[j] == d[j]);
        }
        lemma_digits_value_nonneg(d.take(m));
        assert(d.take(m + 1).drop_last() =~= d.take(m));
        assert(d.take(m + 1).last() == d[m]);
        assert(digits_value(d.take(m + 1)) == digits_value(d.take(m)) * 10 + d[m] - 48);
        lemma_digits_value_prefix_le(d, m + 1);
    } else {
        assert(d.take(m) =~= d);
    }
}

/// Parses a size string into a byte count, exactly as `parse_size_spec`
/// says of the string's bytes.
#[verifier::loop_isolation(false)]
#[verifier::rlimit(60)]
pub fn parse_size(s: &str) -> (r: Result<usize, CryptError>)
    ensures
        r == parse_size_spec(s.spec_bytes()),
{
    let b = s.as_bytes_vec();
    let ghost sq = s.spec_bytes();
    let n = b.len();

    // Trim leading ASCII whitespace.
    proof {
        assert(sq.skip(0) =~= sq);
    }
    let mut lo: usize = 0;
    while lo < n && is_space_byte(*b.get(lo).unwrap())
        invariant
            0 <= lo <= n,
            n == sq.len(),
            b@ == sq,
            trim_front(sq) == trim_front(sq.skip(lo as int)),
        decreases n - lo,
    {
        proof {
            assert(sq.skip(lo as int).len() > 0);
            assert(sq.skip(lo as int)[0] == sq[lo as int]);
            assert(sq.skip(lo as int).skip(1) =~= sq.skip(lo as int + 1));
        }
        lo = lo + 1;
    }
    proof {
        if lo == n {
            assert(sq.skip(lo as int).len() == 0);
        } else {
            assert(sq.skip(lo as int)[0] == sq[lo as int]);
        }
        assert(trim_front(sq) == sq.skip(lo as int));
    }

    // Trim trailing ASCII whitespace.
    let mut hi: usize = n;
    proof {
        assert(sq.skip(lo as int) =~= sq.subrange(lo as int, hi as int));
    }
    while hi > lo && is_space_byte(*b.get(hi - 1).unwrap())
        invariant
            0 <= lo <= hi <= n,
            n == sq.len(),
            b@ == sq,
            trim_front(sq) == sq.skip(lo as int),
            trim_back(sq.skip(lo as int)) == trim_back(sq.subrange(lo as int, hi as int)),
        decreases hi,
    {
        proof {
            let cur = sq.subrange(lo as int, hi as int);
            assert(cur.len() > 0);
            assert(cur.last() == sq[hi - 1]);
            assert(cur.drop_last() =~= sq.subrange(lo as int, hi as int - 1));
        }
        hi = hi - 1;
    }
    let ghost t = sq.subrange(lo as int, hi as int);
    proof {
        if hi == lo {
            assert(t.len() == 0);
        } else {
            assert(t.last() == sq[hi - 1]);
        }
        assert(trimmed(sq) == t);
    }

    // The run of digits that opens the trimmed text.
    let mut k: usize = lo;
    while k < hi && is_digit_byte(*b.get(k).unwrap())
        invariant
            lo <= k <= hi <= n,
            n == sq.len(),
            b@ == sq,
            forall|j: int| lo <= j < k ==> is_ascii_digit(sq[j]),
        decreases hi - k,
    {
        k = k + 1;
    }
    proof {
        assert forall|j: int| 0 <= j < k - lo implies is_ascii_digit(t[j]) by {
            assert(t[j] == sq[lo + j]);
        }
        if k < hi {
            assert(t[k - lo] == sq[k as int]);
        }
        lemma_digit_run_exact(t, k as int - lo);
    }
    let ghost digits = t.take(k as int - lo);

    if k == lo {
        return Err(CryptError::InvalidNumber);
    }

    // The magnitude, refused when it does not fit the machine.
    let mut magnitude: usize = 0;
    let mut idx: usize = lo;
    while idx < k
        invariant
            lo <= idx <= k <= hi <= n,
            n == sq.len(),
            b@ == sq,
            digits == t.take(k as int - lo),
            t == sq.subrange(lo as int, hi as int),
            forall|j: int| 0 <= j < digits.len() ==> is_ascii_digit(digits[j]),
            magnitude == digits_value(digits.take(idx as int - lo)),
        decreases k - idx,
    {
        let d = *b.get(idx).unwrap();
        proof {
            assert(digits[idx as int - lo] == sq[idx as int]);
        }
        let step = match magnitude.checked_mul(10) {
            Some(x) => x.checked_add((d - 48) as usize),
            None => None,
        };
        match step {
            Some(y) => {
                proof {
                    assert(digits.take(idx as int - lo + 1).drop_last() =~= digits.take(
                        idx as int - lo,
                    ));
                    assert(digits.take(idx as int - lo + 1).last() == digits[idx as int - lo]);
                }
                magnitude = y;
            },
            None => {
                proof {
                    lemma_digits_value_nonneg(digits.take(idx as int - lo));
                    assert(digits.take(idx as int - lo + 1).drop_last() =~= digits.take(
                        idx as int - lo,
                    ));
                    assert(digits.take(idx as int - lo + 1).last() == digits[idx as int - lo]);
                    assert(digits_value(digits.take(idx as int - lo + 1)) > usize::MAX as int);
                    lemma_digits_value_prefix_le(digits, idx as int - lo + 1);
                }
                return Err(CryptError::InvalidNumber);
            },
        }
        idx = idx + 1;
    }
    proof {
        assert(digits.take(k as int - lo) =~= digits);
    }

    // The unit token, matched case-insensitively.
    let ghost unit = lower_seq(t.skip(k as int - lo));
    proof {
        assert(unit.len() == hi - k);
        assert forall|j: int| 0 <= j < unit.len() implies unit[j] == to_lower(sq[k + j]) by {
            assert(t.skip(k as int - lo)[j] == t[k as int - lo + j]);
            assert(t[k as int - lo + j] == sq[k + j]);
        }
    }
    let ulen = hi - k;
    let multiplier: usize = if ulen == 1 && lower_byte(*b.get(k).unwrap()) == 98 {
        1
    } else if ulen == 5 && lower_byte(*b.get(k).unwrap()) == 98 && lower_byte(
        *b.get(k + 1).unwrap(),
    ) == 121 && lower_byte(*b.get(k + 2).unwrap()) == 116 && lower_byte(*b.get(k + 3).unwrap())
        == 101 && lower_byte(*b.get(k + 4).unwrap()) == 115 {
        1
    } else if ulen == 2 && lower_byte(*b.get(k).unwrap()) == 107 && lower_byte(
        *b.get(k + 1).unwrap(),
    ) == 98 {
        1024
    } else if ulen == 2 && lower_byte(*b.get(k).unwrap()) == 109 && lower_byte(
        *b.get(k + 1).unwrap(),
    ) == 98 {
        1024 * 1024
    } else if ulen == 2 && lower_byte(*b.get(k).unwrap()) == 103 && lower_byte(
        *b.get(k + 1).unwrap(),
    ) == 98 {
        1024 * 1024 * 1024
    } else {
        proof {
            assert(unit_multiplier(unit) is None);
        }
        return Err(CryptError::UnknownUnit);
    };
    proof {
        assert(unit_multiplier(unit) == Some(multiplier as int));
    }

    match magnitude.checked_mul(multiplier) {
        Some(total) => Ok(total),
        None => Err(CryptError::SizeOverflow),
    }
}

} // verus!
