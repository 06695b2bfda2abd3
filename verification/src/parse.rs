//! Parsing of DICOM decimal-string attribute values into fixed-point.
//!
//! A decimal string is at most sixteen bytes of optional sign, digits and an
//! optional fraction, possibly padded with spaces; a multi-valued attribute
//! separates its values with backslashes, of which the first value is taken.
//! The grammar here admits up to eighteen significant digits; the value is
//! truncated toward zero at the fixed-point grid, and a magnitude beyond the
//! fixed-point range is rejected like a malformed value.

use vstd::prelude::*;

use crate::fixed::Fixed;

verus! {

/// ASCII decimal digit.
pub open spec fn is_digit(b: u8) -> bool {
    48 <= b <= 57
}

/// The number written by a sequence of ASCII digits, most significant first.
pub open spec fn digits_val(s: Seq<u8>) -> int
    decreases s.len(),
{
    if s.len() == 0 {
        0
    } else {
        digits_val(s.drop_last()) * 10 + (s.last() - 48)
    }
}

/// The `n`-th power of ten.
pub open spec fn pow10(n: nat) -> int
    decreases n,
{
    if n == 0 {
        1
    } else {
        10 * pow10((n - 1) as nat)
    }
}

/// Index of the first multi-value separator (backslash) at or after `i`,
/// or the length if there is none.
pub open spec fn scan_sep(s: Seq<u8>, i: int) -> int
    decreases s.len() - i,
{
    if i < s.len() && s[i] != 92 {
        scan_sep(s, i + 1)
    } else {
        i
    }
}

/// Index of the first byte at or after `i`, before `end`, that is not an
/// ASCII space.
pub open spec fn skip_spaces(s: Seq<u8>, i: int, end: int) -> int
    decreases end - i,
{
    if i < end && i < s.len() && s[i] == 32 {
        skip_spaces(s, i + 1, end)
    } else {
        i
    }
}

/// Index of the first byte at or after `i`, before `end`, that is not an
/// ASCII digit.
pub open spec fn scan_digits(s: Seq<u8>, i: int, end: int) -> int
    decreases end - i,
{
    if i < end && i < s.len() && is_digit(s[i]) {
        scan_digits(s, i + 1, end)
    } else {
        i
    }
}

/// The fixed-point raw value written by the first component of the decimal
/// string `s`, if it is well formed: optional sign, at most eighteen digits
/// around an optional point, padded by spaces, truncated toward zero at the
/// fixed-point grid and rejected when beyond the fixed-point range.
pub open spec fn ds_raw(s: Seq<u8>) -> Option<i64> {
    let end = scan_sep(s, 0);
    let start = skip_spaces(s, 0, end);
    let neg = start < end && s[start] == 45;
    let num = if start < end && (s[start] == 43 || s[start] == 45) {
        start + 1
    } else {
        start
    };
    let ipart_end = scan_digits(s, num, end);
    let fpart_start = if ipart_end < end && s[ipart_end] == 46 {
        ipart_end + 1
    } else {
        ipart_end
    };
    let fpart_end = if ipart_end < end && s[ipart_end] == 46 {
        scan_digits(s, fpart_start, end)
    } else {
        ipart_end
    };
    let rest = skip_spaces(s, fpart_end, end);
    let digits = s.subrange(num, ipart_end) + s.subrange(fpart_start, fpart_end);
    if rest == end && 1 <= digits.len() <= 18 {
        let mag = (digits_val(digits) * 65536) / pow10((fpart_end - fpart_start) as nat);
        if mag <= i64::MAX {
            if neg {
                Some((-mag) as i64)
            } else {
                Some(mag as i64)
            }
        } else {
            None
        }
    } else {
        None
    }
}

/// Powers of ten are positive.
proof fn lemma_pow10_pos(n: nat)
    ensures
        pow10(n) >= 1,
    decreases n,
{
    if n > 0 {
        lemma_pow10_pos((n - 1) as nat);
    }
}

/// Powers of ten grow with the exponent.
proof fn lemma_pow10_le(a: nat, b: nat)
    requires
        a <= b,
    ensures
        pow10(a) <= pow10(b),
    decreases b,
{
    if a < b {
        lemma_pow10_le(a, (b - 1) as nat);
        lemma_pow10_pos((b - 1) as nat);
    }
}

/// Every position of a digit run found by [`scan_digits`] holds a digit.
proof fn lemma_scan_digits_run(s: Seq<u8>, i: int, end: int, j: int)
    requires
        0 <= i <= j,
        j < scan_digits(s, i, end),
    ensures
        j < s.len() && is_digit(s[j]),
    decreases j - i,
{
    if i < j {
        lemma_scan_digits_run(s, i + 1, end, j);
    }
}

/// A digit scan is already complete at its own stopping point.
proof fn lemma_scan_digits_idem(s: Seq<u8>, i: int, end: int)
    ensures
        scan_digits(s, scan_digits(s, i, end), end) == scan_digits(s, i, end),
    decreases end - i,
{
    if i < end && i < s.len() && is_digit(s[i]) {
        lemma_scan_digits_idem(s, i + 1, end);
    }
}

/// Parses the first component of a decimal-string attribute value into a
/// fixed-point number, exactly as [`ds_raw`] describes; `None` is a
/// malformed value.
pub fn parse_ds(bytes: &Vec<u8>) -> (r: Option<Fixed>)
    ensures
        match r {
            Some(f) => ds_raw(bytes@) == Some(f.raw),
            None => ds_raw(bytes@) is None,
        },
{
    let ghost s = bytes@;
    let n = bytes.len();
    // cut at the first multi-value separator
    let mut end: usize = 0;
    while end < n
        invariant
            0 <= end <= n,
            n == s.len(),
            s == bytes@,
            scan_sep(s, 0) == scan_sep(s, end as int),
        ensures
            0 <= end <= n,
            scan_sep(s, 0) == end,
        decreases n - end,
    {
        if bytes[end] == 92 {
            break;
        }
        end = end + 1;
    }
    // leading spaces
    let mut start: usize = 0;
    while start < end
        invariant
            0 <= start <= end <= n,
            n == s.len(),
            s == bytes@,
            skip_spaces(s, 0, end as int) == skip_spaces(s, start as int, end as int),
        ensures
            0 <= start <= end,
            skip_spaces(s, 0, end as int) == start,
        decreases end - start,
    {
        if bytes[start] != 32 {
            break;
        }
        start = start + 1;
    }
    // optional sign
    let mut neg = false;
    let mut num = start;
    if start < end && (bytes[start] == 43 || bytes[start] == 45) {
        neg = bytes[start] == 45;
        num = start + 1;
    }
    // whole digits
    let mut ipart_end: usize = num;
    while ipart_end < end
        invariant
            num <= ipart_end <= end <= n,
            n == s.len(),
            s == bytes@,
            scan_digits(s, num as int, end as int) == scan_digits(s, ipart_end as int, end as int),
        ensures
            num <= ipart_end <= end,
            scan_digits(s, num as int, end as int) == ipart_end,
        decreases end - ipart_end,
    {
        if !(bytes[ipart_end] >= 48 && bytes[ipart_end] <= 57) {
            break;
        }
        ipart_end = ipart_end + 1;
    }
    // optional fraction digits
    let mut fpart_start: usize = ipart_end;
    let mut fpart_end: usize = ipart_end;
    if ipart_end < end && bytes[ipart_end] == 46 {
        fpart_start = ipart_end + 1;
        fpart_end = fpart_start;
        while fpart_end < end
            invariant
                fpart_start <= fpart_end <= end <= n,
                n == s.len(),
                s == bytes@,
            s == bytes@,
                scan_digits(s, fpart_start as int, end as int) == scan_digits(
                    s,
                    fpart_end as int,
                    end as int,
                ),
            ensures
                fpart_start <= fpart_end <= end,
                scan_digits(s, fpart_start as int, end as int) == fpart_end,
            decreases end - fpart_end,
        {
            if !(bytes[fpart_end] >= 48 && bytes[fpart_end] <= 57) {
                break;
            }
            fpart_end = fpart_end + 1;
        }
    }
    proof {
        lemma_scan_digits_idem(s, num as int, end as int);
    }
    // trailing spaces
    let mut rest: usize = fpart_end;
    while rest < end
        invariant
            fpart_end <= rest <= end <= n,
            n == s.len(),
            s == bytes@,
            skip_spaces(s, fpart_end as int, end as int) == skip_spaces(s, rest as int, end as int),
        ensures
            fpart_end <= rest <= end,
            skip_spaces(s, fpart_end as int, end as int) == rest,
        decreases end - rest,
    {
        if bytes[rest] != 32 {
            break;
        }
        rest = rest + 1;
    }
    let ghost digits = s.subrange(num as int, ipart_end as int) + s.subrange(
        fpart_start as int,
        fpart_end as int,
    );
    let icount = ipart_end - num;
    let fcount = fpart_end - fpart_start;
    if !(rest == end && 1 <= icount + fcount && icount + fcount <= 18) {
        proof {
            assert(digits.len() == icount + fcount);
        }
        return None;
    }
    proof {
        assert(digits.len() == icount + fcount);
    }
    // accumulate the mantissa over the whole and fraction digit runs
    let mut acc: u64 = 0;
    let mut j: usize = num;
    while j < ipart_end
        invariant
            num <= j <= ipart_end <= end <= n,
            n == s.len(),
            s == bytes@,
            ipart_end - num + fcount <= 18,
            fcount == fpart_end - fpart_start,
            scan_digits(s, num as int, end as int) == ipart_end,
            acc == digits_val(s.subrange(num as int, j as int)),
            acc < pow10((j - num) as nat),
        decreases ipart_end - j,
    {
        proof {
            assert(s.subrange(num as int, j as int + 1).drop_last() =~= s.subrange(
                num as int,
                j as int,
            ));
            lemma_scan_digits_run(s, num as int, end as int, j as int);
            lemma_pow10_le((j - num) as nat, 18);
            lemma_pow10_le(((j + 1) - num) as nat, 18);
            assert(pow10(18) == 1000000000000000000) by {
                reveal_with_fuel(pow10, 19);
            }
        }
        acc = acc * 10 + ((bytes[j] - 48) as u64);
        j = j + 1;
    }
    proof {
        assert(s.subrange(num as int, ipart_end as int) + s.subrange(
            fpart_start as int,
            fpart_start as int,
        ) =~= s.subrange(num as int, ipart_end as int));
    }
    let mut j2: usize = fpart_start;
    while j2 < fpart_end
        invariant
            fpart_start <= j2 <= fpart_end <= end <= n,
            n == s.len(),
            s == bytes@,
            num <= ipart_end,
            ipart_end - num + (fpart_end - fpart_start) <= 18,
            scan_digits(s, fpart_start as int, end as int) == fpart_end,
            acc == digits_val(
                s.subrange(num as int, ipart_end as int) + s.subrange(
                    fpart_start as int,
                    j2 as int,
                ),
            ),
            acc < pow10(((ipart_end - num) + (j2 - fpart_start)) as nat),
        decreases fpart_end - j2,
    {
        proof {
            assert((s.subrange(num as int, ipart_end as int) + s.subrange(
                fpart_start as int,
                j2 as int + 1,
            )).drop_last() =~= s.subrange(num as int, ipart_end as int) + s.subrange(
                fpart_start as int,
                j2 as int,
            ));
            lemma_scan_digits_run(s, fpart_start as int, end as int, j2 as int);
            lemma_pow10_le(((ipart_end - num) + (j2 - fpart_start)) as nat, 18);
            lemma_pow10_le(((ipart_end - num) + (j2 + 1 - fpart_start)) as nat, 18);
            assert(pow10(18) == 1000000000000000000) by {
                reveal_with_fuel(pow10, 19);
            }
        }
        acc = acc * 10 + ((bytes[j2] - 48) as u64);
        j2 = j2 + 1;
    }
    proof {
        assert(acc == digits_val(digits));
        lemma_pow10_le((icount + fcount) as nat, 18);
        assert(pow10(18) == 1000000000000000000) by {
            reveal_with_fuel(pow10, 19);
        }
        assert(acc < 1000000000000000000);
    }
    // scale by the fraction length
    let mut den: u64 = 1;
    let mut k: usize = 0;
    while k < fcount
        invariant
            0 <= k <= fcount <= 18,
            den == pow10(k as nat),
            den <= pow10(18),
            pow10(18) == 1000000000000000000,
        decreases fcount - k,
    {
        proof {
            lemma_pow10_le((k + 1) as nat, 18);
        }
        den = den * 10;
        k = k + 1;
    }
    proof {
        lemma_pow10_pos(fcount as nat);
    }
    let mag: u128 = ((acc as u128) * 65536) / (den as u128);
    proof {
        vstd::arithmetic::div_mod::lemma_div_pos_is_pos((acc as int) * 65536, den as int);
    }
    if mag > i64::MAX as u128 {
        return None;
    }
    if neg {
        Some(Fixed { raw: -(mag as i64) })
    } else {
        Some(Fixed { raw: mag as i64 })
    }
}

} // verus!
