//! Verified parsing of the decimal integer that follows the success
//! marker in a node reply: an optional sign, then one or more decimal
//! digits, with a value that must fit in `i64`.

use vstd::prelude::*;
use vstd::string::*;

verus! {

/// `c` is a decimal digit `'0'..='9'`.
pub open spec fn is_digit(c: char) -> bool {
    48 <= (c as u32) && (c as u32) <= 57
}

/// Numeric value of the digit `c`.
pub open spec fn digit_val(c: char) -> int {
    (c as u32) - 48
}

/// Every character of `s` is a decimal digit.
pub open spec fn all_digits(s: Seq<char>) -> bool {
    forall|i: int| 0 <= i < s.len() ==> is_digit(s[i])
}

/// Value of `s` read as a big-endian sequence of decimal digits.
pub open spec fn dec_val(s: Seq<char>) -> int
    decreases s.len(),
{
    if s.len() == 0 {
        0
    } else {
        dec_val(s.drop_last()) * 10 + digit_val(s.last())
    }
}

/// Value of `s` read as an optionally signed decimal integer, or `None`
/// when `s` is not of that form or its magnitude exceeds `i64::MAX`.
pub open spec fn spec_parse_i64(s: Seq<char>) -> Option<int> {
    let digits = if s.len() > 0 && (s[0] == '-' || s[0] == '+') {
        s.subrange(1, s.len() as int)
    } else {
        s
    };
    if digits.len() > 0 && all_digits(digits) && dec_val(digits) <= i64::MAX {
        if s.len() > 0 && s[0] == '-' {
            Some(-dec_val(digits))
        } else {
            Some(dec_val(digits))
        }
    } else {
        None
    }
}

/// A sequence of digits has a non-negative value.
proof fn lemma_dec_val_nonneg(s: Seq<char>)
    requires
        all_digits(s),
    ensures
        dec_val(s) >= 0,
    decreases s.len(),
{
    if s.len() > 0 {
        assert(all_digits(s.drop_last()));
        lemma_dec_val_nonneg(s.drop_last());
    }
}

/// Extending a digit sequence on the right cannot decrease its value.
proof fn lemma_dec_val_prefix_le(s: Seq<char>, k: int)
    requires
        all_digits(s),
        0 <= k <= s.len(),
    ensures
        dec_val(s.subrange(0, k)) <= dec_val(s),
    decreases s.len() - k,
{
    if k == s.len() {
        assert(s.subrange(0, k) =~= s);
    } else {
        let shorter = s.subrange(0, k);
        let longer = s.subrange(0, k + 1);
        assert(longer.drop_last() =~= shorter);
        assert(all_digits(shorter));
        lemma_dec_val_nonneg(shorter);
        assert(dec_val(longer) == dec_val(shorter) * 10 + digit_val(longer.last()));
        assert(dec_val(shorter) <= dec_val(longer));
        lemma_dec_val_prefix_le(s, k + 1);
    }
}

/// Reads `s[from..to]` as an optionally signed decimal integer: returns
/// exactly the value that `spec_parse_i64` gives that slice, and `None`
/// exactly when `spec_parse_i64` does (malformed text, or magnitude
/// beyond `i64::MAX`).
#[verifier::loop_isolation(false)]
pub fn parse_i64_range(s: &str, from: usize, to: usize) -> (r: Option<i64>)
    requires
        from <= to,
        to <= s@.len(),
    ensures
        match r {
            Some(v) => spec_parse_i64(s@.subrange(from as int, to as int)) == Some(v as int),
            None => spec_parse_i64(s@.subrange(from as int, to as int)) is None,
        },
{
    let ghost slice = s@.subrange(from as int, to as int);
    let s_len = s.unicode_len();
    if from == to {
        return None;
    }
    let first = s.get_char(from);
    assert(slice[0] == s@[from as int]);
    assert(slice.len() == to - from);
    let negative = first == '-';
    let dstart: usize = if first == '-' || first == '+' {
        from + 1
    } else {
        from
    };
    let ghost digits = s@.subrange(dstart as int, to as int);
    proof {
        if dstart > from {
            assert(digits =~= slice.subrange(1, slice.len() as int));
        } else {
            assert(digits =~= slice);
        }
    }
    if dstart == to {
        return None;
    }
    let mut mag: u64 = 0;
    let mut k = dstart;
    let max_mag: u64 = 9223372036854775807u64;
    while k < to
        invariant
            dstart <= k <= to,
            to <= s_len,
            s_len == s@.len(),
            digits == s@.subrange(dstart as int, to as int),
            all_digits(s@.subrange(dstart as int, k as int)),
            mag == dec_val(s@.subrange(dstart as int, k as int)),
            mag <= max_mag,
            max_mag == i64::MAX,
        decreases to - k,
    {
        let c = s.get_char(k);
        let code = c as u32;
        let ghost prefix = s@.subrange(dstart as int, k as int);
        let ghost next_prefix = s@.subrange(dstart as int, k + 1);
        proof {
            assert(next_prefix.drop_last() =~= prefix);
            assert(next_prefix.last() == s@[k as int]);
        }
        if code < 48 || code > 57 {
            // A non-digit inside the slice: the grammar rejects it.
            assert(!is_digit(digits[k - dstart]));
            return None;
        }
        let digit = (code - 48) as u64;
        if mag > (max_mag - digit) / 10 {
            // The value would exceed i64::MAX; whatever follows, the
            // grammar rejects the slice.
            proof {
                assert(mag * 10 + digit > max_mag) by (nonlinear_arith)
                    requires
                        mag > (max_mag - digit) / 10,
                        digit <= 9,
                        max_mag > 0,
                ;
                assert(dec_val(next_prefix) > i64::MAX);
                if all_digits(digits) {
                    assert(forall|i: int| 0 <= i < to - dstart ==> is_digit(digits[i]));
                    assert(all_digits(s@.subrange(dstart as int, to as int)));
                    assert(next_prefix =~= digits.subrange(0, k + 1 - dstart));
                    lemma_dec_val_prefix_le(digits, k + 1 - dstart);
                    assert(dec_val(digits) > i64::MAX);
                }
            }
            return None;
        }
        proof {
            assert(mag * 10 + digit <= max_mag) by (nonlinear_arith)
                requires
                    mag <= (max_mag - digit) / 10,
                    digit <= 9,
                    max_mag > 0,
            ;
        }
        mag = mag * 10 + digit;
        assert(all_digits(next_prefix));
        k += 1;
    }
    proof {
        assert(s@.subrange(dstart as int, k as int) =~= digits);
    }
    if negative {
        let v = -(mag as i64);
        assert(spec_parse_i64(slice) == Some(v as int));
        Some(v)
    } else {
        let v = mag as i64;
        assert(spec_parse_i64(slice) == Some(v as int));
        Some(v)
    }
}

} // verus!
