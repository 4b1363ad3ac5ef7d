//! Parsing a word as a signed 64-bit decimal integer: an optional single
//! leading sign, then one or more ASCII digits and nothing else; a value
//! outside the 64-bit range does not parse.

use vstd::prelude::*;

verus! {

/// The byte is an ASCII decimal digit.
pub open spec fn spec_is_digit(b: u8) -> bool {
    48 <= b <= 57
}

/// Every byte of the sequence is a digit.
pub open spec fn all_digits(w: Seq<u8>) -> bool {
    forall|i: int| 0 <= i < w.len() ==> spec_is_digit(w[i])
}

/// The value of a digit sequence read in base ten (unsigned).
pub open spec fn digits_val(w: Seq<u8>) -> int
    decreases w.len(),
{
    if w.len() == 0 {
        0
    } else {
        digits_val(w.drop_last()) * 10 + (w.last() - 48)
    }
}

/// The magnitude part of a parse: at least one byte, all digits, and the
/// value within the bound set by the sign.
pub open spec fn parse_magnitude(d: Seq<u8>, neg: bool) -> Option<i64> {
    if d.len() > 0 && all_digits(d) {
        if !neg && digits_val(d) <= i64::MAX {
            Some(digits_val(d) as i64)
        } else if neg && digits_val(d) <= 9223372036854775808 {
            Some((-digits_val(d)) as i64)
        } else {
            None
        }
    } else {
        None
    }
}

/// What parsing a whole word as an `i64` yields: an optional single `+` or
/// `-` first, then digits only; empty words, stray bytes and out-of-range
/// values do not parse.
pub open spec fn spec_parse_i64(w: Seq<u8>) -> Option<i64> {
    if w.len() == 0 {
        None
    } else if w[0] == 45 {
        parse_magnitude(w.skip(1), true)
    } else if w[0] == 43 {
        parse_magnitude(w.skip(1), false)
    } else {
        parse_magnitude(w, false)
    }
}

/// The value of a digit sequence is never negative.
proof fn lemma_digits_val_nonneg(w: Seq<u8>)
    requires
        all_digits(w),
    ensures
        digits_val(w) >= 0,
    decreases w.len(),
{
    if w.len() > 0 {
        assert(all_digits(w.drop_last())) by {
            assert(forall|i: int| 0 <= i < w.len() - 1 ==> w.drop_last()[i] == w[i]);
        }
        lemma_digits_val_nonneg(w.drop_last());
    }
}

/// Extending a digit sequence on the right never shrinks its value.
proof fn lemma_digits_val_prefix_le(w: Seq<u8>, i: int)
    requires
        all_digits(w),
        0 <= i <= w.len(),
    ensures
        digits_val(w.take(i)) <= digits_val(w),
    decreases w.len() - i,
{
    if i < w.len() {
        assert(all_digits(w.take(i + 1))) by {
            assert(forall|j: int| 0 <= j < i + 1 ==> w.take(i + 1)[j] == w[j]);
        }
        assert(w.take(i + 1).drop_last() =~= w.take(i));
        assert(w.take(i + 1).last() == w[i]);
        lemma_digits_val_nonneg(w.take(i));
        assert(digits_val(w.take(i)) <= digits_val(w.take(i + 1)));
        lemma_digits_val_prefix_le(w, i + 1);
    } else {
        assert(w.take(i) =~= w);
    }
}

/// Parse the digit run `w[start..]` with the given sign.
fn parse_digits(w: &[u8], start: usize, neg: bool) -> (r: Option<i64>)
    requires
        start <= w@.len(),
    ensures
        r == parse_magnitude(w@.skip(start as int), neg),
{
    let ghost d = w@.skip(start as int);
    let len: usize = w.len();
    if start == len {
        return None;
    }
    let limit: u64 = if neg {
        9223372036854775808
    } else {
        9223372036854775807
    };
    let mut mag: u64 = 0;
    let mut i: usize = start;
    while i < len
        invariant
            start <= i <= len,
            len == w@.len(),
            d == w@.skip(start as int),
            all_digits(d.take(i - start)),
            mag == digits_val(d.take(i - start)),
            mag <= limit,
            limit == if neg { 9223372036854775808u64 } else { 9223372036854775807u64 },
        decreases len - i,
    {
        let b = w[i];
        if b < 48 || b > 57 {
            assert(!all_digits(d)) by {
                assert(d[i - start] == w@[i as int]);
            }
            return None;
        }
        let digit: u64 = (b - 48) as u64;
        let wide: u128 = mag as u128 * 10 + digit as u128;
        proof {
            assert(d.take(i - start + 1).drop_last() =~= d.take(i - start));
            assert(d.take(i - start + 1).last() == w@[i as int]);
        }
        if wide > limit as u128 {
            assert(digits_val(d.take(i - start + 1)) > limit);
            assert(parse_magnitude(d, neg) is None) by {
                if all_digits(d) {
                    lemma_digits_val_prefix_le(d, i - start + 1);
                }
            }
            return None;
        }
        mag = wide as u64;
        i = i + 1;
    }
    proof {
        assert(d.take(i - start) =~= d);
    }
    if neg {
        if mag == 9223372036854775808 {
            Some(i64::MIN)
        } else {
            Some(-(mag as i64))
        }
    } else {
        Some(mag as i64)
    }
}

/// Parse a whole word as an `i64`, exactly as `spec_parse_i64` describes.
pub fn parse_i64(w: &[u8]) -> (r: Option<i64>)
    ensures
        r == spec_parse_i64(w@),
{
    let len: usize = w.len();
    if len == 0 {
        return None;
    }
    proof {
        assert(w@.skip(0) =~= w@);
    }
    let first = w[0];
    if first == 45 {
        parse_digits(w, 1, true)
    } else if first == 43 {
        parse_digits(w, 1, false)
    } else {
        parse_digits(w, 0, false)
    }
}

} // verus!
