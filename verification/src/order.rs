//! Byte-level orderings: plain lexicographic comparison and the ASCII
//! case-insensitive comparison with its byte-for-byte tie-break.

use vstd::prelude::*;
use std::cmp::Ordering;

verus! {

/// The byte is an ASCII uppercase letter.
pub open spec fn spec_is_upper(b: u8) -> bool {
    64 < b < 91
}

/// The byte is an ASCII lowercase letter.
pub open spec fn spec_is_lower(b: u8) -> bool {
    96 < b < 123
}

/// ASCII lowercase folding of a single byte.
pub open spec fn spec_fold(b: u8) -> u8 {
    if spec_is_upper(b) {
        (b + 32) as u8
    } else {
        b
    }
}

/// The ordering of two mathematical integers.
pub open spec fn cmp_value(x: int, y: int) -> Ordering {
    if x < y {
        Ordering::Less
    } else if x > y {
        Ordering::Greater
    } else {
        Ordering::Equal
    }
}

/// How a single byte pair is ordered inside the case-insensitive scan:
/// equal bytes tie, an upper/lower pair is compared after folding the
/// second byte to the case of the first, and any other pair is compared
/// by plain byte value.
pub open spec fn byte_fold_cmp(x: u8, y: u8) -> Ordering {
    if x == y {
        Ordering::Equal
    } else if spec_is_upper(x) && spec_is_lower(y) {
        cmp_value(x as int, y - 32)
    } else if spec_is_lower(x) && spec_is_upper(y) {
        cmp_value(x as int, y + 32)
    } else {
        cmp_value(x as int, y as int)
    }
}

/// Scan both sequences in lockstep from position `i`: the first pair that
/// `byte_fold_cmp` orders strictly decides; exhausting either sequence
/// leaves the scan undecided (`Equal`).
pub open spec fn fold_cmp_from(a: Seq<u8>, b: Seq<u8>, i: int) -> Ordering
    decreases a.len() - i,
{
    if i < 0 || i >= a.len() || i >= b.len() {
        Ordering::Equal
    } else if byte_fold_cmp(a[i], b[i]) == Ordering::Equal {
        fold_cmp_from(a, b, i + 1)
    } else {
        byte_fold_cmp(a[i], b[i])
    }
}

/// Plain lexicographic byte order from position `i`, with the usual
/// prefix rule: a strict prefix is smaller.
pub open spec fn lex_cmp_from(a: Seq<u8>, b: Seq<u8>, i: int) -> Ordering
    decreases a.len() - i,
{
    if i < 0 || i >= a.len() || i >= b.len() {
        cmp_value(a.len() as int, b.len() as int)
    } else if a[i] != b[i] {
        cmp_value(a[i] as int, b[i] as int)
    } else {
        lex_cmp_from(a, b, i + 1)
    }
}

/// Plain lexicographic byte order over whole sequences.
pub open spec fn spec_lex_cmp(a: Seq<u8>, b: Seq<u8>) -> Ordering {
    lex_cmp_from(a, b, 0)
}

/// ASCII case-insensitive order: the lockstep fold scan decides first;
/// an undecided scan falls back to the length, and equal lengths fall
/// back to the exact byte order, so that strings differing only in case
/// are still ordered (uppercase first).
pub open spec fn spec_cmp_ignore_case(a: Seq<u8>, b: Seq<u8>) -> Ordering {
    if fold_cmp_from(a, b, 0) != Ordering::Equal {
        fold_cmp_from(a, b, 0)
    } else if a.len() != b.len() {
        cmp_value(a.len() as int, b.len() as int)
    } else {
        lex_cmp_from(a, b, 0)
    }
}

/// Plain lexicographic comparison of two byte slices.
pub fn lex_cmp_bytes(a: &[u8], b: &[u8]) -> (r: Ordering)
    ensures
        r == spec_lex_cmp(a@, b@),
{
    let alen: usize = a.len();
    let blen: usize = b.len();
    let mut i: usize = 0;
    while i < alen && i < blen
        invariant
            i <= alen,
            i <= blen,
            alen == a@.len(),
            blen == b@.len(),
            spec_lex_cmp(a@, b@) == lex_cmp_from(a@, b@, i as int),
        decreases alen - i,
    {
        if a[i] < b[i] {
            return Ordering::Less;
        }
        if a[i] > b[i] {
            return Ordering::Greater;
        }
        i = i + 1;
    }
    if alen < blen {
        Ordering::Less
    } else if alen > blen {
        Ordering::Greater
    } else {
        Ordering::Equal
    }
}

/// ASCII case-insensitive comparison of two byte slices.
pub fn cmp_ignore_case_bytes(a: &[u8], b: &[u8]) -> (r: Ordering)
    ensures
        r == spec_cmp_ignore_case(a@, b@),
{
    let alen: usize = a.len();
    let blen: usize = b.len();
    let mut i: usize = 0;
    while i < alen && i < blen
        invariant
            i <= alen,
            i <= blen,
            alen == a@.len(),
            blen == b@.len(),
            fold_cmp_from(a@, b@, 0) == fold_cmp_from(a@, b@, i as int),
        decreases alen - i,
    {
        let x = a[i];
        let y = b[i];
        if x != y {
            if crate::is_ascii_upper(x) && crate::is_ascii_lower(y) {
                let yf = y - 32;
                if x < yf {
                    return Ordering::Less;
                }
                if x > yf {
                    return Ordering::Greater;
                }
            } else if crate::is_ascii_lower(x) && crate::is_ascii_upper(y) {
                let yf = y + 32;
                if x < yf {
                    return Ordering::Less;
                }
                if x > yf {
                    return Ordering::Greater;
                }
            } else if x < y {
                return Ordering::Less;
            } else {
                return Ordering::Greater;
            }
        }
        i = i + 1;
    }
    if alen < blen {
        Ordering::Less
    } else if alen > blen {
        Ordering::Greater
    } else {
        lex_cmp_bytes(a, b)
    }
}

} // verus!
