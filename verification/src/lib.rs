//! Natural ("human-perceived") ordering for free-form text such as product
//! titles: each string is decomposed into typed tokens (plain text, numbers,
//! recognized apparel sizes) and token sequences are compared element-wise
//! with type-aware rules, so that embedded numbers compare by value and size
//! words compare by their place in the size scale.

pub mod laws;
pub mod number;
pub mod order;
pub mod size;
pub mod token;
pub mod tokenizer;

use vstd::prelude::*;
use std::cmp::Ordering;
use vstd::string::StringSliceAdditionalSpecFns;
use crate::order::{spec_cmp_ignore_case, spec_is_lower, spec_is_upper};
use crate::tokenizer::spec_compare;

pub use crate::size::Size;
pub use crate::token::{SpecToken, Token};
pub use crate::tokenizer::ProperString;

verus! {

/// The natural order of two strings: both are tokenized and the token
/// sequences are compared position by position; the first strictly ordered
/// pair decides, and when every compared pair ties, the string with fewer
/// tokens sorts first. Total: every pair of strings gets exactly one of
/// the three orderings.
pub fn compare(a: &str, b: &str) -> (r: Ordering)
    ensures
        r == spec_compare(a.spec_bytes(), b.spec_bytes()),
{
    ProperString::new(a).cmp(&ProperString::new(b))
}

/// ASCII case-insensitive string order: letters compare without regard to
/// case; when case is the only difference anywhere, the plain byte order of
/// the whole strings decides (so uppercase sorts first).
pub fn cmp_ascii_ignore_case(a: &str, b: &str) -> (r: Ordering)
    ensures
        r == spec_cmp_ignore_case(a.spec_bytes(), b.spec_bytes()),
{
    crate::order::cmp_ignore_case_bytes(a.as_bytes(), b.as_bytes())
}

/// The byte is an ASCII uppercase letter.
pub fn is_ascii_upper(b: u8) -> (r: bool)
    ensures
        r == spec_is_upper(b),
{
    b > 64 && b < 91
}

/// The byte is an ASCII lowercase letter.
pub fn is_ascii_lower(b: u8) -> (r: bool)
    ensures
        r == spec_is_lower(b),
{
    b > 96 && b < 123
}

} // verus!
