//! Tokens: the typed fragments a string is decomposed into, and the total
//! comparison rule over them.

use vstd::prelude::*;
use std::cmp::Ordering;
use crate::order::{cmp_value, spec_cmp_ignore_case, spec_lex_cmp};
use crate::size::{spec_rank, Size};

verus! {

/// A classified fragment of an input string. Each token keeps the raw
/// bytes it was read from and the byte offset at which its word started;
/// `Number` adds the parsed value and `Size` the recognized size.
#[derive(Clone, Debug, PartialEq, Eq)]
pub enum Token {
    Text(Vec<u8>, usize),
    Number(Vec<u8>, i64, usize),
    Size(Vec<u8>, Size, usize),
}

/// The mathematical image of a token: raw bytes as a sequence, the parsed
/// value as an integer, offsets as integers.
pub enum SpecToken {
    Text(Seq<u8>, int),
    Number(Seq<u8>, int, int),
    Size(Seq<u8>, Size, int),
}

impl View for Token {
    type V = SpecToken;

    open spec fn view(&self) -> SpecToken {
        match self {
            Token::Text(raw, off) => SpecToken::Text(raw@, *off as int),
            Token::Number(raw, val, off) => SpecToken::Number(raw@, *val as int, *off as int),
            Token::Size(raw, size, off) => SpecToken::Size(raw@, *size, *off as int),
        }
    }
}

/// The raw bytes a token was read from.
pub open spec fn token_raw(t: SpecToken) -> Seq<u8> {
    match t {
        SpecToken::Text(raw, _) => raw,
        SpecToken::Number(raw, _, _) => raw,
        SpecToken::Size(raw, _, _) => raw,
    }
}

/// The byte offset at which a token's word started.
pub open spec fn token_start(t: SpecToken) -> int {
    match t {
        SpecToken::Text(_, off) => off,
        SpecToken::Number(_, _, off) => off,
        SpecToken::Size(_, _, off) => off,
    }
}

/// How two tokens are ordered: same kinds compare by their meaning (text
/// case-insensitively, numbers by value, sizes by rank); different kinds
/// fall back to the plain byte order of their raw text, a deterministic
/// tie-break that keeps the relation total.
pub open spec fn spec_cmp_token(a: SpecToken, b: SpecToken) -> Ordering {
    match (a, b) {
        (SpecToken::Text(x, _), SpecToken::Text(y, _)) => spec_cmp_ignore_case(x, y),
        (SpecToken::Number(_, x, _), SpecToken::Number(_, y, _)) => cmp_value(x, y),
        (SpecToken::Size(_, x, _), SpecToken::Size(_, y, _)) => cmp_value(
            spec_rank(x),
            spec_rank(y),
        ),
        _ => spec_lex_cmp(token_raw(a), token_raw(b)),
    }
}

impl Token {
    /// Compare two tokens as `spec_cmp_token` describes.
    pub fn cmp(&self, other: &Token) -> (r: Ordering)
        ensures
            r == spec_cmp_token(self@, other@),
    {
        match (self, other) {
            (Token::Text(x, _), Token::Text(y, _)) => crate::order::cmp_ignore_case_bytes(
                x.as_slice(),
                y.as_slice(),
            ),
            (Token::Number(_, x, _), Token::Number(_, y, _)) => {
                if *x < *y {
                    Ordering::Less
                } else if *x > *y {
                    Ordering::Greater
                } else {
                    Ordering::Equal
                }
            },
            (Token::Size(_, x, _), Token::Size(_, y, _)) => {
                let rx = x.rank();
                let ry = y.rank();
                if rx < ry {
                    Ordering::Less
                } else if rx > ry {
                    Ordering::Greater
                } else {
                    Ordering::Equal
                }
            },
            _ => crate::order::lex_cmp_bytes(self.raw(), other.raw()),
        }
    }

    /// The raw bytes this token was read from.
    pub fn raw(&self) -> (r: &[u8])
        ensures
            r@ == token_raw(self@),
    {
        match self {
            Token::Text(raw, _) => raw.as_slice(),
            Token::Number(raw, _, _) => raw.as_slice(),
            Token::Size(raw, _, _) => raw.as_slice(),
        }
    }
}

} // verus!
