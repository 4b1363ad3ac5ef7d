//! The tokenizer: splitting a string on ASCII whitespace into words and
//! classifying each word as a size, a number, or text — with a look-back
//! merge for two-word size forms ("Extra Large") and a digit/non-digit
//! split for mixed words ("36T") — and the comparison of whole strings by
//! their token sequences.

use vstd::prelude::*;
use std::cmp::Ordering;
use vstd::slice::{slice_subrange, slice_to_vec};
use vstd::string::StringSliceAdditionalSpecFns;
use crate::number::{spec_is_digit, spec_parse_i64};
use crate::order::cmp_value;
use crate::size::spec_classify_size;
use crate::token::{spec_cmp_token, token_start, SpecToken, Token};

verus! {

/// The byte is ASCII whitespace: space, tab, line feed, form feed or
/// carriage return.
pub open spec fn spec_is_ws(b: u8) -> bool {
    b == 32 || b == 9 || b == 10 || b == 12 || b == 13
}

/// The first position at or after `i` that ends the word there: the next
/// whitespace byte, or the end of the string.
pub open spec fn word_end(s: Seq<u8>, i: int) -> int
    decreases s.len() - i,
{
    if i < 0 || i >= s.len() || spec_is_ws(s[i]) {
        i
    } else {
        word_end(s, i + 1)
    }
}

/// `word_end` stays within bounds, skips only non-whitespace, and stops at
/// whitespace or the end.
pub proof fn lemma_word_end(s: Seq<u8>, i: int)
    requires
        0 <= i <= s.len(),
    ensures
        i <= word_end(s, i) <= s.len(),
        forall|k: int| i <= k < word_end(s, i) ==> !spec_is_ws(s[k]),
        word_end(s, i) < s.len() ==> spec_is_ws(s[word_end(s, i)]),
    decreases s.len() - i,
{
    if i < s.len() && !spec_is_ws(s[i]) {
        lemma_word_end(s, i + 1);
    }
}

/// A stretch of non-whitespace bytes ending at whitespace or the end is
/// exactly what `word_end` finds.
proof fn lemma_word_end_is(s: Seq<u8>, i: int, j: int)
    requires
        0 <= i <= j <= s.len(),
        forall|k: int| i <= k < j ==> !spec_is_ws(s[k]),
        j == s.len() || spec_is_ws(s[j]),
    ensures
        word_end(s, i) == j,
    decreases j - i,
{
    if i < j {
        lemma_word_end_is(s, i + 1, j);
    }
}

/// The end of the maximal run starting at `i` (within the word ending at
/// `j`) on which the is-a-digit status of the bytes stays constant.
pub open spec fn run_end(s: Seq<u8>, i: int, j: int) -> int
    decreases j - i,
{
    if i < 0 || i + 1 >= j {
        j
    } else if spec_is_digit(s[i + 1]) == spec_is_digit(s[i]) {
        run_end(s, i + 1, j)
    } else {
        i + 1
    }
}

/// `run_end` moves forward, stays within the word, keeps the digit status
/// constant on the run, and stops exactly where the status flips.
pub proof fn lemma_run_end(s: Seq<u8>, i: int, j: int)
    requires
        0 <= i < j,
    ensures
        i + 1 <= run_end(s, i, j) <= j,
        forall|k: int| i <= k < run_end(s, i, j) ==> spec_is_digit(s[k]) == spec_is_digit(s[i]),
        run_end(s, i, j) < j ==> spec_is_digit(s[run_end(s, i, j)]) != spec_is_digit(s[i]),
    decreases j - i,
{
    if i + 1 < j && spec_is_digit(s[i + 1]) == spec_is_digit(s[i]) {
        lemma_run_end(s, i + 1, j);
    }
}

/// A constant-status stretch that ends at `j` or at a status flip is
/// exactly what `run_end` finds.
proof fn lemma_run_end_is(s: Seq<u8>, i: int, m: int, j: int)
    requires
        0 <= i < m <= j,
        forall|k: int| i <= k < m ==> spec_is_digit(s[k]) == spec_is_digit(s[i]),
        m == j || spec_is_digit(s[m]) != spec_is_digit(s[i]),
    ensures
        run_end(s, i, j) == m,
    decreases m - i,
{
    if i + 1 < m {
        lemma_run_end_is(s, i + 1, m, j);
    }
}

#[via_fn]
proof fn split_word_decreases(s: Seq<u8>, i: int, j: int) {
    lemma_run_end(s, i, j);
}

/// The tokens of the word `s[i..j)` under the digit/non-digit split: one
/// token per maximal run, a number where the run parses, text otherwise.
pub open spec fn split_word(s: Seq<u8>, i: int, j: int) -> Seq<SpecToken>
    decreases j - i,
        when 0 <= i < j
        via split_word_decreases
{
    let m = run_end(s, i, j);
    let run = s.subrange(i, m);
    let tok = match spec_parse_i64(run) {
        Some(v) => SpecToken::Number(run, v as int, i),
        None => SpecToken::Text(run, i),
    };
    if m < j {
        seq![tok] + split_word(s, m, j)
    } else {
        seq![tok]
    }
}

/// Classify the word `s[i..j)` on its own: a size if the whole word is in
/// the size table, else a number if it parses whole, else the
/// digit/non-digit split.
pub open spec fn step_word(acc: Seq<SpecToken>, s: Seq<u8>, i: int, j: int) -> Seq<SpecToken> {
    let w = s.subrange(i, j);
    match spec_classify_size(w) {
        Some(sz) => acc.push(SpecToken::Size(w, sz, i)),
        None => match spec_parse_i64(w) {
            Some(v) => acc.push(SpecToken::Number(w, v as int, i)),
            None => acc + split_word(s, i, j),
        },
    }
}

/// Process the word `s[i..j)` with look-back: if the most recent token is
/// text and the stretch from its start through this word matches the size
/// table, the two merge into one size token; otherwise the word is
/// classified on its own.
pub open spec fn step(acc: Seq<SpecToken>, s: Seq<u8>, i: int, j: int) -> Seq<SpecToken> {
    if acc.len() > 0 && acc.last() is Text {
        let two = s.subrange(token_start(acc.last()), j);
        match spec_classify_size(two) {
            Some(sz) => acc.drop_last().push(SpecToken::Size(two, sz, i)),
            None => step_word(acc, s, i, j),
        }
    } else {
        step_word(acc, s, i, j)
    }
}

#[via_fn]
proof fn tokenize_from_decreases(s: Seq<u8>, i: int, acc: Seq<SpecToken>) {
    if 0 <= i < s.len() {
        lemma_word_end(s, i);
    }
}

/// Tokenize `s[i..]`, accumulating onto the tokens already emitted:
/// whitespace is skipped, and each word is processed by `step`.
pub open spec fn tokenize_from(s: Seq<u8>, i: int, acc: Seq<SpecToken>) -> Seq<SpecToken>
    decreases s.len() - i,
        when 0 <= i <= s.len()
        via tokenize_from_decreases
{
    if i >= s.len() {
        acc
    } else if spec_is_ws(s[i]) {
        tokenize_from(s, i + 1, acc)
    } else {
        tokenize_from(s, word_end(s, i), step(acc, s, i, word_end(s, i)))
    }
}

/// The token sequence of a whole string.
pub open spec fn spec_tokenize(s: Seq<u8>) -> Seq<SpecToken> {
    tokenize_from(s, 0, Seq::empty())
}

/// Compare two token sequences position by position from `i`: the first
/// strictly ordered pair decides; when one sequence runs out, the one with
/// fewer tokens sorts first.
pub open spec fn cmp_tokens_from(x: Seq<SpecToken>, y: Seq<SpecToken>, i: int) -> Ordering
    decreases x.len() - i,
{
    if i < 0 || i >= x.len() || i >= y.len() {
        cmp_value(x.len() as int, y.len() as int)
    } else if spec_cmp_token(x[i], y[i]) != Ordering::Equal {
        spec_cmp_token(x[i], y[i])
    } else {
        cmp_tokens_from(x, y, i + 1)
    }
}

/// Compare two whole token sequences.
pub open spec fn spec_cmp_tokens(x: Seq<SpecToken>, y: Seq<SpecToken>) -> Ordering {
    cmp_tokens_from(x, y, 0)
}

/// The natural order of two strings: tokenize both, then compare the token
/// sequences.
pub open spec fn spec_compare(a: Seq<u8>, b: Seq<u8>) -> Ordering {
    spec_cmp_tokens(spec_tokenize(a), spec_tokenize(b))
}

/// The views of a vector of tokens, in order.
pub open spec fn views_of(ts: Seq<Token>) -> Seq<SpecToken> {
    ts.map_values(|t: Token| t@)
}

/// If the most recent token is text, its recorded start lies at or before
/// position `i` (so the look-back merge reads a well-formed span).
pub open spec fn last_text_bounded(acc: Seq<SpecToken>, i: int) -> bool {
    acc.len() > 0 && acc.last() is Text ==> 0 <= token_start(acc.last()) <= i
}

/// The byte is ASCII whitespace.
fn is_ws_byte(b: u8) -> (r: bool)
    ensures
        r == spec_is_ws(b),
{
    b == 32 || b == 9 || b == 10 || b == 12 || b == 13
}

/// The byte is an ASCII decimal digit.
fn is_digit_byte(b: u8) -> (r: bool)
    ensures
        r == spec_is_digit(b),
{
    b >= 48 && b <= 57
}

/// A string decomposed into its ordered sequence of typed tokens;
/// immutable once built.
#[derive(Clone, Debug, PartialEq, Eq)]
pub struct ProperString {
    pub tokens: Vec<Token>,
}

impl View for ProperString {
    type V = Seq<SpecToken>;

    open spec fn view(&self) -> Seq<SpecToken> {
        views_of(self.tokens@)
    }
}

impl ProperString {
    /// Tokenize a string. Total: any input, including the empty string,
    /// yields a (possibly empty) token sequence.
    pub fn new(input: &str) -> (r: ProperString)
        ensures
            r@ == spec_tokenize(input.spec_bytes()),
    {
        let s: &[u8] = input.as_bytes();
        let n: usize = s.len();
        let mut tokens: Vec<Token> = Vec::new();
        let mut i: usize = 0;
        proof {
            assert(views_of(tokens@) =~= Seq::<SpecToken>::empty());
        }
        while i < n
            invariant
                i <= n,
                n == s@.len(),
                tokenize_from(s@, i as int, views_of(tokens@)) == spec_tokenize(s@),
                last_text_bounded(views_of(tokens@), i as int),
            decreases n - i,
        {
            if is_ws_byte(s[i]) {
                i = i + 1;
            } else {
                let ghost acc0 = views_of(tokens@);
                // find the end of the word
                let mut j: usize = i + 1;
                while j < n && !is_ws_byte(s[j])
                    invariant
                        i < j <= n,
                        n == s@.len(),
                        !spec_is_ws(s@[i as int]),
                        forall|k: int| i <= k < j ==> !spec_is_ws(s@[k]),
                    decreases n - j,
                {
                    j = j + 1;
                }
                proof {
                    lemma_word_end_is(s@, i as int, j as int);
                }
                // look-back merge of a two-word size form
                let mut merged = false;
                if tokens.len() > 0 {
                    let mut merge_off: Option<usize> = None;
                    match &tokens[tokens.len() - 1] {
                        Token::Text(_, off) => {
                            merge_off = Some(*off);
                        },
                        _ => {},
                    }
                    match merge_off {
                        Some(off) => {
                            let two = slice_subrange(s, off, j);
                            match crate::size::classify_size(two) {
                                Some(sz) => {
                                    let raw = slice_to_vec(two);
                                    let _ = tokens.pop();
                                    tokens.push(Token::Size(raw, sz, i));
                                    merged = true;
                                    proof {
                                        assert(views_of(tokens@) =~= acc0.drop_last().push(
                                            SpecToken::Size(s@.subrange(off as int, j as int), sz, i as int),
                                        ));
                                    }
                                },
                                None => {},
                            }
                        },
                        None => {},
                    }
                }
                if !merged {
                    let w = slice_subrange(s, i, j);
                    match crate::size::classify_size(w) {
                        Some(sz) => {
                            tokens.push(Token::Size(slice_to_vec(w), sz, i));
                            proof {
                                assert(views_of(tokens@) =~= acc0.push(
                                    SpecToken::Size(s@.subrange(i as int, j as int), sz, i as int),
                                ));
                            }
                        },
                        None => match crate::number::parse_i64(w) {
                            Some(v) => {
                                tokens.push(Token::Number(slice_to_vec(w), v, i));
                                proof {
                                    assert(views_of(tokens@) =~= acc0.push(
                                        SpecToken::Number(s@.subrange(i as int, j as int), v as int, i as int),
                                    ));
                                }
                            },
                            None => {
                                // split the word at digit/non-digit boundaries
                                let mut k: usize = i;
                                while k < j
                                    invariant
                                        i <= k <= j,
                                        i < j,
                                        j <= n,
                                        n == s@.len(),
                                        k < j ==> views_of(tokens@) + split_word(s@, k as int, j as int)
                                            == acc0 + split_word(s@, i as int, j as int),
                                        k == j ==> views_of(tokens@)
                                            == acc0 + split_word(s@, i as int, j as int),
                                        last_text_bounded(views_of(tokens@), j as int),
                                    decreases j - k,
                                {
                                    let kd = is_digit_byte(s[k]);
                                    let mut m: usize = k + 1;
                                    while m < j && is_digit_byte(s[m]) == kd
                                        invariant
                                            k < m <= j,
                                            n == s@.len(),
                                            j <= n,
                                            kd == spec_is_digit(s@[k as int]),
                                            forall|t: int|
                                                k <= t < m ==> spec_is_digit(s@[t]) == spec_is_digit(
                                                    s@[k as int],
                                                ),
                                        decreases j - m,
                                    {
                                        m = m + 1;
                                    }
                                    proof {
                                        lemma_run_end_is(s@, k as int, m as int, j as int);
                                    }
                                    let ghost before = views_of(tokens@);
                                    let run = slice_subrange(s, k, m);
                                    match crate::number::parse_i64(run) {
                                        Some(v) => {
                                            tokens.push(Token::Number(slice_to_vec(run), v, k));
                                            proof {
                                                assert(views_of(tokens@) =~= before.push(
                                                    SpecToken::Number(
                                                        s@.subrange(k as int, m as int),
                                                        v as int,
                                                        k as int,
                                                    ),
                                                ));
                                            }
                                        },
                                        None => {
                                            tokens.push(Token::Text(slice_to_vec(run), k));
                                            proof {
                                                assert(views_of(tokens@) =~= before.push(
                                                    SpecToken::Text(
                                                        s@.subrange(k as int, m as int),
                                                        k as int,
                                                    ),
                                                ));
                                            }
                                        },
                                    }
                                    proof {
                                        let tok = split_word(s@, k as int, j as int)[0];
                                        assert(before.push(tok) =~= before + seq![tok]);
                                        if m < j {
                                            assert(before + split_word(s@, k as int, j as int)
                                                =~= (before + seq![tok]) + split_word(s@, m as int, j as int));
                                        } else {
                                            assert(before + split_word(s@, k as int, j as int)
                                                =~= before + seq![tok]);
                                        }
                                    }
                                    k = m;
                                }
                            },
                        },
                    }
                }
                proof {
                    assert(views_of(tokens@) == step(acc0, s@, i as int, j as int));
                }
                i = j;
            }
        }
        ProperString { tokens }
    }

    /// Compare two tokenized strings token by token; when every compared
    /// pair ties, the string with fewer tokens sorts first.
    pub fn cmp(&self, other: &ProperString) -> (r: Ordering)
        ensures
            r == spec_cmp_tokens(self@, other@),
    {
        let xlen: usize = self.tokens.len();
        let ylen: usize = other.tokens.len();
        let mut i: usize = 0;
        while i < xlen && i < ylen
            invariant
                i <= xlen,
                i <= ylen,
                xlen == self.tokens@.len(),
                ylen == other.tokens@.len(),
                spec_cmp_tokens(self@, other@) == cmp_tokens_from(self@, other@, i as int),
            decreases xlen - i,
        {
            let c = self.tokens[i].cmp(&other.tokens[i]);
            match c {
                Ordering::Equal => {
                    i = i + 1;
                },
                _ => {
                    return c;
                },
            }
        }
        if xlen < ylen {
            Ordering::Less
        } else if xlen > ylen {
            Ordering::Greater
        } else {
            Ordering::Equal
        }
    }
}

} // verus!
