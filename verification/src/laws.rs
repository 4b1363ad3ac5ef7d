//! The order-theoretic laws of the library: the natural string order is
//! total (every comparison yields exactly one of the three orderings, by
//! type), reflexively equal, antisymmetric on all inputs, and transitive
//! on the inputs where the token kinds line up; the case-insensitive
//! string order equals `Equal` exactly on identical strings.

use vstd::prelude::*;
use std::cmp::Ordering;
use crate::order::{
    byte_fold_cmp, cmp_value, fold_cmp_from, lex_cmp_from, spec_cmp_ignore_case, spec_fold,
    spec_lex_cmp,
};
use crate::token::{spec_cmp_token, token_raw, token_start, SpecToken};
use crate::tokenizer::{
    cmp_tokens_from, last_text_bounded, lemma_run_end, lemma_word_end, run_end, spec_cmp_tokens,
    spec_compare, spec_is_ws, spec_tokenize, split_word, step, step_word, tokenize_from, word_end,
};

verus! {

/// The opposite of an ordering.
pub open spec fn flip(o: Ordering) -> Ordering {
    match o {
        Ordering::Less => Ordering::Greater,
        Ordering::Equal => Ordering::Equal,
        Ordering::Greater => Ordering::Less,
    }
}

/// Swapping a byte pair flips how the fold scan orders it.
proof fn lemma_byte_fold_antisym(x: u8, y: u8)
    ensures
        byte_fold_cmp(y, x) == flip(byte_fold_cmp(x, y)),
{
}

/// Swapping the sequences flips the fold scan.
proof fn lemma_fold_from_antisym(a: Seq<u8>, b: Seq<u8>, i: int)
    ensures
        fold_cmp_from(b, a, i) == flip(fold_cmp_from(a, b, i)),
    decreases a.len() - i,
{
    if 0 <= i && i < a.len() && i < b.len() {
        lemma_byte_fold_antisym(a[i], b[i]);
        if byte_fold_cmp(a[i], b[i]) == Ordering::Equal {
            lemma_fold_from_antisym(a, b, i + 1);
        }
    }
}

/// Swapping the sequences flips the lexicographic order.
proof fn lemma_lex_from_antisym(a: Seq<u8>, b: Seq<u8>, i: int)
    ensures
        lex_cmp_from(b, a, i) == flip(lex_cmp_from(a, b, i)),
    decreases a.len() - i,
{
    if 0 <= i && i < a.len() && i < b.len() && a[i] == b[i] {
        lemma_lex_from_antisym(a, b, i + 1);
    }
}

/// The lexicographic order ties exactly on identical suffixes (and then
/// the lengths agree).
proof fn lemma_lex_from_equal_iff(a: Seq<u8>, b: Seq<u8>, i: int)
    requires
        0 <= i,
    ensures
        lex_cmp_from(a, b, i) == Ordering::Equal <==> (a.len() == b.len() && forall|k: int|
            i <= k < a.len() ==> a[k] == b[k]),
    decreases a.len() - i,
{
    if i < a.len() && i < b.len() && a[i] == b[i] {
        lemma_lex_from_equal_iff(a, b, i + 1);
    }
}

/// The case-insensitive order ties exactly on identical strings: the
/// byte-for-byte tie-break separates every pair that differs at all.
pub proof fn lemma_cmp_ignore_case_equal_iff(a: Seq<u8>, b: Seq<u8>)
    ensures
        spec_cmp_ignore_case(a, b) == Ordering::Equal <==> a == b,
{
    if spec_cmp_ignore_case(a, b) == Ordering::Equal {
        lemma_lex_from_equal_iff(a, b, 0);
        assert(a =~= b);
    } else {
        if a == b {
            lemma_fold_from_refl(a, 0);
            lemma_lex_from_equal_iff(a, a, 0);
        }
    }
}

/// The fold scan ties a sequence with itself.
proof fn lemma_fold_from_refl(a: Seq<u8>, i: int)
    ensures
        fold_cmp_from(a, a, i) == Ordering::Equal,
    decreases a.len() - i,
{
    if 0 <= i && i < a.len() {
        lemma_fold_from_refl(a, i + 1);
    }
}

/// Swapping the strings flips the case-insensitive order.
pub proof fn lemma_cmp_ignore_case_antisym(a: Seq<u8>, b: Seq<u8>)
    ensures
        spec_cmp_ignore_case(b, a) == flip(spec_cmp_ignore_case(a, b)),
{
    lemma_fold_from_antisym(a, b, 0);
    lemma_lex_from_antisym(a, b, 0);
}

/// The byte keeps its place under case folding: folding moves an
/// uppercase letter past no other byte. The six bytes strictly between
/// the uppercase and lowercase letter ranges are the exceptions.
pub open spec fn fold_safe_byte(b: u8) -> bool {
    !(91 <= b <= 96)
}

/// Every byte of the sequence keeps its place under case folding.
pub open spec fn fold_safe_seq(s: Seq<u8>) -> bool {
    forall|i: int| 0 <= i < s.len() ==> fold_safe_byte(s[i])
}

/// The sequence folded to lowercase, byte by byte.
pub open spec fn folded(s: Seq<u8>) -> Seq<u8> {
    s.map_values(|b: u8| spec_fold(b))
}

/// On bytes that keep their place under folding, the fold scan orders a
/// pair exactly as the folded bytes compare.
proof fn lemma_byte_fold_safe(x: u8, y: u8)
    requires
        fold_safe_byte(x),
        fold_safe_byte(y),
    ensures
        byte_fold_cmp(x, y) == cmp_value(spec_fold(x) as int, spec_fold(y) as int),
{
}

/// Transitivity of the lexicographic order, with equality accounted for:
/// two comparisons that are not `Greater` compose as expected.
proof fn lemma_lex_from_trans(a: Seq<u8>, b: Seq<u8>, c: Seq<u8>, i: int)
    requires
        0 <= i,
        lex_cmp_from(a, b, i) != Ordering::Greater,
        lex_cmp_from(b, c, i) != Ordering::Greater,
    ensures
        lex_cmp_from(a, c, i) == (if lex_cmp_from(a, b, i) == Ordering::Equal && lex_cmp_from(
            b,
            c,
            i,
        ) == Ordering::Equal {
            Ordering::Equal
        } else {
            Ordering::Less
        }),
    decreases a.len() - i,
{
    if i < a.len() && i < b.len() && i < c.len() && a[i] == b[i] && b[i] == c[i] {
        lemma_lex_from_trans(a, b, c, i + 1);
    } else {
        lemma_lex_from_equal_iff(a, b, i);
        lemma_lex_from_equal_iff(b, c, i);
        lemma_lex_from_equal_iff(a, c, i);
    }
}

/// On safe sequences the fold scan agrees with the lexicographic order of
/// the folded sequences, as far as the scan reaches; an undecided scan
/// means the folded order is down to the lengths.
proof fn lemma_fold_vs_lex(a: Seq<u8>, b: Seq<u8>, i: int)
    requires
        0 <= i,
        fold_safe_seq(a),
        fold_safe_seq(b),
    ensures
        fold_cmp_from(a, b, i) != Ordering::Equal ==> lex_cmp_from(folded(a), folded(b), i)
            == fold_cmp_from(a, b, i),
        fold_cmp_from(a, b, i) == Ordering::Equal ==> lex_cmp_from(folded(a), folded(b), i)
            == cmp_value(a.len() as int, b.len() as int),
    decreases a.len() - i,
{
    if i < a.len() && i < b.len() {
        lemma_byte_fold_safe(a[i], b[i]);
        assert(folded(a)[i] == spec_fold(a[i]));
        assert(folded(b)[i] == spec_fold(b[i]));
        if byte_fold_cmp(a[i], b[i]) == Ordering::Equal {
            lemma_fold_vs_lex(a, b, i + 1);
        }
    }
}

/// On safe sequences the case-insensitive order is the lexicographic
/// order of the folded sequences, tie-broken by the exact byte order.
proof fn lemma_ci_as_pair(a: Seq<u8>, b: Seq<u8>)
    requires
        fold_safe_seq(a),
        fold_safe_seq(b),
    ensures
        spec_cmp_ignore_case(a, b) == (if spec_lex_cmp(folded(a), folded(b)) != Ordering::Equal {
            spec_lex_cmp(folded(a), folded(b))
        } else {
            spec_lex_cmp(a, b)
        }),
{
    lemma_fold_vs_lex(a, b, 0);
    if fold_cmp_from(a, b, 0) == Ordering::Equal && a.len() == b.len() {
        lemma_lex_from_equal_iff(folded(a), folded(b), 0);
    }
}

/// Transitivity of the case-insensitive order on safe sequences, with
/// equality accounted for.
pub proof fn lemma_cmp_ignore_case_trans(a: Seq<u8>, b: Seq<u8>, c: Seq<u8>)
    requires
        fold_safe_seq(a),
        fold_safe_seq(b),
        fold_safe_seq(c),
        spec_cmp_ignore_case(a, b) != Ordering::Greater,
        spec_cmp_ignore_case(b, c) != Ordering::Greater,
    ensures
        spec_cmp_ignore_case(a, c) == (if spec_cmp_ignore_case(a, b) == Ordering::Equal
            && spec_cmp_ignore_case(b, c) == Ordering::Equal {
            Ordering::Equal
        } else {
            Ordering::Less
        }),
{
    lemma_ci_as_pair(a, b);
    lemma_ci_as_pair(b, c);
    lemma_ci_as_pair(a, c);
    let kab = spec_lex_cmp(folded(a), folded(b));
    let kbc = spec_lex_cmp(folded(b), folded(c));
    if kab == Ordering::Equal {
        lemma_lex_from_equal_iff(folded(a), folded(b), 0);
        assert(folded(a) =~= folded(b));
    }
    if kbc == Ordering::Equal {
        lemma_lex_from_equal_iff(folded(b), folded(c), 0);
        assert(folded(b) =~= folded(c));
    }
    lemma_lex_from_trans(folded(a), folded(b), folded(c), 0);
    if kab == Ordering::Equal && kbc == Ordering::Equal {
        lemma_lex_from_trans(a, b, c, 0);
    }
}

/// The two tokens are of the same kind.
pub open spec fn same_kind(x: SpecToken, y: SpecToken) -> bool {
    (x is Text && y is Text) || (x is Number && y is Number) || (x is Size && y is Size)
}

/// A token whose comparison behaviour is safe for transitivity: the raw
/// bytes of a text token keep their places under case folding. (Number
/// and size tokens compare by value and rank, which is always safe.)
pub open spec fn token_fold_safe(t: SpecToken) -> bool {
    t is Text ==> fold_safe_seq(token_raw(t))
}

/// Every compared position of the two token sequences holds tokens of
/// the same kind.
pub open spec fn kinds_aligned(x: Seq<SpecToken>, y: Seq<SpecToken>) -> bool {
    forall|i: int| 0 <= i < x.len() && i < y.len() ==> same_kind(x[i], y[i])
}

/// Every token of the sequence is safe for transitivity.
pub open spec fn tokens_fold_safe(x: Seq<SpecToken>) -> bool {
    forall|i: int| 0 <= i < x.len() ==> token_fold_safe(x[i])
}

/// Transitivity of the token order over same-kind, fold-safe tokens,
/// with equality accounted for.
proof fn lemma_token_trans(t1: SpecToken, t2: SpecToken, t3: SpecToken)
    requires
        same_kind(t1, t2),
        same_kind(t2, t3),
        token_fold_safe(t1),
        token_fold_safe(t2),
        token_fold_safe(t3),
        spec_cmp_token(t1, t2) != Ordering::Greater,
        spec_cmp_token(t2, t3) != Ordering::Greater,
    ensures
        spec_cmp_token(t1, t3) == (if spec_cmp_token(t1, t2) == Ordering::Equal && spec_cmp_token(
            t2,
            t3,
        ) == Ordering::Equal {
            Ordering::Equal
        } else {
            Ordering::Less
        }),
{
    if t1 is Text {
        lemma_cmp_ignore_case_trans(token_raw(t1), token_raw(t2), token_raw(t3));
    }
}

/// Transitivity of the token-sequence order over aligned, fold-safe
/// sequences, with equality accounted for.
proof fn lemma_cmp_tokens_from_trans(
    x: Seq<SpecToken>,
    y: Seq<SpecToken>,
    z: Seq<SpecToken>,
    i: int,
)
    requires
        0 <= i,
        kinds_aligned(x, y),
        kinds_aligned(y, z),
        kinds_aligned(x, z),
        tokens_fold_safe(x),
        tokens_fold_safe(y),
        tokens_fold_safe(z),
        cmp_tokens_from(x, y, i) != Ordering::Greater,
        cmp_tokens_from(y, z, i) != Ordering::Greater,
    ensures
        cmp_tokens_from(x, z, i) == (if cmp_tokens_from(x, y, i) == Ordering::Equal
            && cmp_tokens_from(y, z, i) == Ordering::Equal {
            Ordering::Equal
        } else {
            Ordering::Less
        }),
    decreases x.len() - i,
{
    if i < x.len() && i < y.len() && i < z.len() {
        lemma_token_trans(x[i], y[i], z[i]);
        if spec_cmp_token(x[i], y[i]) == Ordering::Equal && spec_cmp_token(y[i], z[i])
            == Ordering::Equal {
            lemma_cmp_tokens_from_trans(x, y, z, i + 1);
        }
    }
}

/// Every token of a word's digit/non-digit split carries fold-safe raw
/// bytes cut from the string, with its start inside the word.
proof fn lemma_split_word_safe(s: Seq<u8>, i: int, j: int)
    requires
        fold_safe_seq(s),
        0 <= i < j <= s.len(),
    ensures
        split_word(s, i, j).len() >= 1,
        forall|k: int| 0 <= k < split_word(s, i, j).len() ==> token_fold_safe(
            #[trigger] split_word(s, i, j)[k],
        ) && 0 <= token_start(split_word(s, i, j)[k]) < j,
    decreases j - i,
{
    lemma_run_end(s, i, j);
    let m = run_end(s, i, j);
    assert(fold_safe_seq(s.subrange(i, m))) by {
        assert(forall|k: int| 0 <= k < m - i ==> s.subrange(i, m)[k] == s[i + k]);
    }
    if m < j {
        lemma_split_word_safe(s, m, j);
    }
}

/// Processing one word preserves fold safety of the accumulated tokens
/// and the bound on the last text token's start.
proof fn lemma_step_safe(acc: Seq<SpecToken>, s: Seq<u8>, i: int, j: int)
    requires
        fold_safe_seq(s),
        0 <= i < j <= s.len(),
        tokens_fold_safe(acc),
    ensures
        tokens_fold_safe(step(acc, s, i, j)),
        last_text_bounded(step(acc, s, i, j), j),
{
    if !(acc.len() > 0 && acc.last() is Text && crate::size::spec_classify_size(
        s.subrange(token_start(acc.last()), j),
    ) is Some) {
        let w = s.subrange(i, j);
        if crate::size::spec_classify_size(w) is None && crate::number::spec_parse_i64(w)
            is None {
            lemma_split_word_safe(s, i, j);
            assert(step_word(acc, s, i, j) == acc + split_word(s, i, j));
        }
    }
}

/// Tokenizing fold-safe input only ever yields fold-safe tokens.
proof fn lemma_tokenize_from_safe(s: Seq<u8>, i: int, acc: Seq<SpecToken>)
    requires
        fold_safe_seq(s),
        0 <= i <= s.len(),
        tokens_fold_safe(acc),
        last_text_bounded(acc, i),
    ensures
        tokens_fold_safe(tokenize_from(s, i, acc)),
    decreases s.len() - i,
{
    if i < s.len() {
        if spec_is_ws(s[i]) {
            lemma_tokenize_from_safe(s, i + 1, acc);
        } else {
            lemma_word_end(s, i);
            let j = word_end(s, i);
            assert(j > i);
            lemma_step_safe(acc, s, i, j);
            lemma_tokenize_from_safe(s, j, step(acc, s, i, j));
        }
    }
}

/// The tokens of a fold-safe string are all fold-safe.
pub proof fn lemma_tokenize_fold_safe(s: Seq<u8>)
    requires
        fold_safe_seq(s),
    ensures
        tokens_fold_safe(spec_tokenize(s)),
{
    lemma_tokenize_from_safe(s, 0, Seq::empty());
}

/// Swapping the tokens flips the token order.
proof fn lemma_token_antisym(x: SpecToken, y: SpecToken)
    ensures
        spec_cmp_token(y, x) == flip(spec_cmp_token(x, y)),
{
    if x is Text && y is Text {
        lemma_cmp_ignore_case_antisym(token_raw(x), token_raw(y));
    } else if !same_kind(x, y) {
        lemma_lex_from_antisym(token_raw(x), token_raw(y), 0);
    }
}

/// The case-insensitive order ties a string with itself.
proof fn lemma_ci_refl(a: Seq<u8>)
    ensures
        spec_cmp_ignore_case(a, a) == Ordering::Equal,
{
    lemma_fold_from_refl(a, 0);
    lemma_lex_from_equal_iff(a, a, 0);
}

/// The token order ties a token with itself.
proof fn lemma_token_refl(t: SpecToken)
    ensures
        spec_cmp_token(t, t) == Ordering::Equal,
{
    if t is Text {
        lemma_ci_refl(token_raw(t));
    }
}

/// Swapping the sequences flips the token-sequence order.
proof fn lemma_cmp_tokens_from_antisym(x: Seq<SpecToken>, y: Seq<SpecToken>, i: int)
    ensures
        cmp_tokens_from(y, x, i) == flip(cmp_tokens_from(x, y, i)),
    decreases x.len() - i,
{
    if 0 <= i && i < x.len() && i < y.len() {
        lemma_token_antisym(x[i], y[i]);
        if spec_cmp_token(x[i], y[i]) == Ordering::Equal {
            lemma_cmp_tokens_from_antisym(x, y, i + 1);
        }
    }
}

/// The token-sequence order ties a sequence with itself.
proof fn lemma_cmp_tokens_from_refl(x: Seq<SpecToken>, i: int)
    ensures
        cmp_tokens_from(x, x, i) == Ordering::Equal,
    decreases x.len() - i,
{
    if 0 <= i && i < x.len() {
        lemma_token_refl(x[i]);
        lemma_cmp_tokens_from_refl(x, i + 1);
    }
}

/// The natural string order is total: every pair of strings is ordered,
/// and gets exactly one of the three orderings.
pub proof fn lemma_compare_total(a: Seq<u8>, b: Seq<u8>)
    ensures
        spec_compare(a, b) == Ordering::Less || spec_compare(a, b) == Ordering::Equal
            || spec_compare(a, b) == Ordering::Greater,
{
}

/// The natural string order compares every string equal to itself.
pub proof fn lemma_compare_reflexive(a: Seq<u8>)
    ensures
        spec_compare(a, a) == Ordering::Equal,
{
    lemma_cmp_tokens_from_refl(spec_tokenize(a), 0);
}

/// The natural string order is antisymmetric: swapping the operands
/// flips the result, for all inputs.
pub proof fn lemma_compare_antisymmetric(a: Seq<u8>, b: Seq<u8>)
    ensures
        spec_compare(b, a) == flip(spec_compare(a, b)),
{
    lemma_cmp_tokens_from_antisym(spec_tokenize(a), spec_tokenize(b), 0);
}

/// The natural string order is transitive — with equality accounted for,
/// so the four compositions of `Less` and `Equal` are all covered — on
/// strings whose bytes keep their places under case folding and whose
/// token sequences align in kind at every compared position.
pub proof fn lemma_compare_transitive(a: Seq<u8>, b: Seq<u8>, c: Seq<u8>)
    requires
        fold_safe_seq(a),
        fold_safe_seq(b),
        fold_safe_seq(c),
        kinds_aligned(spec_tokenize(a), spec_tokenize(b)),
        kinds_aligned(spec_tokenize(b), spec_tokenize(c)),
        kinds_aligned(spec_tokenize(a), spec_tokenize(c)),
        spec_compare(a, b) != Ordering::Greater,
        spec_compare(b, c) != Ordering::Greater,
    ensures
        spec_compare(a, c) == (if spec_compare(a, b) == Ordering::Equal && spec_compare(b, c)
            == Ordering::Equal {
            Ordering::Equal
        } else {
            Ordering::Less
        }),
{
    lemma_tokenize_fold_safe(a);
    lemma_tokenize_fold_safe(b);
    lemma_tokenize_fold_safe(c);
    lemma_cmp_tokens_from_trans(spec_tokenize(a), spec_tokenize(b), spec_tokenize(c), 0);
}

/// When every token of the shorter sequence ties with its counterpart,
/// the comparison falls back to the lengths: fewer tokens sort first.
proof fn lemma_cmp_tokens_from_prefix(x: Seq<SpecToken>, y: Seq<SpecToken>, i: int)
    requires
        0 <= i <= x.len(),
        x.len() < y.len(),
        forall|k: int| 0 <= k < x.len() ==> spec_cmp_token(x[k], y[k]) == Ordering::Equal,
    ensures
        cmp_tokens_from(x, y, i) == Ordering::Less,
    decreases x.len() - i,
{
    if i < x.len() {
        lemma_cmp_tokens_from_prefix(x, y, i + 1);
    }
}

/// Length fallback of the natural string order: when one string's tokens
/// pairwise tie with the other's leading tokens and the other has more,
/// the string with fewer tokens sorts first.
pub proof fn lemma_compare_length_fallback(a: Seq<u8>, b: Seq<u8>)
    requires
        spec_tokenize(a).len() < spec_tokenize(b).len(),
        forall|k: int| 0 <= k < spec_tokenize(a).len() ==> spec_cmp_token(
            #[trigger] spec_tokenize(a)[k],
            spec_tokenize(b)[k],
        ) == Ordering::Equal,
    ensures
        spec_compare(a, b) == Ordering::Less,
{
    lemma_cmp_tokens_from_prefix(spec_tokenize(a), spec_tokenize(b), 0);
}

} // verus!
