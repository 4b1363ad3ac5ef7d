//! The ASCII case-insensitive string comparator and its byte-for-byte
//! tie-break.

use std::cmp::Ordering;
use proper_sort::{cmp_ascii_ignore_case, Size, Token};

#[test]
fn case_fold_basics() {
    assert_eq!(cmp_ascii_ignore_case("b", "a"), Ordering::Greater);
    assert_eq!(cmp_ascii_ignore_case("a", "b"), Ordering::Less);
    assert_eq!(cmp_ascii_ignore_case("abc", "abc"), Ordering::Equal);
    assert_eq!(cmp_ascii_ignore_case("abc", "abd"), Ordering::Less);
}

#[test]
fn pure_case_difference_tie_breaks_by_bytes() {
    // uppercase code points are smaller, so "A" sorts before "a"
    assert_eq!(cmp_ascii_ignore_case("A", "a"), Ordering::Less);
    assert_eq!(cmp_ascii_ignore_case("a", "A"), Ordering::Greater);
    // the fold finds no difference; the byte tie-break sees 's' > 'S'
    assert_eq!(cmp_ascii_ignore_case("string one", "String One"), Ordering::Greater);
    assert_eq!(cmp_ascii_ignore_case("aB", "Ab"), Ordering::Greater);
}

#[test]
fn case_differences_never_compare_equal() {
    assert_ne!(cmp_ascii_ignore_case("Crank", "crank"), Ordering::Equal);
}

#[test]
fn shorter_prefix_sorts_first() {
    assert_eq!(cmp_ascii_ignore_case("ab", "abc"), Ordering::Less);
    assert_eq!(cmp_ascii_ignore_case("ABC", "ab"), Ordering::Greater);
    assert_eq!(cmp_ascii_ignore_case("", "a"), Ordering::Less);
    assert_eq!(cmp_ascii_ignore_case("", ""), Ordering::Equal);
}

#[test]
fn non_ascii_bytes_compare_directly() {
    assert_eq!(cmp_ascii_ignore_case("\u{e9}", "f"), Ordering::Greater);
    assert_eq!(cmp_ascii_ignore_case("\u{e9}", "\u{e9}"), Ordering::Equal);
}

#[test]
fn token_comparison_rules() {
    let text_a = Token::Text(b"Blue".to_vec(), 0);
    let text_b = Token::Text(b"blue".to_vec(), 0);
    assert_eq!(text_a.cmp(&text_b), Ordering::Less);
    let n_small = Token::Number(b"08".to_vec(), 8, 0);
    let n_large = Token::Number(b"9".to_vec(), 9, 0);
    assert_eq!(n_small.cmp(&n_large), Ordering::Less);
    assert_eq!(n_small.cmp(&Token::Number(b"8".to_vec(), 8, 3)), Ordering::Equal);
    let s_low = Token::Size(b"xs".to_vec(), Size::XS, 0);
    let s_high = Token::Size(b"XXXXL".to_vec(), Size::XXXXL, 0);
    assert_eq!(s_low.cmp(&s_high), Ordering::Less);
    // different kinds: raw byte order decides
    let num = Token::Number(b"2".to_vec(), 2, 0);
    let txt = Token::Text(b"b".to_vec(), 0);
    assert_eq!(num.cmp(&txt), Ordering::Less);
    assert_eq!(txt.cmp(&num), Ordering::Greater);
}

#[test]
fn size_rank_matches_the_scale() {
    let scale = [
        Size::XXXXS,
        Size::XXXS,
        Size::XXS,
        Size::XS,
        Size::S,
        Size::SM,
        Size::M,
        Size::ML,
        Size::L,
        Size::LXL,
        Size::XL,
        Size::XXL,
        Size::XXXL,
        Size::XXXXL,
    ];
    for (i, s) in scale.iter().enumerate() {
        assert_eq!(s.rank() as usize, i);
    }
}
