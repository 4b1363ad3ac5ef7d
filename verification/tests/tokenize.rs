//! The tokenizer: word classification, the two-word size merge, the
//! digit/non-digit split, and determinism.

use proper_sort::{ProperString, Size, Token};

#[test]
fn two_word_merge() {
    let ts = ProperString::new("T-Shirt Extra Large Black");
    assert_eq!(
        ts.tokens,
        vec![
            Token::Text(b"T-Shirt".to_vec(), 0),
            Token::Size(b"Extra Large".to_vec(), Size::XL, 14),
            Token::Text(b"Black".to_vec(), 20),
        ]
    );
}

#[test]
fn mixed_alnum_split() {
    let ts = ProperString::new("36T");
    assert_eq!(
        ts.tokens,
        vec![Token::Number(b"36".to_vec(), 36, 0), Token::Text(b"T".to_vec(), 2)]
    );
}

#[test]
fn tokenize_is_deterministic() {
    let input = "T-Shirt 36T Extra Large 172.5mm  Black";
    let first = ProperString::new(input);
    let second = ProperString::new(input);
    assert_eq!(first.tokens, second.tokens);
    assert_eq!(first, second);
}

#[test]
fn decimal_word_splits_in_integer_mode() {
    let ts = ProperString::new("172.5mm");
    assert_eq!(
        ts.tokens,
        vec![
            Token::Number(b"172".to_vec(), 172, 0),
            Token::Text(b".".to_vec(), 3),
            Token::Number(b"5".to_vec(), 5, 4),
            Token::Text(b"mm".to_vec(), 5),
        ]
    );
}

#[test]
fn sign_is_part_of_a_whole_number_word_only() {
    let ts = ProperString::new("-5");
    assert_eq!(ts.tokens, vec![Token::Number(b"-5".to_vec(), -5, 0)]);
    let ts = ProperString::new("-5x");
    assert_eq!(
        ts.tokens,
        vec![
            Token::Text(b"-".to_vec(), 0),
            Token::Number(b"5".to_vec(), 5, 1),
            Token::Text(b"x".to_vec(), 2),
        ]
    );
}

#[test]
fn out_of_range_digit_runs_stay_text() {
    let ts = ProperString::new("99999999999999999999");
    assert_eq!(ts.tokens, vec![Token::Text(b"99999999999999999999".to_vec(), 0)]);
    // one past i64::MAX does not parse, even though i64::MIN's magnitude does
    let ts = ProperString::new("9223372036854775808");
    assert_eq!(ts.tokens, vec![Token::Text(b"9223372036854775808".to_vec(), 0)]);
    let ts = ProperString::new("-9223372036854775808");
    assert_eq!(
        ts.tokens,
        vec![Token::Number(b"-9223372036854775808".to_vec(), i64::MIN, 0)]
    );
    let ts = ProperString::new("9223372036854775807");
    assert_eq!(
        ts.tokens,
        vec![Token::Number(b"9223372036854775807".to_vec(), i64::MAX, 0)]
    );
}

#[test]
fn size_words_classify_case_insensitively() {
    let ts = ProperString::new("S/M");
    assert_eq!(ts.tokens, vec![Token::Size(b"S/M".to_vec(), Size::SM, 0)]);
    let ts = ProperString::new("med");
    assert_eq!(ts.tokens, vec![Token::Size(b"med".to_vec(), Size::M, 0)]);
    let ts = ProperString::new("XXXX-LARGE");
    assert_eq!(ts.tokens, vec![Token::Size(b"XXXX-LARGE".to_vec(), Size::XXXXL, 0)]);
    let ts = ProperString::new("l");
    assert_eq!(ts.tokens, vec![Token::Size(b"l".to_vec(), Size::L, 0)]);
}

#[test]
fn merge_keeps_the_original_spelling() {
    let ts = ProperString::new("EXTRA SMALL");
    assert_eq!(ts.tokens, vec![Token::Size(b"EXTRA SMALL".to_vec(), Size::XS, 6)]);
}

#[test]
fn merge_requires_a_single_space() {
    // two spaces between the words: the merged span does not match the
    // table, so "Extra" stays text and "Large" classifies on its own
    let ts = ProperString::new("Extra  Large");
    assert_eq!(
        ts.tokens,
        vec![
            Token::Text(b"Extra".to_vec(), 0),
            Token::Size(b"Large".to_vec(), Size::L, 7),
        ]
    );
}

#[test]
fn whitespace_separates_words() {
    let ts = ProperString::new("a\tb\nc");
    assert_eq!(
        ts.tokens,
        vec![
            Token::Text(b"a".to_vec(), 0),
            Token::Text(b"b".to_vec(), 2),
            Token::Text(b"c".to_vec(), 4),
        ]
    );
}

#[test]
fn empty_input_has_no_tokens() {
    assert_eq!(ProperString::new("").tokens, vec![]);
    assert_eq!(ProperString::new(" \t ").tokens, vec![]);
}
