//! The natural string order: numeric ordering, size ordering, length
//! fallback, and edge cases.

use std::cmp::Ordering;
use proper_sort::compare;

#[test]
fn numeric_ordering() {
    assert_eq!(compare("Crank 170mm Blue", "Crank 172.5mm Blue"), Ordering::Less);
    assert_eq!(compare("Crank 172.5mm Blue", "Crank 175mm Blue"), Ordering::Less);
    assert_eq!(compare("Crank 175mm Blue", "Crank 180mm Blue"), Ordering::Less);
}

#[test]
fn numeric_ordering_beats_lexicographic() {
    // plain byte order would put "20mm" before "5mm"
    assert_eq!(compare("5mm", "20mm"), Ordering::Less);
    let mut v = vec!["20mm", "5mm", "100mm"];
    v.sort_by(|a, b| compare(a, b));
    assert_eq!(v, vec!["5mm", "20mm", "100mm"]);
}

#[test]
fn size_ordering() {
    let mut v = vec![
        "T-Shirt L Black",
        "T-Shirt XS Black",
        "T-Shirt Extra Large Black",
        "T-Shirt Medium Black",
    ];
    v.sort_by(|a, b| compare(a, b));
    assert_eq!(
        v,
        vec![
            "T-Shirt XS Black",
            "T-Shirt Medium Black",
            "T-Shirt L Black",
            "T-Shirt Extra Large Black",
        ]
    );
}

#[test]
fn straddle_sizes_sit_between_neighbours() {
    assert_eq!(compare("Shirt S/M", "Shirt M"), Ordering::Less);
    assert_eq!(compare("Shirt S", "Shirt S-M"), Ordering::Less);
    assert_eq!(compare("Shirt M", "Shirt M-L"), Ordering::Less);
    assert_eq!(compare("Shirt M/L", "Shirt L"), Ordering::Less);
    assert_eq!(compare("Shirt L/XL", "Shirt XL"), Ordering::Less);
    assert_eq!(compare("Shirt L", "Shirt L-XL"), Ordering::Less);
}

#[test]
fn length_fallback() {
    assert_eq!(compare("A", "A Black"), Ordering::Less);
    assert_eq!(compare("A Black", "A"), Ordering::Greater);
}

#[test]
fn empty_and_whitespace_inputs() {
    assert_eq!(compare("", ""), Ordering::Equal);
    assert_eq!(compare("", "a"), Ordering::Less);
    assert_eq!(compare("a", ""), Ordering::Greater);
    assert_eq!(compare("   ", ""), Ordering::Equal);
    assert_eq!(compare(" \t\n ", "  "), Ordering::Equal);
}

#[test]
fn equal_numbers_regardless_of_surface_form() {
    assert_eq!(compare("08", "8"), Ordering::Equal);
    assert_eq!(compare("Crank 08 Blue", "Crank 8 Blue"), Ordering::Equal);
    assert_eq!(compare("Crank 08 Blue", "Crank 8 Red"), Ordering::Less);
}

#[test]
fn cross_kind_tie_break_is_raw_byte_order() {
    // a number token against a text token compares by raw bytes
    assert_eq!(compare("2", "b"), Ordering::Less);
    assert_eq!(compare("b", "2"), Ordering::Greater);
}

#[test]
fn text_compares_case_insensitively() {
    // same-cased first words: the fold ignores case in the second word
    assert_eq!(compare("crank blue", "crank RED"), Ordering::Less);
    assert_eq!(compare("CRANK", "crank extra"), Ordering::Less);
}

#[test]
fn pure_case_text_difference_decides_at_its_token() {
    // "crank" vs "Crank" is not Equal (byte tie-break), so the first
    // token pair settles the comparison before "blue"/"RED" is reached
    assert_eq!(compare("crank blue", "Crank RED"), Ordering::Greater);
}
