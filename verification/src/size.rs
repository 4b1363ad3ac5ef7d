//! The size vocabulary: the totally ordered scale of recognized apparel
//! sizes and the case-insensitive table mapping surface forms to it.

use vstd::prelude::*;
use crate::order::spec_fold;

verus! {

/// The recognized size designators, in ascending order. `SM`, `ML` and
/// `LXL` are composite straddle sizes for combined forms such as "S/M",
/// "M-L" and "L/XL", sitting strictly between their single neighbours.
#[derive(Clone, Copy, Debug, PartialEq, Eq, PartialOrd, Ord, Structural)]
pub enum Size {
    XXXXS,
    XXXS,
    XXS,
    XS,
    S,
    SM,
    M,
    ML,
    L,
    LXL,
    XL,
    XXL,
    XXXL,
    XXXXL,
}

/// The ordinal of a size on the scale.
pub open spec fn spec_rank(s: Size) -> int {
    match s {
        Size::XXXXS => 0,
        Size::XXXS => 1,
        Size::XXS => 2,
        Size::XS => 3,
        Size::S => 4,
        Size::SM => 5,
        Size::M => 6,
        Size::ML => 7,
        Size::L => 8,
        Size::LXL => 9,
        Size::XL => 10,
        Size::XXL => 11,
        Size::XXXL => 12,
        Size::XXXXL => 13,
    }
}

impl Size {
    /// The ordinal of this size on the scale.
    pub fn rank(&self) -> (r: u8)
        ensures
            r as int == spec_rank(*self),
    {
        match self {
            Size::XXXXS => 0,
            Size::XXXS => 1,
            Size::XXS => 2,
            Size::XS => 3,
            Size::S => 4,
            Size::SM => 5,
            Size::M => 6,
            Size::ML => 7,
            Size::L => 8,
            Size::LXL => 9,
            Size::XL => 10,
            Size::XXL => 11,
            Size::XXXL => 12,
            Size::XXXXL => 13,
        }
    }
}

/// The two words are equal under ASCII case folding: same length and the
/// bytes fold pairwise to the same value.
pub open spec fn spec_eq_ignore_case(a: Seq<u8>, b: Seq<u8>) -> bool {
    a.len() == b.len() && (forall|i: int| 0 <= i < a.len() ==> spec_fold(a[i]) == spec_fold(b[i]))
}

/// The size table: a word classifies as a size exactly when it matches one
/// of the fixed surface forms, case-insensitively. The byte literals spell
/// the lowercase forms: "xxxxs" down to "s", the straddle forms "sm",
/// "s/m", "s-m", "m", "ml", "m/l", "m-l", "l", "lxl", "l/xl", "l-xl", the
/// large side up to "xxxxl", and the synonyms "small", "medium", "med",
/// "large", "extra small", "x-small" through "xxxx-small", "extra large",
/// and "x-large" through "xxxx-large".
pub open spec fn spec_classify_size(w: Seq<u8>) -> Option<Size> {
    if spec_eq_ignore_case(w, seq![120u8, 120u8, 120u8, 120u8, 115u8]) {
        Some(Size::XXXXS)
    } else if spec_eq_ignore_case(w, seq![120u8, 120u8, 120u8, 115u8]) {
        Some(Size::XXXS)
    } else if spec_eq_ignore_case(w, seq![120u8, 120u8, 115u8]) {
        Some(Size::XXS)
    } else if spec_eq_ignore_case(w, seq![120u8, 115u8]) {
        Some(Size::XS)
    } else if spec_eq_ignore_case(w, seq![115u8]) {
        Some(Size::S)
    } else if spec_eq_ignore_case(w, seq![115u8, 109u8]) {
        Some(Size::SM)
    } else if spec_eq_ignore_case(w, seq![115u8, 47u8, 109u8]) {
        Some(Size::SM)
    } else if spec_eq_ignore_case(w, seq![115u8, 45u8, 109u8]) {
        Some(Size::SM)
    } else if spec_eq_ignore_case(w, seq![109u8]) {
        Some(Size::M)
    } else if spec_eq_ignore_case(w, seq![109u8, 108u8]) {
        Some(Size::ML)
    } else if spec_eq_ignore_case(w, seq![109u8, 47u8, 108u8]) {
        Some(Size::ML)
    } else if spec_eq_ignore_case(w, seq![109u8, 45u8, 108u8]) {
        Some(Size::ML)
    } else if spec_eq_ignore_case(w, seq![108u8]) {
        Some(Size::L)
    } else if spec_eq_ignore_case(w, seq![108u8, 120u8, 108u8]) {
        Some(Size::LXL)
    } else if spec_eq_ignore_case(w, seq![108u8, 47u8, 120u8, 108u8]) {
        Some(Size::LXL)
    } else if spec_eq_ignore_case(w, seq![108u8, 45u8, 120u8, 108u8]) {
        Some(Size::LXL)
    } else if spec_eq_ignore_case(w, seq![120u8, 108u8]) {
        Some(Size::XL)
    } else if spec_eq_ignore_case(w, seq![120u8, 120u8, 108u8]) {
        Some(Size::XXL)
    } else if spec_eq_ignore_case(w, seq![120u8, 120u8, 120u8, 108u8]) {
        Some(Size::XXXL)
    } else if spec_eq_ignore_case(w, seq![120u8, 120u8, 120u8, 120u8, 108u8]) {
        Some(Size::XXXXL)
    } else if spec_eq_ignore_case(w, seq![115u8, 109u8, 97u8, 108u8, 108u8]) {
        Some(Size::S)
    } else if spec_eq_ignore_case(w, seq![109u8, 101u8, 100u8, 105u8, 117u8, 109u8]) {
        Some(Size::M)
    } else if spec_eq_ignore_case(w, seq![109u8, 101u8, 100u8]) {
        Some(Size::M)
    } else if spec_eq_ignore_case(w, seq![108u8, 97u8, 114u8, 103u8, 101u8]) {
        Some(Size::L)
    } else if spec_eq_ignore_case(
        w,
        seq![101u8, 120u8, 116u8, 114u8, 97u8, 32u8, 115u8, 109u8, 97u8, 108u8, 108u8],
    ) {
        Some(Size::XS)
    } else if spec_eq_ignore_case(w, seq![120u8, 45u8, 115u8, 109u8, 97u8, 108u8, 108u8]) {
        Some(Size::XS)
    } else if spec_eq_ignore_case(w, seq![120u8, 120u8, 45u8, 115u8, 109u8, 97u8, 108u8, 108u8]) {
        Some(Size::XXS)
    } else if spec_eq_ignore_case(
        w,
        seq![120u8, 120u8, 120u8, 45u8, 115u8, 109u8, 97u8, 108u8, 108u8],
    ) {
        Some(Size::XXXS)
    } else if spec_eq_ignore_case(
        w,
        seq![120u8, 120u8, 120u8, 120u8, 45u8, 115u8, 109u8, 97u8, 108u8, 108u8],
    ) {
        Some(Size::XXXXS)
    } else if spec_eq_ignore_case(
        w,
        seq![101u8, 120u8, 116u8, 114u8, 97u8, 32u8, 108u8, 97u8, 114u8, 103u8, 101u8],
    ) {
        Some(Size::XL)
    } else if spec_eq_ignore_case(w, seq![120u8, 45u8, 108u8, 97u8, 114u8, 103u8, 101u8]) {
        Some(Size::XL)
    } else if spec_eq_ignore_case(w, seq![120u8, 120u8, 45u8, 108u8, 97u8, 114u8, 103u8, 101u8]) {
        Some(Size::XXL)
    } else if spec_eq_ignore_case(
        w,
        seq![120u8, 120u8, 120u8, 45u8, 108u8, 97u8, 114u8, 103u8, 101u8],
    ) {
        Some(Size::XXXL)
    } else if spec_eq_ignore_case(
        w,
        seq![120u8, 120u8, 120u8, 120u8, 45u8, 108u8, 97u8, 114u8, 103u8, 101u8],
    ) {
        Some(Size::XXXXL)
    } else {
        None
    }
}

/// Case-insensitive equality of two byte slices.
fn eq_ignore_case(a: &[u8], b: &[u8]) -> (r: bool)
    ensures
        r == spec_eq_ignore_case(a@, b@),
{
    let alen: usize = a.len();
    if alen != b.len() {
        return false;
    }
    let mut i: usize = 0;
    while i < alen
        invariant
            i <= alen,
            alen == a@.len(),
            alen == b@.len(),
            forall|j: int| 0 <= j < i ==> spec_fold(a@[j]) == spec_fold(b@[j]),
        decreases alen - i,
    {
        let x = a[i];
        let y = b[i];
        let xf = if crate::is_ascii_upper(x) {
            x + 32
        } else {
            x
        };
        let yf = if crate::is_ascii_upper(y) {
            y + 32
        } else {
            y
        };
        if xf != yf {
            return false;
        }
        i = i + 1;
    }
    true
}

/// Look a word up in the size table, case-insensitively. Exact matches
/// only: a word absent from the table never classifies.
pub fn classify_size(w: &[u8]) -> (r: Option<Size>)
    ensures
        r == spec_classify_size(w@),
{
    let pat: Vec<u8> = vec![120u8, 120u8, 120u8, 120u8, 115u8];
    if eq_ignore_case(w, pat.as_slice()) {
        return Some(Size::XXXXS);
    }
    let pat: Vec<u8> = vec![120u8, 120u8, 120u8, 115u8];
    if eq_ignore_case(w, pat.as_slice()) {
        return Some(Size::XXXS);
    }
    let pat: Vec<u8> = vec![120u8, 120u8, 115u8];
    if eq_ignore_case(w, pat.as_slice()) {
        return Some(Size::XXS);
    }
    let pat: Vec<u8> = vec![120u8, 115u8];
    if eq_ignore_case(w, pat.as_slice()) {
        return Some(Size::XS);
    }
    let pat: Vec<u8> = vec![115u8];
    if eq_ignore_case(w, pat.as_slice()) {
        return Some(Size::S);
    }
    let pat: Vec<u8> = vec![115u8, 109u8];
    if eq_ignore_case(w, pat.as_slice()) {
        return Some(Size::SM);
    }
    let pat: Vec<u8> = vec![115u8, 47u8, 109u8];
    if eq_ignore_case(w, pat.as_slice()) {
        return Some(Size::SM);
    }
    let pat: Vec<u8> = vec![115u8, 45u8, 109u8];
    if eq_ignore_case(w, pat.as_slice()) {
        return Some(Size::SM);
    }
    let pat: Vec<u8> = vec![109u8];
    if eq_ignore_case(w, pat.as_slice()) {
        return Some(Size::M);
    }
    let pat: Vec<u8> = vec![109u8, 108u8];
    if eq_ignore_case(w, pat.as_slice()) {
        return Some(Size::ML);
    }
    let pat: Vec<u8> = vec![109u8, 47u8, 108u8];
    if eq_ignore_case(w, pat.as_slice()) {
        return Some(Size::ML);
    }
    let pat: Vec<u8> = vec![109u8, 45u8, 108u8];
    if eq_ignore_case(w, pat.as_slice()) {
        return Some(Size::ML);
    }
    let pat: Vec<u8> = vec![108u8];
    if eq_ignore_case(w, pat.as_slice()) {
        return Some(Size::L);
    }
    let pat: Vec<u8> = vec![108u8, 120u8, 108u8];
    if eq_ignore_case(w, pat.as_slice()) {
        return Some(Size::LXL);
    }
    let pat: Vec<u8> = vec![108u8, 47u8, 120u8, 108u8];
    if eq_ignore_case(w, pat.as_slice()) {
        return Some(Size::LXL);
    }
    let pat: Vec<u8> = vec![108u8, 45u8, 120u8, 108u8];
    if eq_ignore_case(w, pat.as_slice()) {
        return Some(Size::LXL);
    }
    let pat: Vec<u8> = vec![120u8, 108u8];
    if eq_ignore_case(w, pat.as_slice()) {
        return Some(Size::XL);
    }
    let pat: Vec<u8> = vec![120u8, 120u8, 108u8];
    if eq_ignore_case(w, pat.as_slice()) {
        return Some(Size::XXL);
    }
    let pat: Vec<u8> = vec![120u8, 120u8, 120u8, 108u8];
    if eq_ignore_case(w, pat.as_slice()) {
        return Some(Size::XXXL);
    }
    let pat: Vec<u8> = vec![120u8, 120u8, 120u8, 120u8, 108u8];
    if eq_ignore_case(w, pat.as_slice()) {
        return Some(Size::XXXXL);
    }
    let pat: Vec<u8> = vec![115u8, 109u8, 97u8, 108u8, 108u8];
    if eq_ignore_case(w, pat.as_slice()) {
        return Some(Size::S);
    }
    let pat: Vec<u8> = vec![109u8, 101u8, 100u8, 105u8, 117u8, 109u8];
    if eq_ignore_case(w, pat.as_slice()) {
        return Some(Size::M);
    }
    let pat: Vec<u8> = vec![109u8, 101u8, 100u8];
    if eq_ignore_case(w, pat.as_slice()) {
        return Some(Size::M);
    }
    let pat: Vec<u8> = vec![108u8, 97u8, 114u8, 103u8, 101u8];
    if eq_ignore_case(w, pat.as_slice()) {
        return Some(Size::L);
    }
    let pat: Vec<u8> = vec![101u8, 120u8, 116u8, 114u8, 97u8, 32u8, 115u8, 109u8, 97u8, 108u8, 108u8];
    if eq_ignore_case(w, pat.as_slice()) {
        return Some(Size::XS);
    }
    let pat: Vec<u8> = vec![120u8, 45u8, 115u8, 109u8, 97u8, 108u8, 108u8];
    if eq_ignore_case(w, pat.as_slice()) {
        return Some(Size::XS);
    }
    let pat: Vec<u8> = vec![120u8, 120u8, 45u8, 115u8, 109u8, 97u8, 108u8, 108u8];
    if eq_ignore_case(w, pat.as_slice()) {
        return Some(Size::XXS);
    }
    let pat: Vec<u8> = vec![120u8, 120u8, 120u8, 45u8, 115u8, 109u8, 97u8, 108u8, 108u8];
    if eq_ignore_case(w, pat.as_slice()) {
        return Some(Size::XXXS);
    }
    let pat: Vec<u8> = vec![120u8, 120u8, 120u8, 120u8, 45u8, 115u8, 109u8, 97u8, 108u8, 108u8];
    if eq_ignore_case(w, pat.as_slice()) {
        return Some(Size::XXXXS);
    }
    let pat: Vec<u8> = vec![101u8, 120u8, 116u8, 114u8, 97u8, 32u8, 108u8, 97u8, 114u8, 103u8, 101u8];
    if eq_ignore_case(w, pat.as_slice()) {
        return Some(Size::XL);
    }
    let pat: Vec<u8> = vec![120u8, 45u8, 108u8, 97u8, 114u8, 103u8, 101u8];
    if eq_ignore_case(w, pat.as_slice()) {
        return Some(Size::XL);
    }
    let pat: Vec<u8> = vec![120u8, 120u8, 45u8, 108u8, 97u8, 114u8, 103u8, 101u8];
    if eq_ignore_case(w, pat.as_slice()) {
        return Some(Size::XXL);
    }
    let pat: Vec<u8> = vec![120u8, 120u8, 120u8, 45u8, 108u8, 97u8, 114u8, 103u8, 101u8];
    if eq_ignore_case(w, pat.as_slice()) {
        return Some(Size::XXXL);
    }
    let pat: Vec<u8> = vec![120u8, 120u8, 120u8, 120u8, 45u8, 108u8, 97u8, 114u8, 103u8, 101u8];
    if eq_ignore_case(w, pat.as_slice()) {
        return Some(Size::XXXXL);
    }
    None
}

} // verus!
