//! Format sniffer for STL streams.
//!
//! A stream is taken for ASCII exactly when it opens with the keyword
//! `solid`, compared without regard to letter case. This is the format's
//! own heuristic, not a guarantee: a binary file whose header happens to
//! spell the keyword is misclassified, an accepted limitation.

use vstd::prelude::*;

verus! {

/// The letter-case-folded value of an ASCII byte.
pub open spec fn lower_byte(b: u8) -> int {
    if 65 <= b <= 90 {
        b + 32
    } else {
        b as int
    }
}

/// Whether the stream opens with the keyword `solid`, in any letter case.
pub open spec fn sniffs_ascii(b: Seq<u8>) -> bool {
    b.len() >= 5 && lower_byte(b[0]) == 115 && lower_byte(b[1]) == 111 && lower_byte(b[2]) == 108
        && lower_byte(b[3]) == 105 && lower_byte(b[4]) == 100
}

/// Folds the letter case of a concrete byte.
fn lower_byte_of(b: u8) -> (r: u8)
    ensures
        r == lower_byte(b),
{
    if b >= 65 && b <= 90 {
        b + 32
    } else {
        b
    }
}

/// Decides whether an STL stream is ASCII; anything else is binary.
pub fn sniff_is_ascii(bytes: &Vec<u8>) -> (r: bool)
    ensures
        r == sniffs_ascii(bytes@),
{
    if bytes.len() < 5 {
        return false;
    }
    lower_byte_of(bytes[0]) == 115 && lower_byte_of(bytes[1]) == 111 && lower_byte_of(bytes[2])
        == 108 && lower_byte_of(bytes[3]) == 105 && lower_byte_of(bytes[4]) == 100
}

} // verus!
