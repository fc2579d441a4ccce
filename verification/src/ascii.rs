//! Named ASCII byte values and the character classes of the manifest
//! grammar.
//!
//! The manifest format is line-oriented ASCII; the whole library therefore
//! works on bytes.  The byte constants below name every ASCII value the
//! grammar mentions, and the `is_*` predicates are the character classes of
//! its tokens.

use vstd::prelude::*;

verus! {

pub const TAB: u8 = 9;

pub const SPACE: u8 = 32;

pub const APOSTROPHE: u8 = 39;

pub const HYPHEN: u8 = 45;

pub const DOT: u8 = 46;

pub const SLASH: u8 = 47;

pub const DIGIT_0: u8 = 48;

pub const DIGIT_4: u8 = 52;

pub const DIGIT_5: u8 = 53;

pub const DIGIT_6: u8 = 54;

pub const DIGIT_8: u8 = 56;

pub const DIGIT_9: u8 = 57;

pub const COLON: u8 = 58;

pub const UPPER_A: u8 = 65;

pub const UPPER_C: u8 = 67;

pub const UPPER_D: u8 = 68;

pub const UPPER_F: u8 = 70;

pub const UPPER_M: u8 = 77;

pub const UPPER_T: u8 = 84;

pub const UPPER_Z: u8 = 90;

pub const UNDERSCORE: u8 = 95;

pub const LOWER_A: u8 = 97;

pub const LOWER_B: u8 = 98;

pub const LOWER_E: u8 = 101;

pub const LOWER_F: u8 = 102;

pub const LOWER_M: u8 = 109;

pub const LOWER_O: u8 = 111;

pub const LOWER_S: u8 = 115;

pub const LOWER_T: u8 = 116;

pub const LOWER_V: u8 = 118;

pub const LOWER_X: u8 = 120;

pub const LOWER_Y: u8 = 121;

pub const LOWER_Z: u8 = 122;

/// A decimal digit.
pub open spec fn is_digit(b: u8) -> bool {
    DIGIT_0 <= b <= DIGIT_9
}

/// Blank space inside or between tokens: space or horizontal tab.
pub open spec fn is_blank(b: u8) -> bool {
    b == SPACE || b == TAB
}

/// A character of the access-level separator: blank space or a hyphen.
pub open spec fn is_level_sep(b: u8) -> bool {
    is_blank(b) || b == HYPHEN
}

/// A character of a version token: a decimal digit or a dot.
pub open spec fn is_version_byte(b: u8) -> bool {
    is_digit(b) || b == DOT
}

/// A character of a product token: a letter, digit, underscore,
/// apostrophe, or blank space.
pub open spec fn is_product_byte(b: u8) -> bool {
    ||| is_digit(b)
    ||| UPPER_A <= b <= UPPER_Z
    ||| LOWER_A <= b <= LOWER_Z
    ||| b == UNDERSCORE
    ||| b == APOSTROPHE
    ||| is_blank(b)
}

/// A character of a filename token: anything but a slash or blank space.
pub open spec fn is_filename_byte(b: u8) -> bool {
    b != SLASH && !is_blank(b)
}

/// A hexadecimal digit, either case.
pub open spec fn is_hex_digit(b: u8) -> bool {
    is_digit(b) || (UPPER_A <= b <= UPPER_F) || (LOWER_A <= b <= LOWER_F)
}

/// An upper-case hexadecimal digit.
pub open spec fn is_upper_hex_digit(b: u8) -> bool {
    is_digit(b) || (UPPER_A <= b <= UPPER_F)
}

/// The upper-case form of a hexadecimal digit: lower-case letters `a`-`f`
/// move to `A`-`F`, everything else is unchanged.
pub open spec fn hex_to_upper(b: u8) -> u8 {
    if LOWER_A <= b <= LOWER_F {
        (b - 32) as u8
    } else {
        b
    }
}

/// A byte sequence with every hexadecimal digit moved to upper case.
pub open spec fn upper_hex_seq(s: Seq<u8>) -> Seq<u8> {
    s.map_values(|b: u8| hex_to_upper(b))
}

/// Exec form of `hex_to_upper`.
pub fn hex_upper(b: u8) -> (r: u8)
    ensures
        r == hex_to_upper(b),
{
    if LOWER_A <= b && b <= LOWER_F {
        b - 32
    } else {
        b
    }
}

/// Exec form of `is_digit`.
pub fn digit(b: u8) -> (r: bool)
    ensures
        r == is_digit(b),
{
    DIGIT_0 <= b && b <= DIGIT_9
}

/// Exec form of `is_blank`.
pub fn blank(b: u8) -> (r: bool)
    ensures
        r == is_blank(b),
{
    b == SPACE || b == TAB
}

/// Exec form of `is_level_sep`.
pub fn level_sep(b: u8) -> (r: bool)
    ensures
        r == is_level_sep(b),
{
    blank(b) || b == HYPHEN
}

/// Exec form of `is_version_byte`.
pub fn version_byte(b: u8) -> (r: bool)
    ensures
        r == is_version_byte(b),
{
    digit(b) || b == DOT
}

/// Exec form of `is_product_byte`.
pub fn product_byte(b: u8) -> (r: bool)
    ensures
        r == is_product_byte(b),
{
    digit(b) || (UPPER_A <= b && b <= UPPER_Z) || (LOWER_A <= b && b <= LOWER_Z) || b == UNDERSCORE
        || b == APOSTROPHE || blank(b)
}

/// Exec form of `is_filename_byte`.
pub fn filename_byte(b: u8) -> (r: bool)
    ensures
        r == is_filename_byte(b),
{
    b != SLASH && !blank(b)
}

/// Exec form of `is_hex_digit`.
pub fn hex_digit(b: u8) -> (r: bool)
    ensures
        r == is_hex_digit(b),
{
    digit(b) || (UPPER_A <= b && b <= UPPER_F) || (LOWER_A <= b && b <= LOWER_F)
}

} // verus!
