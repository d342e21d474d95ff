//! Named byte values for the ASCII characters that the specs and the
//! formatting code mention individually.
use vstd::prelude::*;

verus! {

/// `NUL`
pub const NUL: u8 = 0;
/// Line feed, `\n`
pub const LF: u8 = 10;
/// Carriage return, `\r`
pub const CR: u8 = 13;
/// `' '`
pub const SPACE: u8 = 32;
/// `'"'`
pub const QUOTE: u8 = 34;
/// `','`
pub const COMMA: u8 = 44;
/// `'-'`
pub const HYPHEN: u8 = 45;
/// `'.'`
pub const DOT: u8 = 46;
/// `'/'`
pub const SLASH: u8 = 47;
/// `'0'`
pub const DIGIT_ZERO: u8 = 48;
/// `':'`
pub const COLON: u8 = 58;
/// `'T'`
pub const UPPER_T: u8 = 84;
/// `'Z'`
pub const UPPER_Z: u8 = 90;
/// `'\\'`
pub const BACKSLASH: u8 = 92;
/// `'u'`
pub const LOWER_U: u8 = 117;
/// `'{'`
pub const LBRACE: u8 = 123;
/// `'}'`
pub const RBRACE: u8 = 125;

/// The byte for decimal digit `d` (meaningful for `d < 10`).
pub open spec fn spec_digit(d: int) -> u8 {
    (DIGIT_ZERO + d) as u8
}

/// The byte for hexadecimal digit `d` (meaningful for `d < 16`), lower case.
pub open spec fn spec_hex_digit(d: int) -> u8 {
    if d < 10 {
        (DIGIT_ZERO + d) as u8
    } else {
        // 'a' is 97, so 10 maps to 97
        (87 + d) as u8
    }
}

/// Decimal digit byte for `d < 10`.
pub fn digit(d: u8) -> (r: u8)
    requires
        d < 10,
    ensures
        r == spec_digit(d as int),
{
    DIGIT_ZERO + d
}

/// Hexadecimal digit byte for `d < 16`, lower case.
pub fn hex_digit(d: u8) -> (r: u8)
    requires
        d < 16,
    ensures
        r == spec_hex_digit(d as int),
{
    if d < 10 {
        DIGIT_ZERO + d
    } else {
        87 + d
    }
}

} // verus!
