//! Colours written as `#RRGGBB` or `#AARRGGBB`.

use vstd::prelude::*;
use vstd::string::*;
use vstd::utf8::is_ascii_chars;
use crate::error::ParseTileError;

verus! {

/// A colour with its opacity. A colour written without opacity is opaque.
#[derive(Debug, PartialEq, Eq, Copy, Clone, Structural)]
pub struct Colour {
    pub alpha: u8,
    pub red: u8,
    pub green: u8,
    pub blue: u8,
}

/// The number a hexadecimal digit stands for; upper and lower case count alike.
pub open spec fn hex_digit(c: char) -> Option<u8> {
    if '0' <= c && c <= '9' {
        Some((c as u32 - '0' as u32) as u8)
    } else if 'a' <= c && c <= 'f' {
        Some((c as u32 - 'a' as u32 + 10) as u8)
    } else if 'A' <= c && c <= 'F' {
        Some((c as u32 - 'A' as u32 + 10) as u8)
    } else {
        None
    }
}

/// The byte written by two hexadecimal digits.
pub open spec fn hex_byte(high: char, low: char) -> Option<u8> {
    match (hex_digit(high), hex_digit(low)) {
        (Some(h), Some(l)) => Some((h * 16 + l) as u8),
        _ => None,
    }
}

fn hex_digit_of(b: u8, Ghost(c): Ghost<char>) -> (r: Option<u8>)
    requires
        c <= '\u{7f}',
        b == c as u8,
    ensures
        r == hex_digit(c),
        r matches Some(v) ==> v < 16,
{
    if 48u8 <= b && b <= 57u8 {
        Some(b - 48u8)
    } else if 97u8 <= b && b <= 102u8 {
        Some(b - 97u8 + 10u8)
    } else if 65u8 <= b && b <= 70u8 {
        Some(b - 65u8 + 10u8)
    } else {
        None
    }
}

fn hex_byte_of(high: u8, low: u8, Ghost(h): Ghost<char>, Ghost(l): Ghost<char>) -> (r: Option<u8>)
    requires
        h <= '\u{7f}',
        l <= '\u{7f}',
        high == h as u8,
        low == l as u8,
    ensures
        r == hex_byte(h, l),
{
    match (hex_digit_of(high, Ghost(h)), hex_digit_of(low, Ghost(l))) {
        (Some(a), Some(b)) => Some(a * 16u8 + b),
        _ => None,
    }
}

impl Colour {
    /// The colour that a text writes: `#`, then six hexadecimal digits for
    /// red, green and blue, or eight with the opacity first.
    pub open spec fn parse_spec(s: Seq<char>) -> Result<Colour, ParseTileError> {
        if s.len() == 7 && s[0] == '#' {
            match (hex_byte(s[1], s[2]), hex_byte(s[3], s[4]), hex_byte(s[5], s[6])) {
                (Some(red), Some(green), Some(blue)) => Ok(Colour { alpha: 255, red, green, blue }),
                _ => Err(ParseTileError::ColourError),
            }
        } else if s.len() == 9 && s[0] == '#' {
            match (
                hex_byte(s[1], s[2]),
                hex_byte(s[3], s[4]),
                hex_byte(s[5], s[6]),
                hex_byte(s[7], s[8]),
            ) {
                (Some(alpha), Some(red), Some(green), Some(blue)) => Ok(
                    Colour { alpha, red, green, blue },
                ),
                _ => Err(ParseTileError::ColourError),
            }
        } else {
            Err(ParseTileError::ColourError)
        }
    }

    /// Reads a colour.
    pub fn from_str(s: &str) -> (r: Result<Colour, ParseTileError>)
        ensures
            r == Colour::parse_spec(s@),
    {
        if !s.is_ascii() {
            proof {
                let i = choose|i: int| 0 <= i < s@.len() && !('\0' <= #[trigger] s@[i] <= '\u{7f}');
                assert(hex_digit(s@[i]) is None);
                assert(s@[i] != '#');
            }
            return Err(ParseTileError::ColourError);
        }
        let b = s.as_bytes();
        proof {
            is_ascii_spec_bytes(s);
        }
        let n = b.len();
        if n != 7 && n != 9 {
            return Err(ParseTileError::ColourError);
        }
        if b[0] != 35u8 {
            return Err(ParseTileError::ColourError);
        }
        let ghost c = s@;
        let first = hex_byte_of(b[1], b[2], Ghost(c[1]), Ghost(c[2]));
        let second = hex_byte_of(b[3], b[4], Ghost(c[3]), Ghost(c[4]));
        let third = hex_byte_of(b[5], b[6], Ghost(c[5]), Ghost(c[6]));
        if n == 7 {
            match (first, second, third) {
                (Some(red), Some(green), Some(blue)) => Ok(Colour { alpha: 255, red, green, blue }),
                _ => Err(ParseTileError::ColourError),
            }
        } else {
            let fourth = hex_byte_of(b[7], b[8], Ghost(c[7]), Ghost(c[8]));
            match (first, second, third, fourth) {
                (Some(alpha), Some(red), Some(green), Some(blue)) => Ok(
                    Colour { alpha, red, green, blue },
                ),
                _ => Err(ParseTileError::ColourError),
            }
        }
    }
}

} // verus!
