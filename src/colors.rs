use vstd::prelude::*;

use vstd::string::StringExecFns;
use vstd::utf8::encode_utf8;

verus! {

/// Why a colour string was refused.
#[derive(PartialEq, Eq, Structural, Debug, Clone, Copy)]
pub enum ColorParseError {
    InvalidLength,
    InvalidFormat,
    ParseError,
}

/// The sentence that describes a colour error.
pub open spec fn color_error_text(e: ColorParseError) -> Seq<char> {
    match e {
        ColorParseError::InvalidFormat => "invalid hex string, expected '#' at the start"@,
        ColorParseError::InvalidLength => "invalid length of the hex string, should start with '#' and have 6 characters for Color3B or 6/8 characters for Color4B"@,
        ColorParseError::ParseError => "invalid hex bytes encountered in the string"@,
    }
}

impl ColorParseError {
    /// A short sentence describing the error.
    pub fn message(&self) -> (r: String)
        ensures
            r@ == color_error_text(*self),
    {
        match self {
            ColorParseError::InvalidFormat => String::from_str("invalid hex string, expected '#' at the start"),
            ColorParseError::InvalidLength => String::from_str("invalid length of the hex string, should start with '#' and have 6 characters for Color3B or 6/8 characters for Color4B"),
            ColorParseError::ParseError => String::from_str("invalid hex bytes encountered in the string"),
        }
    }
}

/// An opaque RGB colour.
#[derive(PartialEq, Eq, Structural, Debug, Clone, Copy)]
pub struct Color3B {
    pub r: u8,
    pub g: u8,
    pub b: u8,
}

/// An RGBA colour.
#[derive(PartialEq, Eq, Structural, Debug, Clone, Copy)]
pub struct Color4B {
    pub r: u8,
    pub g: u8,
    pub b: u8,
    pub a: u8,
}

/// The value of an ASCII hex digit.
pub open spec fn hex_digit(c: u8) -> Option<u8> {
    if 48 <= c <= 57 {
        Some((c - 48) as u8)
    } else if 97 <= c <= 102 {
        Some((c - 87) as u8)
    } else if 65 <= c <= 70 {
        Some((c - 55) as u8)
    } else {
        None
    }
}

/// The byte written by the two hex digits of `s` at `i`.
pub open spec fn hex_pair(s: Seq<u8>, i: int) -> Option<u8> {
    match (hex_digit(s[i]), hex_digit(s[i + 1])) {
        (Some(h), Some(l)) => Some((h * 16 + l) as u8),
        _ => None,
    }
}

fn hex_digit_of(c: u8) -> (r: Option<u8>)
    ensures
        r == hex_digit(c),
{
    if 48 <= c && c <= 57 {
        Some(c - 48)
    } else if 97 <= c && c <= 102 {
        Some(c - 87)
    } else if 65 <= c && c <= 70 {
        Some(c - 55)
    } else {
        None
    }
}

fn hex_pair_of(s: &[u8], i: usize) -> (r: Result<u8, ColorParseError>)
    requires
        i + 1 < s@.len(),
    ensures
        match hex_pair(s@, i as int) {
            Some(v) => r == Ok::<u8, ColorParseError>(v),
            None => r == Err::<u8, ColorParseError>(ColorParseError::ParseError),
        },
{
    match (hex_digit_of(s[i]), hex_digit_of(s[i + 1])) {
        (Some(h), Some(l)) => Ok(h * 16 + l),
        _ => Err(ColorParseError::ParseError),
    }
}

/// What reading `#RRGGBB` from the bytes `s` gives.
pub open spec fn color3_of(s: Seq<u8>) -> Result<Color3B, ColorParseError> {
    if s.len() != 7 {
        Err(ColorParseError::InvalidLength)
    } else if s[0] != 35 {
        Err(ColorParseError::InvalidFormat)
    } else {
        match (hex_pair(s, 1), hex_pair(s, 3), hex_pair(s, 5)) {
            (Some(r), Some(g), Some(b)) => Ok(Color3B { r, g, b }),
            _ => Err(ColorParseError::ParseError),
        }
    }
}

/// What reading `#RRGGBB` or `#RRGGBBAA` from the bytes `s` gives; a missing
/// alpha is zero.
pub open spec fn color4_of(s: Seq<u8>) -> Result<Color4B, ColorParseError> {
    if s.len() != 7 && s.len() != 9 {
        Err(ColorParseError::InvalidLength)
    } else if s[0] != 35 {
        Err(ColorParseError::InvalidFormat)
    } else {
        match (hex_pair(s, 1), hex_pair(s, 3), hex_pair(s, 5)) {
            (Some(r), Some(g), Some(b)) => if s.len() == 9 {
                match hex_pair(s, 7) {
                    Some(a) => Ok(Color4B { r, g, b, a }),
                    None => Err(ColorParseError::ParseError),
                }
            } else {
                Ok(Color4B { r, g, b, a: 0 })
            },
            _ => Err(ColorParseError::ParseError),
        }
    }
}

impl Color3B {
    /// Reads a colour written `#RRGGBB`.
    pub fn from_str(value: &str) -> (r: Result<Color3B, ColorParseError>)
        ensures
            r == color3_of(encode_utf8(value@)),
    {
        let s = value.as_bytes();
        if s.len() != 7 {
            return Err(ColorParseError::InvalidLength);
        }
        if s[0] != 35 {
            return Err(ColorParseError::InvalidFormat);
        }
        let r = hex_pair_of(s, 1)?;
        let g = hex_pair_of(s, 3)?;
        let b = hex_pair_of(s, 5)?;
        Ok(Color3B { r, g, b })
    }
}

impl Color4B {
    /// Reads a colour written `#RRGGBB` or `#RRGGBBAA`.
    pub fn from_str(value: &str) -> (r: Result<Color4B, ColorParseError>)
        ensures
            r == color4_of(encode_utf8(value@)),
    {
        let s = value.as_bytes();
        if s.len() != 7 && s.len() != 9 {
            return Err(ColorParseError::InvalidLength);
        }
        if s[0] != 35 {
            return Err(ColorParseError::InvalidFormat);
        }
        let r = hex_pair_of(s, 1)?;
        let g = hex_pair_of(s, 3)?;
        let b = hex_pair_of(s, 5)?;
        let a = if s.len() == 9 {
            hex_pair_of(s, 7)?
        } else {
            0u8
        };
        Ok(Color4B { r, g, b, a })
    }
}

} // verus!
