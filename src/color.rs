use vstd::prelude::*;
use vstd::string::StringSliceAdditionalSpecFns;
use crate::error::ConfigError;

verus! {

/// A color as red, green, blue and unmultiplied alpha channels.
#[derive(Debug, Clone, Copy, PartialEq, Eq, Structural)]
pub struct Color {
    pub r: u8,
    pub g: u8,
    pub b: u8,
    pub a: u8,
}

/// Whether `c` is the code of a hexadecimal digit, in either case.
pub open spec fn is_hex_digit(c: u8) -> bool {
    (48 <= c <= 57) || (65 <= c <= 70) || (97 <= c <= 102)
}

/// The value of the hexadecimal digit whose code is `c`.
pub open spec fn hex_value(c: u8) -> int {
    if 48 <= c <= 57 {
        c - 48
    } else if 65 <= c <= 70 {
        c - 55
    } else {
        c - 87
    }
}

/// Whether every byte of `b` is a hexadecimal digit.
pub open spec fn all_hex(b: Seq<u8>) -> bool {
    forall|i: int| 0 <= i < b.len() ==> is_hex_digit(#[trigger] b[i])
}

/// The byte written by the two digits at positions `2k` and `2k + 1`.
pub open spec fn pair_value(b: Seq<u8>, k: int) -> int {
    hex_value(b[2 * k]) * 16 + hex_value(b[2 * k + 1])
}

/// The color that eight hexadecimal digits `RRGGBBAA` stand for.
pub open spec fn color_of(b: Seq<u8>) -> Color {
    Color {
        r: pair_value(b, 0) as u8,
        g: pair_value(b, 1) as u8,
        b: pair_value(b, 2) as u8,
        a: pair_value(b, 3) as u8,
    }
}

/// The value of one hexadecimal digit, if `c` is one.
pub fn hex_digit(c: u8) -> (r: Option<u8>)
    ensures
        match r {
            Some(d) => is_hex_digit(c) && d == hex_value(c) && d < 16,
            None => !is_hex_digit(c),
        },
{
    if 48 <= c && c <= 57 {
        Some(c - 48)
    } else if 65 <= c && c <= 70 {
        Some(c - 55)
    } else if 97 <= c && c <= 102 {
        Some(c - 87)
    } else {
        None
    }
}

impl Color {
    /// Reads a color written as eight hexadecimal digits `RRGGBBAA`.
    pub fn from_hex(s: &str) -> (r: Result<Color, ConfigError>)
        ensures
            s.spec_bytes().len() != 8 ==> r == Err::<Color, ConfigError>(ConfigError::ColorLength),
            s.spec_bytes().len() == 8 && !all_hex(s.spec_bytes()) ==> r == Err::<Color, ConfigError>(
                ConfigError::ColorDigit,
            ),
            s.spec_bytes().len() == 8 && all_hex(s.spec_bytes()) ==> r == Ok::<Color, ConfigError>(
                color_of(s.spec_bytes()),
            ),
    {
        let b = s.as_bytes();
        if b.len() != 8 {
            return Err(ConfigError::ColorLength);
        }
        let mut channels: Vec<u8> = Vec::new();
        let mut k: usize = 0;
        while k < 4
            invariant
                b@ == s.spec_bytes(),
                b@.len() == 8,
                k <= 4,
                channels@.len() == k,
                forall|j: int| 0 <= j < 2 * k ==> is_hex_digit(#[trigger] b@[j]),
                forall|j: int| 0 <= j < k ==> channels@[j] == pair_value(b@, j),
            decreases 4 - k,
        {
            let high = match hex_digit(b[2 * k]) {
                Some(d) => d,
                None => return Err(ConfigError::ColorDigit),
            };
            let low = match hex_digit(b[2 * k + 1]) {
                Some(d) => d,
                None => return Err(ConfigError::ColorDigit),
            };
            channels.push(high * 16 + low);
            k += 1;
        }
        assert(all_hex(b@));
        Ok(Color { r: channels[0], g: channels[1], b: channels[2], a: channels[3] })
    }
}

} // verus!
