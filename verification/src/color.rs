//! Colours written as `#rrggbb`.

use crate::text::chars_of;
use vstd::prelude::*;

verus! {

/// A colour as its red, green and blue parts.
#[derive(Clone, Copy, Debug, PartialEq, Eq, Structural)]
pub struct Rgb {
    pub r: u8,
    pub g: u8,
    pub b: u8,
}

/// Why a text is not a colour.
#[derive(Clone, Copy, Debug, PartialEq, Eq, Structural)]
pub enum ParseColorError {
    /// Fewer than six characters follow the leading `#`.
    TooShort,
    /// One of the six characters is no hexadecimal digit.
    InvalidDigit,
}

/// The number that a hexadecimal digit stands for, in either case.
pub open spec fn hex_digit(c: char) -> Option<nat> {
    if '0' <= c <= '9' {
        Some((c as u32 - '0' as u32) as nat)
    } else if 'a' <= c <= 'f' {
        Some((c as u32 - 'a' as u32 + 10) as nat)
    } else if 'A' <= c <= 'F' {
        Some((c as u32 - 'A' as u32 + 10) as nat)
    } else {
        None
    }
}

/// `s` without the `#` characters that it begins with.
pub open spec fn skip_hashes(s: Seq<char>) -> Seq<char>
    decreases s.len(),
{
    if s.len() > 0 && s[0] == '#' {
        skip_hashes(s.drop_first())
    } else {
        s
    }
}

/// The byte that two hexadecimal digits write, the first counting sixteen-fold.
pub open spec fn hex_pair(hi: char, lo: char) -> Option<u8> {
    match (hex_digit(hi), hex_digit(lo)) {
        (Some(h), Some(l)) => Some((h * 16 + l) as u8),
        _ => None,
    }
}

/// The colour that `s` writes: after any leading `#`, the first six characters
/// are read as three bytes of two hexadecimal digits each. What follows them
/// is not looked at.
pub open spec fn parse_color(s: Seq<char>) -> Result<Rgb, ParseColorError> {
    let h = skip_hashes(s);
    if h.len() < 6 {
        Err(ParseColorError::TooShort)
    } else {
        match (hex_pair(h[0], h[1]), hex_pair(h[2], h[3]), hex_pair(h[4], h[5])) {
            (Some(r), Some(g), Some(b)) => Ok(Rgb { r, g, b }),
            _ => Err(ParseColorError::InvalidDigit),
        }
    }
}

/// The number that the hexadecimal digit `c` stands for; see [`hex_digit`].
fn hex_digit_of(c: char) -> (r: Option<u8>)
    ensures
        match hex_digit(c) {
            Some(v) => r == Some(v as u8) && v < 16,
            None => r is None,
        },
{
    if '0' <= c && c <= '9' {
        Some((c as u32 - '0' as u32) as u8)
    } else if 'a' <= c && c <= 'f' {
        Some((c as u32 - 'a' as u32 + 10) as u8)
    } else if 'A' <= c && c <= 'F' {
        Some((c as u32 - 'A' as u32 + 10) as u8)
    } else {
        None
    }
}

/// The byte that two hexadecimal digits write; see [`hex_pair`].
fn hex_pair_of(hi: char, lo: char) -> (r: Option<u8>)
    ensures
        r == hex_pair(hi, lo),
{
    match (hex_digit_of(hi), hex_digit_of(lo)) {
        (Some(h), Some(l)) => Some(h * 16 + l),
        _ => None,
    }
}

impl Rgb {
    /// The colour that `hex` writes.
    pub fn from_hex(hex: &str) -> (r: Result<Rgb, ParseColorError>)
        ensures
            r == parse_color(hex@),
    {
        let chars = chars_of(hex);
        let n = chars.len();
        let mut a: usize = 0;
        proof {
            assert(hex@.subrange(0, n as int) =~= hex@);
        }
        while a < n && chars[a] == '#'
            invariant
                a <= n,
                n == hex@.len(),
                chars@ == hex@,
                skip_hashes(hex@) == skip_hashes(hex@.subrange(a as int, n as int)),
            decreases n - a,
        {
            proof {
                assert(hex@.subrange(a as int, n as int).drop_first() =~= hex@.subrange(
                    a + 1,
                    n as int,
                ));
            }
            a = a + 1;
        }
        if n - a < 6 {
            return Err(ParseColorError::TooShort);
        }
        let r = hex_pair_of(chars[a], chars[a + 1]);
        let g = hex_pair_of(chars[a + 2], chars[a + 3]);
        let b = hex_pair_of(chars[a + 4], chars[a + 5]);
        match (r, g, b) {
            (Some(r), Some(g), Some(b)) => Ok(Rgb { r, g, b }),
            _ => Err(ParseColorError::InvalidDigit),
        }
    }
}

/// The red, green and blue parts of the colour that `hex` writes.
pub fn hex_to_rgb(hex: &str) -> (r: Result<[u8; 3], ParseColorError>)
    ensures
        match parse_color(hex@) {
            Ok(c) => r matches Ok(a) && a[0] == c.r && a[1] == c.g && a[2] == c.b,
            Err(e) => r == Err::<[u8; 3], ParseColorError>(e),
        },
{
    match Rgb::from_hex(hex) {
        Ok(c) => Ok([c.r, c.g, c.b]),
        Err(e) => Err(e),
    }
}

} // verus!
