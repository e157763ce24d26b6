//! Task colours written as `#RRGGBB`.
use vstd::prelude::*;

use crate::text::{ascii_lower, chars_of, to_ascii_lower};
use vstd::string::StringSliceAdditionalSpecFns;

verus! {

/// Why a colour was refused.
#[derive(Debug, Clone, Copy, PartialEq, Eq, Structural)]
pub enum TaskColorError {
    InvalidFormat,
}

impl TaskColorError {
    /// The message shown to the user.
    pub fn message(self) -> (r: &'static str)
        ensures
            r@ == "Farbe muss im Format #RRGGBB angegeben werden"@,
    {
        match self {
            TaskColorError::InvalidFormat => "Farbe muss im Format #RRGGBB angegeben werden",
        }
    }
}

/// An ASCII hexadecimal digit.
pub open spec fn is_hex_digit(c: char) -> bool {
    ('0' <= c && c <= '9') || ('a' <= c && c <= 'f') || ('A' <= c && c <= 'F')
}

/// The colour written by `value` in lower case, when `value` is `#` followed by
/// exactly six hexadecimal digits.
pub open spec fn normalized_color(value: Seq<char>) -> Option<Seq<char>> {
    if value.len() == 7 && value[0] == '#' && forall|i: int| 1 <= i < 7 ==> is_hex_digit(
        #[trigger] value[i],
    ) {
        Some(value.map_values(|c: char| ascii_lower(c)))
    } else {
        None
    }
}

fn hex_digit(c: char) -> (r: bool)
    ensures
        r == is_hex_digit(c),
{
    ('0' <= c && c <= '9') || ('a' <= c && c <= 'f') || ('A' <= c && c <= 'F')
}

/// Checks a `#RRGGBB` colour and returns it in lower case.
pub fn parse_hex_color(value: &str) -> (r: Result<String, TaskColorError>)
    ensures
        match normalized_color(value@) {
            Some(c) => r matches Ok(s) && s@ == c,
            None => r == Err::<String, TaskColorError>(TaskColorError::InvalidFormat),
        },
{
    let chars = chars_of(value);
    if chars.len() != 7 || chars[0] != '#' {
        return Err(TaskColorError::InvalidFormat);
    }
    let mut out = String::new();
    out.push('#');
    let mut i: usize = 1;
    while i < 7
        invariant
            chars@ == value@,
            chars@.len() == 7,
            chars@[0] == '#',
            1 <= i <= 7,
            forall|j: int| 1 <= j < i ==> is_hex_digit(#[trigger] chars@[j]),
            out@ == chars@.take(i as int).map_values(|c: char| ascii_lower(c)),
        decreases 7 - i,
    {
        if !hex_digit(chars[i]) {
            return Err(TaskColorError::InvalidFormat);
        }
        out.push(to_ascii_lower(chars[i]));
        i += 1;
        assert(out@ == chars@.take(i as int).map_values(|c: char| ascii_lower(c)));
    }
    assert(chars@.take(7) == chars@);
    Ok(out)
}

/// The value of one hexadecimal digit.
pub open spec fn hex_value(b: u8) -> int {
    if 48 <= b <= 57 {
        b - 48
    } else if 97 <= b <= 102 {
        b - 87
    } else {
        b - 55
    }
}

/// A hexadecimal digit as a byte.
pub open spec fn is_hex_byte(b: u8) -> bool {
    (48 <= b <= 57) || (97 <= b <= 102) || (65 <= b <= 70)
}

/// Two bytes read as an unsigned hexadecimal number, as `u8::from_str_radix(_, 16)`
/// reads them: two digits, or `+` and one digit.
pub open spec fn hex_pair(hi: u8, lo: u8) -> Option<int> {
    if hi == 43 && is_hex_byte(lo) {
        Some(hex_value(lo))
    } else if is_hex_byte(hi) && is_hex_byte(lo) {
        Some(hex_value(hi) * 16 + hex_value(lo))
    } else {
        None
    }
}

/// The red, green and blue channels of a seven-byte colour text.
pub open spec fn rgb_of(bytes: Seq<u8>) -> Option<(u8, u8, u8)> {
    if bytes.len() != 7 {
        None
    } else {
        match (
            hex_pair(bytes[1], bytes[2]),
            hex_pair(bytes[3], bytes[4]),
            hex_pair(bytes[5], bytes[6]),
        ) {
            (Some(r), Some(g), Some(b)) => Some((r as u8, g as u8, b as u8)),
            _ => None,
        }
    }
}

fn hex_byte_value(b: u8) -> (r: Option<u8>)
    ensures
        r == (if is_hex_byte(b) {
            Some(hex_value(b) as u8)
        } else {
            None
        }),
{
    if 48 <= b && b <= 57 {
        Some(b - 48)
    } else if 97 <= b && b <= 102 {
        Some(b - 87)
    } else if 65 <= b && b <= 70 {
        Some(b - 55)
    } else {
        None
    }
}

fn read_hex_pair(hi: u8, lo: u8) -> (r: Option<u8>)
    ensures
        r == (match hex_pair(hi, lo) {
            Some(v) => Some(v as u8),
            None => None,
        }),
{
    if hi == 43 {
        return hex_byte_value(lo);
    }
    match (hex_byte_value(hi), hex_byte_value(lo)) {
        (Some(h), Some(l)) => Some(h * 16 + l),
        _ => None,
    }
}

/// Reads the channels of a `#RRGGBB` text.
pub fn rgb_from_hex(hex: &str) -> (r: Option<(u8, u8, u8)>)
    requires
        hex.spec_bytes().len() == 7 ==> {
            &&& vstd::utf8::is_char_boundary(hex.spec_bytes(), 1)
            &&& vstd::utf8::is_char_boundary(hex.spec_bytes(), 3)
            &&& vstd::utf8::is_char_boundary(hex.spec_bytes(), 5)
        },
    ensures
        r == rgb_of(hex.spec_bytes()),
{
    let bytes = hex.as_bytes();
    if bytes.len() != 7 {
        return None;
    }
    let r = read_hex_pair(bytes[1], bytes[2])?;
    let g = read_hex_pair(bytes[3], bytes[4])?;
    let b = read_hex_pair(bytes[5], bytes[6])?;
    Some((r, g, b))
}

/// A normalised colour is left as it is by normalising again.
pub proof fn law_normalize_idempotent(value: Seq<char>)
    requires
        normalized_color(value) is Some,
    ensures
        normalized_color(normalized_color(value)->0) == normalized_color(value),
{
    let n = normalized_color(value)->0;
    assert forall|i: int| 1 <= i < 7 implies is_hex_digit(#[trigger] n[i]) by {
        assert(is_hex_digit(value[i]));
    }
    assert(n.map_values(|c: char| ascii_lower(c)) =~= n);
}

} // verus!
