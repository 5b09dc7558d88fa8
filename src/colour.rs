use vstd::prelude::*;
use vstd::string::*;

verus! {

/// An RGB colour, one byte per channel.
#[derive(Debug, Clone, Copy, PartialEq, Eq, Structural)]
pub struct Colour {
    pub red: u8,
    pub green: u8,
    pub blue: u8,
}

/// The text that could not be read as a colour, or the part of it that was
/// not a hexadecimal byte.
#[derive(Debug)]
pub struct BadHexFormat(pub String);

pub open spec fn is_hex_digit(c: char) -> bool {
    ('0' <= c && c <= '9') || ('a' <= c && c <= 'f') || ('A' <= c && c <= 'F')
}

pub open spec fn hex_digit_value(c: char) -> int {
    if '0' <= c && c <= '9' {
        c as int - '0' as int
    } else if 'a' <= c && c <= 'f' {
        c as int - 'a' as int + 10
    } else {
        c as int - 'A' as int + 10
    }
}

/// The two characters at `i` and `i + 1` are hexadecimal digits.
pub open spec fn is_hex_byte(s: Seq<char>, i: int) -> bool {
    is_hex_digit(s[i]) && is_hex_digit(s[i + 1])
}

/// The byte written by the two hexadecimal digits at `i` and `i + 1`.
pub open spec fn hex_byte(s: Seq<char>, i: int) -> int {
    16 * hex_digit_value(s[i]) + hex_digit_value(s[i + 1])
}

/// `s` has the shape `#xxxxxx`: a hash sign and six more characters.
pub open spec fn is_hex_shape(s: Seq<char>) -> bool {
    s.len() == 7 && s[0] == '#'
}

/// `s` is a colour code `#rrggbb`.
pub open spec fn is_hex_colour(s: Seq<char>) -> bool {
    is_hex_shape(s) && is_hex_byte(s, 1) && is_hex_byte(s, 3) && is_hex_byte(s, 5)
}

/// The colour that the code `#rrggbb` in `s` names.
pub open spec fn hex_colour(s: Seq<char>) -> Colour {
    Colour { red: hex_byte(s, 1) as u8, green: hex_byte(s, 3) as u8, blue: hex_byte(s, 5) as u8 }
}

/// The text reported when `s` is not a colour code: all of `s` when it does
/// not have the shape `#xxxxxx`, else the first pair that is not a byte.
pub open spec fn bad_hex_text(s: Seq<char>) -> Seq<char> {
    if !is_hex_shape(s) {
        s
    } else if !is_hex_byte(s, 1) {
        s.subrange(1, 3)
    } else if !is_hex_byte(s, 3) {
        s.subrange(3, 5)
    } else {
        s.subrange(5, 7)
    }
}

fn hex_digit(c: char) -> (r: Option<u8>)
    ensures
        r is Some <==> is_hex_digit(c),
        r matches Some(v) ==> v as int == hex_digit_value(c),
{
    if '0' <= c && c <= '9' {
        Some((c as u32 - '0' as u32) as u8)
    } else if 'a' <= c && c <= 'f' {
        Some((c as u32 - 'a' as u32 + 10) as u8)
    } else if 'A' <= c && c <= 'F' {
        Some((c as u32 - 'A' as u32 + 10) as u8)
    } else {
        None
    }
}

/// Reads the byte written by the two hexadecimal digits at `i` and `i + 1`.
fn byte_at(value: &str, i: usize) -> (r: Result<u8, BadHexFormat>)
    requires
        i <= 5,
        value@.len() == 7,
    ensures
        r is Ok <==> is_hex_byte(value@, i as int),
        r matches Ok(b) ==> b as int == hex_byte(value@, i as int),
        r matches Err(e) ==> e.0@ == value@.subrange(i as int, i + 2),
{
    let hi = hex_digit(value.get_char(i));
    let lo = hex_digit(value.get_char(i + 1));
    match (hi, lo) {
        (Some(h), Some(l)) => Ok(h * 16 + l),
        _ => Err(BadHexFormat(value.substring_char(i, i + 2).to_owned())),
    }
}

impl Colour {
    /// Reads a colour code `#rrggbb`, with digits in either case.
    pub fn from_str(value: &str) -> (r: Result<Colour, BadHexFormat>)
        ensures
            r is Ok <==> is_hex_colour(value@),
            r matches Ok(c) ==> c == hex_colour(value@),
            r matches Err(e) ==> e.0@ == bad_hex_text(value@),
    {
        let n = value.unicode_len();
        if n != 7 || value.get_char(0) != '#' {
            return Err(BadHexFormat(value.to_owned()));
        }
        let red = match byte_at(value, 1) {
            Ok(b) => b,
            Err(e) => return Err(e),
        };
        let green = match byte_at(value, 3) {
            Ok(b) => b,
            Err(e) => return Err(e),
        };
        let blue = match byte_at(value, 5) {
            Ok(b) => b,
            Err(e) => return Err(e),
        };
        Ok(Colour { red, green, blue })
    }

    /// The colour with the given channels.
    pub fn from_rgb(red: u8, green: u8, blue: u8) -> (r: Colour)
        ensures
            r == (Colour { red, green, blue }),
    {
        Colour { red, green, blue }
    }
}

/// Foreground and background overrides of an area.
#[derive(Debug, Clone, Copy, PartialEq, Eq, Structural)]
pub struct Colours {
    pub fg: Option<Colour>,
    pub bg: Option<Colour>,
}

impl Default for Colours {
    fn default() -> (r: Colours)
        ensures
            r.fg is None,
            r.bg is None,
    {
        Colours { fg: None, bg: None }
    }
}

} // verus!
