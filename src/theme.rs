//! Colours and the theme that gives each token class its colour.
use vstd::prelude::*;

use crate::syntax::SyntaxKind;
use crate::text::chars_of;

verus! {

/// An RGB colour.
#[derive(Clone, Copy, Debug, PartialEq, Eq, Structural)]
pub struct Colour {
    r: u8,
    g: u8,
    b: u8,
}

/// A colour written neither as `#rrggbb` nor as `rrggbb`.
#[derive(Clone, Copy, Debug, PartialEq, Eq, Structural)]
pub struct ColourError;

/// The value of hexadecimal digit `c`, either case.
pub open spec fn hex_value(c: char) -> Option<u8> {
    if '0' <= c && c <= '9' {
        Some((c as u32 - '0' as u32) as u8)
    } else if 'a' <= c && c <= 'f' {
        Some((c as u32 - 'a' as u32 + 10) as u8)
    } else if 'A' <= c && c <= 'F' {
        Some((c as u32 - 'A' as u32 + 10) as u8)
    } else {
        None
    }
}

/// The byte that two characters spell in base 16: two digits, or a plus
/// sign and one digit.
pub open spec fn hex_byte(a: char, b: char) -> Option<u8> {
    if a == '+' {
        hex_value(b)
    } else {
        match (hex_value(a), hex_value(b)) {
            (Some(x), Some(y)) => Some((16 * x + y) as u8),
            _ => None,
        }
    }
}

/// The colour that `s` spells: three bytes after an optional `#`; anything
/// after them is ignored.
pub open spec fn colour_of(s: Seq<char>) -> Option<(u8, u8, u8)> {
    let o: int = if s.len() > 0 && s[0] == '#' {
        1
    } else {
        0
    };
    if s.len() < o + 6 {
        None
    } else {
        match (
            hex_byte(s[o], s[o + 1]),
            hex_byte(s[o + 2], s[o + 3]),
            hex_byte(s[o + 4], s[o + 5]),
        ) {
            (Some(r), Some(g), Some(b)) => Some((r, g, b)),
            _ => None,
        }
    }
}

fn hex_digit(c: char) -> (r: Option<u8>)
    ensures
        r == hex_value(c),
{
    if '0' <= c && c <= '9' {
        Some((c as u32 - '0' as u32) as u8)
    } else if 'a' <= c && c <= 'f' {
        Some((c as u32 - 'a' as u32 + 10) as u8)
    } else if 'A' <= c && c <= 'F' {
        Some((c as u32 - 'A' as u32 + 10) as u8)
    } else {
        None
    }
}

fn byte_of(a: char, b: char) -> (r: Option<u8>)
    ensures
        r == hex_byte(a, b),
{
    if a == '+' {
        return hex_digit(b);
    }
    match (hex_digit(a), hex_digit(b)) {
        (Some(x), Some(y)) => Some(16 * x + y),
        _ => None,
    }
}

impl Colour {
    pub fn new(r: u8, g: u8, b: u8) -> (c: Colour)
        ensures
            c.rgb_spec() == (r, g, b),
    {
        Colour { r, g, b }
    }

    pub closed spec fn rgb_spec(&self) -> (u8, u8, u8) {
        (self.r, self.g, self.b)
    }

    /// The red, green and blue parts.
    pub fn rgb(&self) -> (r: (u8, u8, u8))
        ensures
            r == self.rgb_spec(),
    {
        (self.r, self.g, self.b)
    }

    /// Reads `#rrggbb` or `rrggbb`, in hexadecimal digits of either case.
    pub fn parse(s: &str) -> (r: Result<Colour, ColourError>)
        ensures
            r is Ok <==> colour_of(s@) is Some,
            r matches Ok(c) ==> colour_of(s@) == Some(c.rgb_spec()),
    {
        let t = chars_of(s);
        let o: usize = if t.len() > 0 && t[0] == '#' {
            1
        } else {
            0
        };
        if t.len() < o + 6 {
            return Err(ColourError);
        }
        match (byte_of(t[o], t[o + 1]), byte_of(t[o + 2], t[o + 3]), byte_of(t[o + 4], t[o + 5])) {
            (Some(r), Some(g), Some(b)) => Ok(Colour { r, g, b }),
            _ => Err(ColourError),
        }
    }
}

impl std::str::FromStr for Colour {
    type Err = ColourError;

    fn from_str(s: &str) -> Result<Colour, ColourError> {
        Colour::parse(s)
    }
}

/// The colours of a theme: one per token class, and the background.
#[derive(Clone, Copy, Debug)]
pub struct ColourTheme {
    pub keyword: Colour,
    pub ident: Colour,
    pub lit: Colour,
    pub delim: Colour,
    pub types: Colour,
    pub extra: Colour,
    pub background: Colour,
    pub function: Colour,
    pub comment: Colour,
}

impl ColourTheme {
    /// The colour a token of class `kind` is drawn in: whitespace as
    /// delimiters, unknown text as operators.
    pub open spec fn colour_spec(&self, kind: SyntaxKind) -> Colour {
        match kind {
            SyntaxKind::Keyword => self.keyword,
            SyntaxKind::Identifier => self.ident,
            SyntaxKind::Delimiter | SyntaxKind::Whitespace => self.delim,
            SyntaxKind::Type => self.types,
            SyntaxKind::Extra | SyntaxKind::Unknown => self.extra,
            SyntaxKind::Literal => self.lit,
            SyntaxKind::Function => self.function,
            SyntaxKind::Comment => self.comment,
        }
    }

    pub fn colour_for(&self, kind: SyntaxKind) -> (r: Colour)
        ensures
            r == self.colour_spec(kind),
    {
        match kind {
            SyntaxKind::Keyword => self.keyword,
            SyntaxKind::Identifier => self.ident,
            SyntaxKind::Delimiter | SyntaxKind::Whitespace => self.delim,
            SyntaxKind::Type => self.types,
            SyntaxKind::Extra | SyntaxKind::Unknown => self.extra,
            SyntaxKind::Literal => self.lit,
            SyntaxKind::Function => self.function,
            SyntaxKind::Comment => self.comment,
        }
    }
}

} // verus!
