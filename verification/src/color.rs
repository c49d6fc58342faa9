//! The character-cell model: the 16-entry color palette, the packed
//! 4-bit-background / 4-bit-foreground attribute byte, and the cell itself.

use vstd::prelude::*;

verus! {

/// One of the 16 colors of the text-mode palette.
#[allow(dead_code)]
#[derive(Debug, Clone, Copy, PartialEq, Eq, Structural)]
pub enum Color {
    Black,
    Blue,
    Green,
    Cyan,
    Red,
    Magenta,
    Brown,
    LightGray,
    DarkGray,
    LightBlue,
    LightGreen,
    LightCyan,
    LightRed,
    Pink,
    Yellow,
    White,
}

/// The palette index of a color, 0 through 15.
pub open spec fn color_num(c: Color) -> u8 {
    match c {
        Color::Black => 0,
        Color::Blue => 1,
        Color::Green => 2,
        Color::Cyan => 3,
        Color::Red => 4,
        Color::Magenta => 5,
        Color::Brown => 6,
        Color::LightGray => 7,
        Color::DarkGray => 8,
        Color::LightBlue => 9,
        Color::LightGreen => 10,
        Color::LightCyan => 11,
        Color::LightRed => 12,
        Color::Pink => 13,
        Color::Yellow => 14,
        Color::White => 15,
    }
}

/// The color whose palette index is `n`; inverse of `color_num` below 16.
pub open spec fn color_of_num(n: u8) -> Color {
    if n == 0 {
        Color::Black
    } else if n == 1 {
        Color::Blue
    } else if n == 2 {
        Color::Green
    } else if n == 3 {
        Color::Cyan
    } else if n == 4 {
        Color::Red
    } else if n == 5 {
        Color::Magenta
    } else if n == 6 {
        Color::Brown
    } else if n == 7 {
        Color::LightGray
    } else if n == 8 {
        Color::DarkGray
    } else if n == 9 {
        Color::LightBlue
    } else if n == 10 {
        Color::LightGreen
    } else if n == 11 {
        Color::LightCyan
    } else if n == 12 {
        Color::LightRed
    } else if n == 13 {
        Color::Pink
    } else if n == 14 {
        Color::Yellow
    } else {
        Color::White
    }
}

/// The attribute byte that packs background `bg` into the high 4 bits and
/// foreground `fg` into the low 4 bits.
pub open spec fn attr(fg: Color, bg: Color) -> u8 {
    (color_num(bg) * 16 + color_num(fg)) as u8
}

/// The foreground palette index packed in an attribute byte.
pub open spec fn fg_of(a: u8) -> u8 {
    (a % 16) as u8
}

/// The background palette index packed in an attribute byte.
pub open spec fn bg_of(a: u8) -> u8 {
    (a / 16) as u8
}

/// Packing a foreground and a background and unpacking the attribute byte
/// yields exactly the two colors that were packed.
pub proof fn lemma_attr_unpack(fg: Color, bg: Color)
    ensures
        fg_of(attr(fg, bg)) == color_num(fg),
        bg_of(attr(fg, bg)) == color_num(bg),
        color_of_num(fg_of(attr(fg, bg))) == fg,
        color_of_num(bg_of(attr(fg, bg))) == bg,
{
}

pub fn color_index(c: Color) -> (n: u8)
    ensures
        n == color_num(c),
{
    match c {
        Color::Black => 0,
        Color::Blue => 1,
        Color::Green => 2,
        Color::Cyan => 3,
        Color::Red => 4,
        Color::Magenta => 5,
        Color::Brown => 6,
        Color::LightGray => 7,
        Color::DarkGray => 8,
        Color::LightBlue => 9,
        Color::LightGreen => 10,
        Color::LightCyan => 11,
        Color::LightRed => 12,
        Color::Pink => 13,
        Color::Yellow => 14,
        Color::White => 15,
    }
}

/// A packed color attribute: background in the high 4 bits, foreground in
/// the low 4 bits.
#[derive(Debug, Clone, Copy, PartialEq, Eq, Structural)]
pub struct ColorCode(pub u8);

impl ColorCode {
    pub fn new(foreground: Color, background: Color) -> (r: ColorCode)
        ensures
            r == ColorCode(attr(foreground, background)),
    {
        ColorCode(color_index(background) * 16 + color_index(foreground))
    }
}

/// One character position of the text frame: a glyph byte and its packed
/// color attribute.
#[derive(Debug, Clone, Copy, PartialEq, Eq, Structural)]
pub struct ScreenChar {
    pub ascii: u8,
    pub color: ColorCode,
}

/// A blank cell: a space glyph carrying the given attribute.
pub open spec fn blank_char(color: ColorCode) -> ScreenChar {
    ScreenChar { ascii: 32u8, color }
}

/// A full line of blank cells carrying the given attribute.
pub open spec fn blank_line(color: ColorCode) -> Seq<ScreenChar> {
    Seq::new(80, |i: int| blank_char(color))
}

/// The attribute every cell starts with: white on black.
pub open spec fn initial_color() -> ColorCode {
    ColorCode(attr(Color::White, Color::Black))
}

} // verus!
