//! Colors of the text terminal and the palette that turns them into pixels.

use vstd::prelude::*;

verus! {

/// The sixteen terminal colors, in palette order.
#[derive(Clone, Copy, Debug, PartialEq, Eq, Structural)]
pub enum Color {
    Black,
    Blue,
    Green,
    Cyan,
    Red,
    Magenta,
    Brown,
    LightGray,
    DarkGray,
    LightBlue,
    LightGreen,
    LightCyan,
    LightRed,
    Pink,
    Yellow,
    White,
}

impl Color {
    /// Position of the color in a palette.
    pub open spec fn spec_index(self) -> nat {
        match self {
            Color::Black => 0,
            Color::Blue => 1,
            Color::Green => 2,
            Color::Cyan => 3,
            Color::Red => 4,
            Color::Magenta => 5,
            Color::Brown => 6,
            Color::LightGray => 7,
            Color::DarkGray => 8,
            Color::LightBlue => 9,
            Color::LightGreen => 10,
            Color::LightCyan => 11,
            Color::LightRed => 12,
            Color::Pink => 13,
            Color::Yellow => 14,
            Color::White => 15,
        }
    }

    /// The color at a palette position; positions past the last one give black.
    pub open spec fn spec_from_index(index: nat) -> Color {
        if index == 1 {
            Color::Blue
        } else if index == 2 {
            Color::Green
        } else if index == 3 {
            Color::Cyan
        } else if index == 4 {
            Color::Red
        } else if index == 5 {
            Color::Magenta
        } else if index == 6 {
            Color::Brown
        } else if index == 7 {
            Color::LightGray
        } else if index == 8 {
            Color::DarkGray
        } else if index == 9 {
            Color::LightBlue
        } else if index == 10 {
            Color::LightGreen
        } else if index == 11 {
            Color::LightCyan
        } else if index == 12 {
            Color::LightRed
        } else if index == 13 {
            Color::Pink
        } else if index == 14 {
            Color::Yellow
        } else if index == 15 {
            Color::White
        } else {
            Color::Black
        }
    }

    /// The color that an SGR foreground code selects: 30 to 37 the dark
    /// colors, 90 to 97 the bright ones, anything else black.
    pub open spec fn spec_from_ansi(code: u8) -> Color {
        if code == 31 {
            Color::Red
        } else if code == 32 {
            Color::Green
        } else if code == 33 {
            Color::Brown
        } else if code == 34 {
            Color::Blue
        } else if code == 35 {
            Color::Magenta
        } else if code == 36 {
            Color::Cyan
        } else if code == 37 {
            Color::LightGray
        } else if code == 90 {
            Color::DarkGray
        } else if code == 91 {
            Color::LightRed
        } else if code == 92 {
            Color::LightGreen
        } else if code == 93 {
            Color::Yellow
        } else if code == 94 {
            Color::LightBlue
        } else if code == 95 {
            Color::Pink
        } else if code == 96 {
            Color::LightCyan
        } else if code == 97 {
            Color::White
        } else {
            Color::Black
        }
    }

    /// The SGR foreground code of a color.
    pub open spec fn spec_to_ansi(self) -> u8 {
        match self {
            Color::Black => 30,
            Color::Red => 31,
            Color::Green => 32,
            Color::Brown => 33,
            Color::Blue => 34,
            Color::Magenta => 35,
            Color::Cyan => 36,
            Color::LightGray => 37,
            Color::DarkGray => 90,
            Color::LightRed => 91,
            Color::LightGreen => 92,
            Color::Yellow => 93,
            Color::LightBlue => 94,
            Color::Pink => 95,
            Color::LightCyan => 96,
            Color::White => 97,
        }
    }

    pub fn index(self) -> (i: usize)
        ensures
            i == self.spec_index(),
            i < 16,
    {
        match self {
            Color::Black => 0,
            Color::Blue => 1,
            Color::Green => 2,
            Color::Cyan => 3,
            Color::Red => 4,
            Color::Magenta => 5,
            Color::Brown => 6,
            Color::LightGray => 7,
            Color::DarkGray => 8,
            Color::LightBlue => 9,
            Color::LightGreen => 10,
            Color::LightCyan => 11,
            Color::LightRed => 12,
            Color::Pink => 13,
            Color::Yellow => 14,
            Color::White => 15,
        }
    }

    pub fn to_ansi(self) -> (code: u8)
        ensures
            code == self.spec_to_ansi(),
    {
        match self {
            Color::Black => 30,
            Color::Red => 31,
            Color::Green => 32,
            Color::Brown => 33,
            Color::Blue => 34,
            Color::Magenta => 35,
            Color::Cyan => 36,
            Color::LightGray => 37,
            Color::DarkGray => 90,
            Color::LightRed => 91,
            Color::LightGreen => 92,
            Color::Yellow => 93,
            Color::LightBlue => 94,
            Color::Pink => 95,
            Color::LightCyan => 96,
            Color::White => 97,
        }
    }
}

/// The color at a palette position; positions past the last one give black.
pub fn from_index(index: usize) -> (color: Color)
    ensures
        color == Color::spec_from_index(index as nat),
{
    match index {
        1 => Color::Blue,
        2 => Color::Green,
        3 => Color::Cyan,
        4 => Color::Red,
        5 => Color::Magenta,
        6 => Color::Brown,
        7 => Color::LightGray,
        8 => Color::DarkGray,
        9 => Color::LightBlue,
        10 => Color::LightGreen,
        11 => Color::LightCyan,
        12 => Color::LightRed,
        13 => Color::Pink,
        14 => Color::Yellow,
        15 => Color::White,
        _ => Color::Black,
    }
}

/// The color of an SGR foreground code.
pub fn from_ansi(code: u8) -> (color: Color)
    ensures
        color == Color::spec_from_ansi(code),
{
    match code {
        31 => Color::Red,
        32 => Color::Green,
        33 => Color::Brown,
        34 => Color::Blue,
        35 => Color::Magenta,
        36 => Color::Cyan,
        37 => Color::LightGray,
        90 => Color::DarkGray,
        91 => Color::LightRed,
        92 => Color::LightGreen,
        93 => Color::Yellow,
        94 => Color::LightBlue,
        95 => Color::Pink,
        96 => Color::LightCyan,
        97 => Color::White,
        _ => Color::Black,
    }
}

/// A palette position names the color that sits there, and an SGR code the
/// color that reports it.
pub proof fn lemma_color_round_trip(color: Color)
    ensures
        Color::spec_from_index(color.spec_index()) == color,
        Color::spec_from_ansi(color.spec_to_ansi()) == color,
        color.spec_index() < 16,
{
}

/// Red, green and blue of each of the sixteen colors.
#[derive(Clone, Copy, Debug)]
pub struct Palette {
    pub colors: [(u8, u8, u8); 16],
}

impl Palette {
    /// The component triple that the palette gives a color.
    pub open spec fn rgb(self, color: Color) -> (u8, u8, u8) {
        self.colors@[color.spec_index() as int]
    }

    pub fn get(&self, color: Color) -> (rgb: (u8, u8, u8))
        ensures
            rgb == self.rgb(color),
    {
        self.colors[color.index()]
    }

    /// The standard sixteen-color palette.
    pub open spec fn spec_default() -> Seq<(u8, u8, u8)> {
        seq![
            (0x00u8, 0x00u8, 0x00u8),
            (0x00u8, 0x00u8, 0x80u8),
            (0x00u8, 0x80u8, 0x00u8),
            (0x00u8, 0x80u8, 0x80u8),
            (0x80u8, 0x00u8, 0x00u8),
            (0x80u8, 0x00u8, 0x80u8),
            (0x80u8, 0x80u8, 0x00u8),
            (0xC0u8, 0xC0u8, 0xC0u8),
            (0x80u8, 0x80u8, 0x80u8),
            (0x00u8, 0x00u8, 0xFFu8),
            (0x00u8, 0xFFu8, 0x00u8),
            (0x00u8, 0xFFu8, 0xFFu8),
            (0xFFu8, 0x00u8, 0x00u8),
            (0xFFu8, 0x00u8, 0xFFu8),
            (0xFFu8, 0xFFu8, 0x00u8),
            (0xFFu8, 0xFFu8, 0xFFu8),
        ]
    }
}

impl Default for Palette {
    fn default() -> (palette: Palette)
        ensures
            palette.colors@ =~= Palette::spec_default(),
    {
        Palette {
            colors: [
                (0x00, 0x00, 0x00),
                (0x00, 0x00, 0x80),
                (0x00, 0x80, 0x00),
                (0x00, 0x80, 0x80),
                (0x80, 0x00, 0x00),
                (0x80, 0x00, 0x80),
                (0x80, 0x80, 0x00),
                (0xC0, 0xC0, 0xC0),
                (0x80, 0x80, 0x80),
                (0x00, 0x00, 0xFF),
                (0x00, 0xFF, 0x00),
                (0x00, 0xFF, 0xFF),
                (0xFF, 0x00, 0x00),
                (0xFF, 0x00, 0xFF),
                (0xFF, 0xFF, 0x00),
                (0xFF, 0xFF, 0xFF),
            ],
        }
    }
}

} // verus!
