//! Palette colours and the symbolic colour values that cells carry.

use vstd::prelude::*;

verus! {

/// The sixteen named palette colours.
#[derive(Clone, Copy, Debug, PartialEq, Eq, Structural)]
pub enum AnsiColor {
    Black,
    Red,
    Green,
    Yellow,
    Blue,
    Magenta,
    Cyan,
    White,
    BrightBlack,
    BrightRed,
    BrightGreen,
    BrightYellow,
    BrightBlue,
    BrightMagenta,
    BrightCyan,
    BrightWhite,
}

/// The palette colour that index `idx` names; indices past the palette name white.
pub open spec fn ansi_of_index(idx: int) -> AnsiColor {
    if idx == 0 {
        AnsiColor::Black
    } else if idx == 1 {
        AnsiColor::Red
    } else if idx == 2 {
        AnsiColor::Green
    } else if idx == 3 {
        AnsiColor::Yellow
    } else if idx == 4 {
        AnsiColor::Blue
    } else if idx == 5 {
        AnsiColor::Magenta
    } else if idx == 6 {
        AnsiColor::Cyan
    } else if idx == 7 {
        AnsiColor::White
    } else if idx == 8 {
        AnsiColor::BrightBlack
    } else if idx == 9 {
        AnsiColor::BrightRed
    } else if idx == 10 {
        AnsiColor::BrightGreen
    } else if idx == 11 {
        AnsiColor::BrightYellow
    } else if idx == 12 {
        AnsiColor::BrightBlue
    } else if idx == 13 {
        AnsiColor::BrightMagenta
    } else if idx == 14 {
        AnsiColor::BrightCyan
    } else if idx == 15 {
        AnsiColor::BrightWhite
    } else {
        AnsiColor::White
    }
}

/// A colour as a cell records it. The two defaults stand for whatever the
/// display is configured with; `Rgb` channels count 255ths of full intensity.
#[derive(Clone, Copy, Debug, PartialEq, Eq, Structural)]
pub enum Color {
    Foreground,
    Background,
    Palette(AnsiColor),
    Rgb(u16, u16, u16),
}

/// Intensity of one step of the 6x6x6 colour cube.
pub open spec fn cube_level(step: int) -> int {
    if step == 0 {
        0
    } else {
        55 + 40 * step
    }
}

/// The colour that entry `idx` of the 256-colour table names: the sixteen
/// palette colours, then the colour cube, then a 24-step grey ramp.
pub open spec fn color_of_256(idx: int) -> Color {
    if idx < 16 {
        Color::Palette(ansi_of_index(idx))
    } else if idx <= 231 {
        Color::Rgb(
            cube_level(((idx - 16) / 36) % 6) as u16,
            cube_level(((idx - 16) / 6) % 6) as u16,
            cube_level((idx - 16) % 6) as u16,
        )
    } else {
        Color::Rgb(
            (8 + 10 * (idx - 232)) as u16,
            (8 + 10 * (idx - 232)) as u16,
            (8 + 10 * (idx - 232)) as u16,
        )
    }
}

fn cube_channel(step: u8) -> (r: u16)
    requires
        step < 6,
    ensures
        r == cube_level(step as int),
{
    if step == 0 {
        0
    } else {
        55 + 40 * (step as u16)
    }
}

impl AnsiColor {
    /// Entry `idx` of the 256-colour table.
    pub fn from_256(idx: u8) -> (r: Color)
        ensures
            r == color_of_256(idx as int),
    {
        if idx < 16 {
            Color::Palette(Self::from_index(idx))
        } else if idx <= 231 {
            let k: u8 = idx - 16;
            Color::Rgb(cube_channel((k / 36) % 6), cube_channel((k / 6) % 6), cube_channel(k % 6))
        } else {
            let v: u16 = 8 + 10 * ((idx - 232) as u16);
            Color::Rgb(v, v, v)
        }
    }

    /// The palette colour at `idx`; an index past the palette gives white.
    pub fn from_index(idx: u8) -> (r: Self)
        ensures
            r == ansi_of_index(idx as int),
    {
        match idx {
            0 => Self::Black,
            1 => Self::Red,
            2 => Self::Green,
            3 => Self::Yellow,
            4 => Self::Blue,
            5 => Self::Magenta,
            6 => Self::Cyan,
            7 => Self::White,
            8 => Self::BrightBlack,
            9 => Self::BrightRed,
            10 => Self::BrightGreen,
            11 => Self::BrightYellow,
            12 => Self::BrightBlue,
            13 => Self::BrightMagenta,
            14 => Self::BrightCyan,
            15 => Self::BrightWhite,
            _ => Self::White,
        }
    }
}

} // verus!
