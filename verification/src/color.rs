//! The display hardware's colour palette and its packed attribute byte.

use vstd::prelude::*;

verus! {

/// One of the 16 fixed palette entries of the display controller.
///
/// Each entry has a 4-bit numeric code, given by [`Color::code`]; no other
/// code is valid.
#[derive(Debug, Clone, Copy, PartialEq, Eq, Structural)]
pub enum Color {
    Black,
    Blue,
    Green,
    Cyan,
    Red,
    Magenta,
    Brown,
    LightGray,
    DarkGray,
    LightBlue,
    LightGreen,
    LightCyan,
    LightRed,
    Pink,
    Yellow,
    White,
}

impl Color {
    /// The 4-bit code the hardware uses for this palette entry.
    pub open spec fn spec_code(self) -> u8 {
        match self {
            Color::Black => 0,
            Color::Blue => 1,
            Color::Green => 2,
            Color::Cyan => 3,
            Color::Red => 4,
            Color::Magenta => 5,
            Color::Brown => 6,
            Color::LightGray => 7,
            Color::DarkGray => 8,
            Color::LightBlue => 9,
            Color::LightGreen => 10,
            Color::LightCyan => 11,
            Color::LightRed => 12,
            Color::Pink => 13,
            Color::Yellow => 14,
            Color::White => 15,
        }
    }

    /// The 4-bit code the hardware uses for this palette entry.
    #[verifier::when_used_as_spec(spec_code)]
    pub fn code(self) -> (code: u8)
        ensures
            code == self.spec_code(),
            code <= 15,
    {
        match self {
            Color::Black => 0,
            Color::Blue => 1,
            Color::Green => 2,
            Color::Cyan => 3,
            Color::Red => 4,
            Color::Magenta => 5,
            Color::Brown => 6,
            Color::LightGray => 7,
            Color::DarkGray => 8,
            Color::LightBlue => 9,
            Color::LightGreen => 10,
            Color::LightCyan => 11,
            Color::LightRed => 12,
            Color::Pink => 13,
            Color::Yellow => 14,
            Color::White => 15,
        }
    }
}

/// The hardware attribute byte attached to every cell: the background
/// palette code in the high nibble, the foreground code in the low nibble.
///
/// This bit layout is a wire-format contract with the display controller
/// and must not change.
#[derive(Debug, Clone, Copy, PartialEq, Eq, Structural)]
pub struct ColorCode(pub u8);

impl ColorCode {
    /// The attribute byte combining the two given palette entries.
    pub open spec fn spec_new(foreground: Color, background: Color) -> ColorCode {
        ColorCode((background.spec_code() * 16 + foreground.spec_code()) as u8)
    }

    /// Packs a foreground and a background entry into one attribute byte.
    pub fn new(foreground: Color, background: Color) -> (code: ColorCode)
        ensures
            code == ColorCode::spec_new(foreground, background),
    {
        let f = foreground.code();
        let b = background.code();
        proof {
            assert((b << 4) | f == b * 16 + f) by (bit_vector)
                requires
                    b <= 15,
                    f <= 15,
            ;
        }
        ColorCode((b << 4) | f)
    }
}

} // verus!
