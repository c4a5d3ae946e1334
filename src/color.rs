use vstd::prelude::*;

verus! {

/// The sixteen colors of the text-mode palette.
#[derive(Debug, Clone, Copy, PartialEq, Eq, Structural)]
pub enum ACHColor {
    Black,
    Blue,
    Green,
    Cyan,
    Red,
    Magenta,
    Brown,
    LightGray,
    DarkGray,
    LightBlue,
    LightGreen,
    LightCyan,
    LightRed,
    Pink,
    Yellow,
    White,
}

impl ACHColor {
    /// The palette index of the color, 0 through 15.
    pub open spec fn spec_value(self) -> u8 {
        match self {
            ACHColor::Black => 0,
            ACHColor::Blue => 1,
            ACHColor::Green => 2,
            ACHColor::Cyan => 3,
            ACHColor::Red => 4,
            ACHColor::Magenta => 5,
            ACHColor::Brown => 6,
            ACHColor::LightGray => 7,
            ACHColor::DarkGray => 8,
            ACHColor::LightBlue => 9,
            ACHColor::LightGreen => 10,
            ACHColor::LightCyan => 11,
            ACHColor::LightRed => 12,
            ACHColor::Pink => 13,
            ACHColor::Yellow => 14,
            ACHColor::White => 15,
        }
    }

    /// The palette index of the color.
    pub fn value(self) -> (r: u8)
        ensures
            r == self.spec_value(),
            r < 16,
    {
        match self {
            ACHColor::Black => 0,
            ACHColor::Blue => 1,
            ACHColor::Green => 2,
            ACHColor::Cyan => 3,
            ACHColor::Red => 4,
            ACHColor::Magenta => 5,
            ACHColor::Brown => 6,
            ACHColor::LightGray => 7,
            ACHColor::DarkGray => 8,
            ACHColor::LightBlue => 9,
            ACHColor::LightGreen => 10,
            ACHColor::LightCyan => 11,
            ACHColor::LightRed => 12,
            ACHColor::Pink => 13,
            ACHColor::Yellow => 14,
            ACHColor::White => 15,
        }
    }
}

/// A packed color attribute: background in the high nibble, foreground in the
/// low nibble. Every byte is a valid attribute.
#[derive(Debug, Clone, Copy, PartialEq, Eq, Structural)]
pub struct ACHColorCode(pub u8);

impl ACHColorCode {
    /// The attribute byte that `new(foreground, background)` packs.
    pub open spec fn packed(foreground: ACHColor, background: ACHColor) -> u8 {
        (background.spec_value() * 16 + foreground.spec_value()) as u8
    }

    /// Packs a foreground and a background color into one attribute byte.
    pub fn new(foreground: ACHColor, background: ACHColor) -> (r: ACHColorCode)
        ensures
            r.0 == Self::packed(foreground, background),
            r.0 % 16 == foreground.spec_value(),
            r.0 / 16 == background.spec_value(),
    {
        let f = foreground.value();
        let b = background.value();
        let r = (b << 4) | f;
        assert(r == b * 16 + f && (b * 16 + f) % 16 == f && (b * 16 + f) / 16 == b) by (bit_vector)
            requires
                f < 16,
                b < 16,
                r == (b << 4) | f,
        ;
        ACHColorCode(r)
    }
}

} // verus!
