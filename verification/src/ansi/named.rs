//! The colours that are addressed by name, and the palette slot of each.

use vstd::prelude::*;

verus! {

/// A colour referenced by a fixed symbolic slot of the palette.
///
/// The eight standard colours occupy slots 0–7 and their bright variants
/// slots 8–15. Slots 16–255 carry no name. The remaining names follow from
/// slot 256 on.
#[derive(Debug, Copy, Clone, PartialEq, Eq, Structural, PartialOrd, Ord)]
pub enum NamedColor {
    Black,
    Red,
    Green,
    Yellow,
    Blue,
    Magenta,
    Cyan,
    White,
    BrightBlack,
    BrightRed,
    BrightGreen,
    BrightYellow,
    BrightBlue,
    BrightMagenta,
    BrightCyan,
    BrightWhite,
    Foreground,
    Background,
    Cursor,
    DimBlack,
    DimRed,
    DimGreen,
    DimYellow,
    DimBlue,
    DimMagenta,
    DimCyan,
    DimWhite,
    BrightForeground,
    DimForeground,
}

/// The standard colour (slots 0–7) or bright colour (slots 8–15) that
/// occupies `slot`.
pub open spec fn ansi_color(slot: int) -> NamedColor
    recommends
        0 <= slot < 16,
{
    if slot == 0 {
        NamedColor::Black
    } else if slot == 1 {
        NamedColor::Red
    } else if slot == 2 {
        NamedColor::Green
    } else if slot == 3 {
        NamedColor::Yellow
    } else if slot == 4 {
        NamedColor::Blue
    } else if slot == 5 {
        NamedColor::Magenta
    } else if slot == 6 {
        NamedColor::Cyan
    } else if slot == 7 {
        NamedColor::White
    } else if slot == 8 {
        NamedColor::BrightBlack
    } else if slot == 9 {
        NamedColor::BrightRed
    } else if slot == 10 {
        NamedColor::BrightGreen
    } else if slot == 11 {
        NamedColor::BrightYellow
    } else if slot == 12 {
        NamedColor::BrightBlue
    } else if slot == 13 {
        NamedColor::BrightMagenta
    } else if slot == 14 {
        NamedColor::BrightCyan
    } else {
        NamedColor::BrightWhite
    }
}

/// `ansi_color` picks the name whose slot was asked for.
pub proof fn lemma_ansi_color_slot(slot: int)
    requires
        0 <= slot < 16,
    ensures
        ansi_color(slot).spec_slot() == slot,
{
}

impl NamedColor {
    /// The palette slot that the name stands for.
    pub open spec fn spec_slot(self) -> nat {
        match self {
            NamedColor::Black => 0,
            NamedColor::Red => 1,
            NamedColor::Green => 2,
            NamedColor::Yellow => 3,
            NamedColor::Blue => 4,
            NamedColor::Magenta => 5,
            NamedColor::Cyan => 6,
            NamedColor::White => 7,
            NamedColor::BrightBlack => 8,
            NamedColor::BrightRed => 9,
            NamedColor::BrightGreen => 10,
            NamedColor::BrightYellow => 11,
            NamedColor::BrightBlue => 12,
            NamedColor::BrightMagenta => 13,
            NamedColor::BrightCyan => 14,
            NamedColor::BrightWhite => 15,
            NamedColor::Foreground => 256,
            NamedColor::Background => 257,
            NamedColor::Cursor => 258,
            NamedColor::DimBlack => 259,
            NamedColor::DimRed => 260,
            NamedColor::DimGreen => 261,
            NamedColor::DimYellow => 262,
            NamedColor::DimBlue => 263,
            NamedColor::DimMagenta => 264,
            NamedColor::DimCyan => 265,
            NamedColor::DimWhite => 266,
            NamedColor::BrightForeground => 267,
            NamedColor::DimForeground => 268,
        }
    }

    /// The palette slot that the name stands for.
    pub fn slot(self) -> (slot: usize)
        ensures
            slot == self.spec_slot(),
    {
        match self {
            NamedColor::Black => 0,
            NamedColor::Red => 1,
            NamedColor::Green => 2,
            NamedColor::Yellow => 3,
            NamedColor::Blue => 4,
            NamedColor::Magenta => 5,
            NamedColor::Cyan => 6,
            NamedColor::White => 7,
            NamedColor::BrightBlack => 8,
            NamedColor::BrightRed => 9,
            NamedColor::BrightGreen => 10,
            NamedColor::BrightYellow => 11,
            NamedColor::BrightBlue => 12,
            NamedColor::BrightMagenta => 13,
            NamedColor::BrightCyan => 14,
            NamedColor::BrightWhite => 15,
            NamedColor::Foreground => 256,
            NamedColor::Background => 257,
            NamedColor::Cursor => 258,
            NamedColor::DimBlack => 259,
            NamedColor::DimRed => 260,
            NamedColor::DimGreen => 261,
            NamedColor::DimYellow => 262,
            NamedColor::DimBlue => 263,
            NamedColor::DimMagenta => 264,
            NamedColor::DimCyan => 265,
            NamedColor::DimWhite => 266,
            NamedColor::BrightForeground => 267,
            NamedColor::DimForeground => 268,
        }
    }

    /// Every name stands for a slot outside the unnamed range 16–255 and
    /// below 269.
    pub proof fn lemma_slot_range(self)
        ensures
            self.spec_slot() < 16 || 256 <= self.spec_slot() < 269,
    {
    }

    /// Two names that stand for the same slot are the same name.
    pub proof fn lemma_slot_injective(self, other: NamedColor)
        requires
            self.spec_slot() == other.spec_slot(),
        ensures
            self == other,
    {
    }
}

} // verus!
