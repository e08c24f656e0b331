//! The fixed palette of the canvas.
//!
//! The renderer does not need it: it paints the colour that an event carries.
//! It is kept for callers that want to map a colour to its place in the
//! palette.

use vstd::prelude::*;

verus! {

/// The colours of the palette, in the order of their indices.
#[derive(Clone, Copy, Debug, PartialEq, Eq, Structural)]
pub enum Colors {
    Burgundy,
    DarkRed,
    Red,
    Orange,
    Yellow,
    PaleYellow,
    DarkGreen,
    Green,
    LightGreen,
    DarkTeal,
    Teal,
    LightTeal,
    DarkBlue,
    Blue,
    LightBlue,
    Indigo,
    Periwinkle,
    Lavender,
    DarkPurple,
    Purple,
    PalePurple,
    Magenta,
    Pink,
    LightPink,
    DarkBrown,
    Brown,
    Beige,
    Black,
    DarkGray,
    Gray,
    LightGray,
    White,
}

impl Colors {
    /// The packed value of the colour: alpha in the top byte, then blue,
    /// green and red.
    pub open spec fn code(self) -> u32 {
        match self {
            Colors::Burgundy => 0xff1a006du32,
            Colors::DarkRed => 0xff3900beu32,
            Colors::Red => 0xff0045ffu32,
            Colors::Orange => 0xff00a8ffu32,
            Colors::Yellow => 0xff35d6ffu32,
            Colors::PaleYellow => 0xffb8f8ffu32,
            Colors::DarkGreen => 0xff68a300u32,
            Colors::Green => 0xff78cc00u32,
            Colors::LightGreen => 0xff56ed7eu32,
            Colors::DarkTeal => 0xff6f7500u32,
            Colors::Teal => 0xffaa9e00u32,
            Colors::LightTeal => 0xffc0cc00u32,
            Colors::DarkBlue => 0xffa45024u32,
            Colors::Blue => 0xffea9036u32,
            Colors::LightBlue => 0xfff4e951u32,
            Colors::Indigo => 0xffc13a49u32,
            Colors::Periwinkle => 0xffff5c6au32,
            Colors::Lavender => 0xffffb394u32,
            Colors::DarkPurple => 0xff9f1e81u32,
            Colors::Purple => 0xffc04ab4u32,
            Colors::PalePurple => 0xffffabe4u32,
            Colors::Magenta => 0xff7f10deu32,
            Colors::Pink => 0xff819cffu32,
            Colors::LightPink => 0xffaa99ffu32,
            Colors::DarkBrown => 0xff2f486du32,
            Colors::Brown => 0xff26699cu32,
            Colors::Beige => 0xff70b4ffu32,
            Colors::Black => 0xff000000u32,
            Colors::DarkGray => 0xff525251u32,
            Colors::Gray => 0xff908d89u32,
            Colors::LightGray => 0xffd9d7d4u32,
            Colors::White => 0xffffffffu32,
        }
    }

    /// The index of the colour in the palette.
    pub open spec fn ordinal(self) -> u8 {
        match self {
            Colors::Burgundy => 0u8,
            Colors::DarkRed => 1u8,
            Colors::Red => 2u8,
            Colors::Orange => 3u8,
            Colors::Yellow => 4u8,
            Colors::PaleYellow => 5u8,
            Colors::DarkGreen => 6u8,
            Colors::Green => 7u8,
            Colors::LightGreen => 8u8,
            Colors::DarkTeal => 9u8,
            Colors::Teal => 10u8,
            Colors::LightTeal => 11u8,
            Colors::DarkBlue => 12u8,
            Colors::Blue => 13u8,
            Colors::LightBlue => 14u8,
            Colors::Indigo => 15u8,
            Colors::Periwinkle => 16u8,
            Colors::Lavender => 17u8,
            Colors::DarkPurple => 18u8,
            Colors::Purple => 19u8,
            Colors::PalePurple => 20u8,
            Colors::Magenta => 21u8,
            Colors::Pink => 22u8,
            Colors::LightPink => 23u8,
            Colors::DarkBrown => 24u8,
            Colors::Brown => 25u8,
            Colors::Beige => 26u8,
            Colors::Black => 27u8,
            Colors::DarkGray => 28u8,
            Colors::Gray => 29u8,
            Colors::LightGray => 30u8,
            Colors::White => 31u8,
        }
    }

    /// The packed value of the colour.
    pub fn to_u32(self) -> (code: u32)
        ensures
            code == self.code(),
    {
        match self {
            Colors::Burgundy => 0xff1a006d,
            Colors::DarkRed => 0xff3900be,
            Colors::Red => 0xff0045ff,
            Colors::Orange => 0xff00a8ff,
            Colors::Yellow => 0xff35d6ff,
            Colors::PaleYellow => 0xffb8f8ff,
            Colors::DarkGreen => 0xff68a300,
            Colors::Green => 0xff78cc00,
            Colors::LightGreen => 0xff56ed7e,
            Colors::DarkTeal => 0xff6f7500,
            Colors::Teal => 0xffaa9e00,
            Colors::LightTeal => 0xffc0cc00,
            Colors::DarkBlue => 0xffa45024,
            Colors::Blue => 0xffea9036,
            Colors::LightBlue => 0xfff4e951,
            Colors::Indigo => 0xffc13a49,
            Colors::Periwinkle => 0xffff5c6a,
            Colors::Lavender => 0xffffb394,
            Colors::DarkPurple => 0xff9f1e81,
            Colors::Purple => 0xffc04ab4,
            Colors::PalePurple => 0xffffabe4,
            Colors::Magenta => 0xff7f10de,
            Colors::Pink => 0xff819cff,
            Colors::LightPink => 0xffaa99ff,
            Colors::DarkBrown => 0xff2f486d,
            Colors::Brown => 0xff26699c,
            Colors::Beige => 0xff70b4ff,
            Colors::Black => 0xff000000,
            Colors::DarkGray => 0xff525251,
            Colors::Gray => 0xff908d89,
            Colors::LightGray => 0xffd9d7d4,
            Colors::White => 0xffffffff,
        }
    }

    /// The colour with the given packed value, if the palette has one.
    pub fn try_from_u32(code: u32) -> (r: Option<Colors>)
        ensures
            r is Some ==> r->Some_0.code() == code,
            r is None ==> forall|c: Colors| c.code() != code,
    {
        match code {
            0xff1a006d => Some(Colors::Burgundy),
            0xff3900be => Some(Colors::DarkRed),
            0xff0045ff => Some(Colors::Red),
            0xff00a8ff => Some(Colors::Orange),
            0xff35d6ff => Some(Colors::Yellow),
            0xffb8f8ff => Some(Colors::PaleYellow),
            0xff68a300 => Some(Colors::DarkGreen),
            0xff78cc00 => Some(Colors::Green),
            0xff56ed7e => Some(Colors::LightGreen),
            0xff6f7500 => Some(Colors::DarkTeal),
            0xffaa9e00 => Some(Colors::Teal),
            0xffc0cc00 => Some(Colors::LightTeal),
            0xffa45024 => Some(Colors::DarkBlue),
            0xffea9036 => Some(Colors::Blue),
            0xfff4e951 => Some(Colors::LightBlue),
            0xffc13a49 => Some(Colors::Indigo),
            0xffff5c6a => Some(Colors::Periwinkle),
            0xffffb394 => Some(Colors::Lavender),
            0xff9f1e81 => Some(Colors::DarkPurple),
            0xffc04ab4 => Some(Colors::Purple),
            0xffffabe4 => Some(Colors::PalePurple),
            0xff7f10de => Some(Colors::Magenta),
            0xff819cff => Some(Colors::Pink),
            0xffaa99ff => Some(Colors::LightPink),
            0xff2f486d => Some(Colors::DarkBrown),
            0xff26699c => Some(Colors::Brown),
            0xff70b4ff => Some(Colors::Beige),
            0xff000000 => Some(Colors::Black),
            0xff525251 => Some(Colors::DarkGray),
            0xff908d89 => Some(Colors::Gray),
            0xffd9d7d4 => Some(Colors::LightGray),
            0xffffffff => Some(Colors::White),
            _ => None,
        }
    }

    /// No two colours of the palette share a packed value or an index.
    pub proof fn lemma_distinct(a: Colors, b: Colors)
        ensures
            a.code() == b.code() ==> a == b,
            a.ordinal() == b.ordinal() ==> a == b,
            a.ordinal() < 32,
    {
    }
}

/// The index of a colour in the palette, from 0 to 31.
pub fn get_color_id(c: Colors) -> (id: u8)
    ensures
        id == c.ordinal(),
        id < 32,
{
    match c {
        Colors::Burgundy => 0,
        Colors::DarkRed => 1,
        Colors::Red => 2,
        Colors::Orange => 3,
        Colors::Yellow => 4,
        Colors::PaleYellow => 5,
        Colors::DarkGreen => 6,
        Colors::Green => 7,
        Colors::LightGreen => 8,
        Colors::DarkTeal => 9,
        Colors::Teal => 10,
        Colors::LightTeal => 11,
        Colors::DarkBlue => 12,
        Colors::Blue => 13,
        Colors::LightBlue => 14,
        Colors::Indigo => 15,
        Colors::Periwinkle => 16,
        Colors::Lavender => 17,
        Colors::DarkPurple => 18,
        Colors::Purple => 19,
        Colors::PalePurple => 20,
        Colors::Magenta => 21,
        Colors::Pink => 22,
        Colors::LightPink => 23,
        Colors::DarkBrown => 24,
        Colors::Brown => 25,
        Colors::Beige => 26,
        Colors::Black => 27,
        Colors::DarkGray => 28,
        Colors::Gray => 29,
        Colors::LightGray => 30,
        Colors::White => 31,
    }
}

} // verus!
