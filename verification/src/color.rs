//! The foreground/background colour a glyph or tile is presented with.
//!
//! The core never draws; it only records which colour an entity, a message or
//! a tile state should be rendered in, and hands those values to the
//! presentation layer.

use vstd::prelude::*;

verus! {

/// An RGB colour, one byte per channel.
#[derive(Clone, Copy, Debug, PartialEq, Eq, Structural)]
pub struct Color {
    pub r: u8,
    pub g: u8,
    pub b: u8,
}

impl Color {
    pub fn new(r: u8, g: u8, b: u8) -> (c: Color)
        ensures
            c == (Color { r, g, b }),
    {
        Color { r, g, b }
    }

    pub fn white() -> (c: Color)
        ensures
            c == (Color { r: 255u8, g: 255u8, b: 255u8 }),
    {
        Color { r: 255, g: 255, b: 255 }
    }

    pub fn red() -> (c: Color)
        ensures
            c == (Color { r: 255u8, g: 0u8, b: 0u8 }),
    {
        Color { r: 255, g: 0, b: 0 }
    }

    pub fn dark_red() -> (c: Color)
        ensures
            c == (Color { r: 191u8, g: 0u8, b: 0u8 }),
    {
        Color { r: 191, g: 0, b: 0 }
    }

    pub fn orange() -> (c: Color)
        ensures
            c == (Color { r: 255u8, g: 127u8, b: 0u8 }),
    {
        Color { r: 255, g: 127, b: 0 }
    }

    pub fn green() -> (c: Color)
        ensures
            c == (Color { r: 0u8, g: 255u8, b: 0u8 }),
    {
        Color { r: 0, g: 255, b: 0 }
    }

    pub fn desaturated_green() -> (c: Color)
        ensures
            c == (Color { r: 63u8, g: 127u8, b: 63u8 }),
    {
        Color { r: 63, g: 127, b: 63 }
    }

    pub fn darker_green() -> (c: Color)
        ensures
            c == (Color { r: 0u8, g: 127u8, b: 0u8 }),
    {
        Color { r: 0, g: 127, b: 0 }
    }

    pub fn violet() -> (c: Color)
        ensures
            c == (Color { r: 127u8, g: 0u8, b: 255u8 }),
    {
        Color { r: 127, g: 0, b: 255 }
    }
}

} // verus!
