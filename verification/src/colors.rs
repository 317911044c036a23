//! The pastel palette of the terminal interface, readable on light and
//! dark backgrounds.

use vstd::prelude::*;

verus! {

/// A colour by its red, green and blue components.
#[derive(Debug, Clone, Copy, PartialEq, Eq, Structural)]
pub struct Rgb {
    pub r: u8,
    pub g: u8,
    pub b: u8,
}

/// The palette.
pub struct PastelColors;

impl PastelColors {
    /// Light sky blue, for headers and branding.
    pub fn header() -> (c: Rgb)
        ensures
            c == (Rgb { r: 135, g: 206, b: 250 }),
    {
        Rgb { r: 135, g: 206, b: 250 }
    }

    /// Aquamarine, for the assistant's text.
    pub fn assistant() -> (c: Rgb)
        ensures
            c == (Rgb { r: 152, g: 245, b: 225 }),
    {
        Rgb { r: 152, g: 245, b: 225 }
    }

    /// Peach, for tools and warnings.
    pub fn tool() -> (c: Rgb)
        ensures
            c == (Rgb { r: 255, g: 229, b: 180 }),
    {
        Rgb { r: 255, g: 229, b: 180 }
    }

    /// Mint green, for success.
    pub fn success() -> (c: Rgb)
        ensures
            c == (Rgb { r: 182, g: 255, b: 182 }),
    {
        Rgb { r: 182, g: 255, b: 182 }
    }

    /// Light pink, for errors.
    pub fn error() -> (c: Rgb)
        ensures
            c == (Rgb { r: 255, g: 182, b: 193 }),
    {
        Rgb { r: 255, g: 182, b: 193 }
    }

    /// Lavender, for prompts.
    pub fn prompt() -> (c: Rgb)
        ensures
            c == (Rgb { r: 230, g: 230, b: 250 }),
    {
        Rgb { r: 230, g: 230, b: 250 }
    }
}

} // verus!
