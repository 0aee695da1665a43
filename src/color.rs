use vstd::prelude::*;

verus! {

/// A color with 8 bits per channel, each in 0 to 255.
#[derive(Debug, Eq, PartialEq, Copy, Clone, Structural)]
pub struct Color8 {
    pub r: u8,
    pub g: u8,
    pub b: u8,
    pub a: u8,
}

impl Default for Color8 {
    /// Opaque black.
    fn default() -> (c: Self)
        ensures
            c == (Color8 { r: 0, g: 0, b: 0, a: 255 }),
    {
        Color8 { r: 0, g: 0, b: 0, a: 255 }
    }
}

impl Color8 {
    /// An opaque color: alpha 255.
    pub fn new_rgb(r: u8, g: u8, b: u8) -> (c: Self)
        ensures
            c == (Color8 { r, g, b, a: 255 }),
    {
        Color8 { r, g, b, ..Default::default() }
    }

    /// A color with the given alpha.
    pub fn new_rgba(r: u8, g: u8, b: u8, a: u8) -> (c: Self)
        ensures
            c == (Color8 { r, g, b, a }),
    {
        Color8 { r, g, b, a }
    }
}

impl From<(u8, u8, u8, u8)> for Color8 {
    fn from(color: (u8, u8, u8, u8)) -> (c: Self) {
        Self::new_rgba(color.0, color.1, color.2, color.3)
    }
}

impl vstd::std_specs::convert::FromSpecImpl<(u8, u8, u8, u8)> for Color8 {
    open spec fn obeys_from_spec() -> bool {
        true
    }

    open spec fn from_spec(color: (u8, u8, u8, u8)) -> Color8 {
        Color8 { r: color.0, g: color.1, b: color.2, a: color.3 }
    }
}

impl From<(u8, u8, u8)> for Color8 {
    fn from(color: (u8, u8, u8)) -> (c: Self) {
        Self::new_rgba(color.0, color.1, color.2, 255)
    }
}

impl vstd::std_specs::convert::FromSpecImpl<(u8, u8, u8)> for Color8 {
    open spec fn obeys_from_spec() -> bool {
        true
    }

    open spec fn from_spec(color: (u8, u8, u8)) -> Color8 {
        Color8 { r: color.0, g: color.1, b: color.2, a: 255 }
    }
}

} // verus!
