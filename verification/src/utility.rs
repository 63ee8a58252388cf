//! The colour palette of the desktop client.

use vstd::prelude::*;

verus! {

/// An sRGB colour with 8-bit channels and an opacity in percent.
#[derive(Clone, Copy, Debug, PartialEq, Eq, Structural)]
pub struct Shade {
    pub r: u8,
    pub g: u8,
    pub b: u8,
    pub alpha_percent: u8,
}

pub struct Utility {}

impl Utility {
    /// The window behind everything: dark grey at 70 % opacity.
    pub fn window_background() -> (c: Shade)
        ensures
            c == (Shade { r: 30, g: 30, b: 30, alpha_percent: 70 }),
    {
        Shade { r: 30, g: 30, b: 30, alpha_percent: 70 }
    }

    pub fn darkest() -> (c: Shade)
        ensures
            c == (Shade { r: 30, g: 30, b: 30, alpha_percent: 100 }),
    {
        Shade { r: 30, g: 30, b: 30, alpha_percent: 100 }
    }

    pub fn darker() -> (c: Shade)
        ensures
            c == (Shade { r: 37, g: 37, b: 38, alpha_percent: 100 }),
    {
        Shade { r: 37, g: 37, b: 38, alpha_percent: 100 }
    }

    pub fn dark() -> (c: Shade)
        ensures
            c == (Shade { r: 45, g: 45, b: 48, alpha_percent: 100 }),
    {
        Shade { r: 45, g: 45, b: 48, alpha_percent: 100 }
    }

    pub fn gray() -> (c: Shade)
        ensures
            c == (Shade { r: 62, g: 62, b: 66, alpha_percent: 100 }),
    {
        Shade { r: 62, g: 62, b: 66, alpha_percent: 100 }
    }

    /// The blue of buttons.
    pub fn accent() -> (c: Shade)
        ensures
            c == (Shade { r: 0, g: 122, b: 224, alpha_percent: 100 }),
    {
        Shade { r: 0, g: 122, b: 224, alpha_percent: 100 }
    }
}

} // verus!
