use vstd::prelude::*;

verus! {

/// A colour as four channels, each from 0 (none) to 255 (full).
#[derive(Clone, Copy, Debug, PartialEq, Eq, Structural)]
pub struct Rgba {
    pub red: u8,
    pub green: u8,
    pub blue: u8,
    pub alpha: u8,
}

impl Rgba {
    /// The colour with the given channels.
    pub fn new(red: u8, green: u8, blue: u8, alpha: u8) -> (color: Rgba)
        ensures
            color == (Rgba { red, green, blue, alpha }),
    {
        Rgba { red, green, blue, alpha }
    }
}

} // verus!
