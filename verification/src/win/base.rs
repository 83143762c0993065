//! Colours.

use vstd::prelude::*;

verus! {

/// A colour as Windows packs it: red in the lowest byte, then green, then blue.
pub open spec fn packed(r: u8, g: u8, b: u8) -> int {
    r + g * 0x100 + b * 0x1_0000
}

/// Packs a colour.
pub fn rgb(r: u8, g: u8, b: u8) -> (c: u32)
    ensures
        c == packed(r, g, b),
{
    r as u32 + g as u32 * 0x100 + b as u32 * 0x1_0000
}

/// A colour that is packed already.
pub fn hex_to_rgb(hex: u32) -> (c: u32)
    ensures
        c == hex,
{
    hex
}

} // verus!
