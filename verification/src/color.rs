//! Colours as the surface stores them: 32 bits, of which the top byte is
//! unused and the next three are red, green and blue.

use vstd::prelude::*;

verus! {

/// The colour with the given red, green and blue.
pub open spec fn rgb(red: u8, green: u8, blue: u8) -> u32 {
    (red * 0x10000 + green * 0x100 + blue) as u32
}

/// The red of a colour.
pub open spec fn red_of(color: u32) -> u8 {
    ((color / 0x10000) % 0x100) as u8
}

/// The green of a colour.
pub open spec fn green_of(color: u32) -> u8 {
    ((color / 0x100) % 0x100) as u8
}

/// The blue of a colour.
pub open spec fn blue_of(color: u32) -> u8 {
    (color % 0x100) as u8
}

/// Proves that a colour made of three channels has those channels, and an
/// empty top byte.
pub proof fn lemma_rgb_channels(red: u8, green: u8, blue: u8)
    ensures
        red_of(rgb(red, green, blue)) == red,
        green_of(rgb(red, green, blue)) == green,
        blue_of(rgb(red, green, blue)) == blue,
        rgb(red, green, blue) <= 0xFFFFFF,
{
}

/// Packs red, green and blue into one colour.
pub fn pack_rgb(red: u8, green: u8, blue: u8) -> (color: u32)
    ensures
        color == rgb(red, green, blue),
{
    let r: u32 = red as u32;
    let g: u32 = green as u32;
    let b: u32 = blue as u32;
    assert((r << 16) | (g << 8) | b == r * 0x10000 + g * 0x100 + b) by (bit_vector)
        requires
            r <= 0xFF,
            g <= 0xFF,
            b <= 0xFF,
    ;
    (r << 16) | (g << 8) | b
}

/// The red of a colour.
pub fn red(color: u32) -> (channel: u8)
    ensures
        channel == red_of(color),
{
    ((color / 0x10000) % 0x100) as u8
}

/// The green of a colour.
pub fn green(color: u32) -> (channel: u8)
    ensures
        channel == green_of(color),
{
    ((color / 0x100) % 0x100) as u8
}

/// The blue of a colour.
pub fn blue(color: u32) -> (channel: u8)
    ensures
        channel == blue_of(color),
{
    (color % 0x100) as u8
}

} // verus!
