//! Colours an image by invocation.

use vstd::prelude::*;

verus! {

/// The colour of an invocation: the low byte of each of its coordinates.
pub fn invocation_color(x: u32, y: u32, z: u32) -> (rgb: [u8; 3])
    ensures
        rgb@ == seq![(x % 256) as u8, (y % 256) as u8, (z % 256) as u8],
{
    assert(x & 0xff == x % 256) by (bit_vector);
    assert(y & 0xff == y % 256) by (bit_vector);
    assert(z & 0xff == z % 256) by (bit_vector);
    let rgb: [u8; 3] = [(x & 0xff) as u8, (y & 0xff) as u8, (z & 0xff) as u8];
    assert(rgb@ =~= seq![(x % 256) as u8, (y % 256) as u8, (z % 256) as u8]);
    rgb
}

} // verus!
