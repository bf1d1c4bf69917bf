//! The tray icon image: a little-endian width and height, then the pixels.
use vstd::prelude::*;

verus! {

/// The little-endian value of four bytes.
pub open spec fn le_u32(b0: u8, b1: u8, b2: u8, b3: u8) -> int {
    b0 + 256 * b1 + 65536 * b2 + 16777216 * b3
}

/// Splits an icon image into its width (bytes 0 to 3, little-endian), its
/// height (bytes 4 to 7, little-endian) and its pixel data (the rest).
pub fn get_icon(buffer: &[u8]) -> (res: (u32, u32, Vec<u8>))
    requires
        buffer.len() >= 8,
    ensures
        res.0 == le_u32(buffer[0], buffer[1], buffer[2], buffer[3]),
        res.1 == le_u32(buffer[4], buffer[5], buffer[6], buffer[7]),
        res.2@ == buffer@.subrange(8, buffer@.len() as int),
{
    let width: u32 = buffer[0] as u32 + buffer[1] as u32 * 256 + buffer[2] as u32 * 65536
        + buffer[3] as u32 * 16777216;
    let height: u32 = buffer[4] as u32 + buffer[5] as u32 * 256 + buffer[6] as u32 * 65536
        + buffer[7] as u32 * 16777216;
    let mut pixels: Vec<u8> = Vec::new();
    let mut i: usize = 8;
    while i < buffer.len()
        invariant
            8 <= i <= buffer.len(),
            pixels@ == buffer@.subrange(8, i as int),
        decreases buffer.len() - i,
    {
        pixels.push(buffer[i]);
        i = i + 1;
        assert(pixels@ =~= buffer@.subrange(8, i as int));
    }
    (width, height, pixels)
}

} // verus!
