//! Packed 1-bit raster rows.

use vstd::prelude::*;

verus! {

/// Bytes in one packed row of `width` dots, most significant bit first.
pub open spec fn row_bytes(width: int) -> int {
    (width + 7) / 8
}

/// Bytes in one packed row of `width` dots (8 dots to a byte, last byte padded).
pub fn width_bytes(width: u16) -> (r: usize)
    ensures
        r == row_bytes(width as int),
        r <= 8192,
{
    (width as usize + 7) / 8
}

} // verus!
