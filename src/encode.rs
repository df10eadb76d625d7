//! The byte layout handed to an image encoder: 8-bit RGBA, pixel after pixel,
//! fully opaque.
use vstd::prelude::*;

verus! {

/// Alpha value of every encoded pixel.
pub const OPAQUE: u8 = 255;

/// Byte `k` of the RGBA encoding of `pixels`: red, green, blue, then alpha.
pub open spec fn rgba_byte(pixels: Seq<(u8, u8, u8)>, k: int) -> u8 {
    let p = pixels[k / 4];
    if k % 4 == 0 {
        p.0
    } else if k % 4 == 1 {
        p.1
    } else if k % 4 == 2 {
        p.2
    } else {
        OPAQUE
    }
}

/// Lays quantized `(red, green, blue)` pixels out as RGBA bytes, four per
/// pixel, with alpha forced to fully opaque.
pub fn rgba_bytes(pixels: &Vec<(u8, u8, u8)>) -> (r: Vec<u8>)
    requires
        pixels@.len() * 4 <= usize::MAX,
    ensures
        r@.len() == pixels@.len() * 4,
        forall|k: int| 0 <= k < r@.len() ==> r@[k] == rgba_byte(pixels@, k),
{
    let n = pixels.len();
    let mut out: Vec<u8> = Vec::with_capacity(n * 4);
    let mut i: usize = 0;
    while i < n
        invariant
            n == pixels@.len(),
            n * 4 <= usize::MAX,
            i <= n,
            out@.len() == i * 4,
            forall|k: int| 0 <= k < out@.len() ==> out@[k] == rgba_byte(pixels@, k),
        decreases n - i,
    {
        let (red, green, blue) = pixels[i];
        let ghost before = out@;
        out.push(red);
        out.push(green);
        out.push(blue);
        out.push(OPAQUE);
        proof {
            assert forall|k: int| 0 <= k < out@.len() implies out@[k] == rgba_byte(pixels@, k) by {
                if k >= i * 4 {
                    assert(k / 4 == i as int);
                    assert(k % 4 == k - i * 4);
                } else {
                    assert(out@[k] == before[k]);
                }
            }
        }
        i = i + 1;
    }
    out
}

} // verus!
