//! Pixel-buffer handling for screen captures: the capture size check and the
//! BGRA to RGBA conversion of the captured bytes.
use vstd::prelude::*;

verus! {

/// The capture size as unsigned dimensions, `None` unless both are
/// positive (the screen size could not be determined).
pub fn capture_size(width: i32, height: i32) -> (r: Option<(u32, u32)>)
    ensures
        (width > 0 && height > 0) ==> r == Some((width as u32, height as u32)),
        !(width > 0 && height > 0) ==> r is None,
{
    if width <= 0 || height <= 0 {
        return None;
    }
    Some((width as u32, height as u32))
}

/// Bytes of a 32-bit-per-pixel buffer of the given size.
pub fn pixel_buffer_len(width: u32, height: u32) -> (r: usize)
    requires
        width * height * 4 <= usize::MAX,
    ensures
        r == width * height * 4,
{
    let w = width as usize;
    let h = height as usize;
    assert(w * h <= width * height * 4) by (nonlinear_arith)
        requires
            w == width,
            h == height;
    let p = w * h;
    p * 4
}

/// A pixel buffer with blue and red swapped in every whole 4-byte pixel.
pub open spec fn swapped_pixel(old: Seq<u8>, k: int) -> u8 {
    let whole = old.len() - old.len() % 4;
    if k < whole && k % 4 == 0 {
        old[k + 2]
    } else if k < whole && k % 4 == 2 {
        old[k - 2]
    } else {
        old[k]
    }
}

/// Converts BGRA pixels to RGBA in place; trailing bytes that do not fill a
/// pixel are left as they are.
pub fn bgra_to_rgba(buf: &mut Vec<u8>)
    ensures
        final(buf)@.len() == old(buf)@.len(),
        forall|k: int| 0 <= k < old(buf)@.len() ==> #[trigger] final(buf)@[k] == swapped_pixel(old(buf)@, k),
{
    let n = buf.len();
    let whole = n - n % 4;
    let mut i: usize = 0;
    while i < whole
        invariant
            n == buf@.len(),
            n == old(buf)@.len(),
            whole == n - n % 4,
            i % 4 == 0,
            i <= whole,
            forall|k: int| 0 <= k < i ==> #[trigger] buf@[k] == swapped_pixel(old(buf)@, k),
            forall|k: int| i <= k < n ==> #[trigger] buf@[k] == old(buf)@[k],
        decreases whole - i,
    {
        let b = buf[i];
        let r = buf[i + 2];
        buf.set(i, r);
        buf.set(i + 2, b);
        i = i + 4;
    }
}

} // verus!
