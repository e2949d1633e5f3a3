use vstd::prelude::*;

verus! {

/// The position of the first channel of pixel `(x, y)` (row `y` counted
/// from the top) in an RGBA buffer of `width` by `height` pixels whose rows
/// are stored bottom-up: where the saved image reads each pixel of the
/// render texture.
pub fn flipped_pixel_index(width: u32, height: u32, x: u32, y: u32) -> (res: usize)
    requires
        x < width,
        y < height,
        (height - 1 - y) * width + x <= u32::MAX,
        ((height - 1 - y) * width + x) * 4 <= usize::MAX,
    ensures
        res == ((height - 1 - y) * width + x) * 4,
{
    let row = height - 1 - y;
    let idx = row * width + x;
    idx as usize * 4
}

} // verus!
