use crate::image::Image;
use vstd::prelude::*;

verus! {

/// Pixels set aside from the reported capacity so that the header and
/// small-file overhead always have headroom.
pub const CAPACITY_RESERVE: u32 = 1000;

/// The reported embeddable capacity: the raw pixel count less the fixed
/// reserve.
pub open spec fn spec_capacity(img: Image) -> int {
    img.spec_size() - CAPACITY_RESERVE
}

/// Whether a payload of `data_len` bytes is refused for capacity: the image
/// has fewer pixels than the reserve, or the payload would use more than
/// 99.9% of the reported capacity, that is `1000 * data_len > 999 * capacity`.
pub open spec fn spec_capacity_refused(img: Image, data_len: int) -> bool {
    ||| img.spec_size() < CAPACITY_RESERVE
    ||| 1000 * data_len > 999 * spec_capacity(img)
}

/// Report the number of embeddable bytes of an image.
pub fn get_image_capacity(img: &Image) -> (cap: u32)
    requires
        img.wf(),
        img.spec_size() >= CAPACITY_RESERVE,
    ensures
        cap == spec_capacity(*img),
{
    proof {
        assert((img.spec_height() as int) * (img.spec_width() as int) == (img.spec_width() as int)
            * (img.spec_height() as int)) by (nonlinear_arith);
    }
    img.height() * img.width() - CAPACITY_RESERVE
}

/// Decide whether a payload is refused for capacity, comparing
/// `1000 * data_len` against `999 * capacity` exactly.
pub fn capacity_refused(img: &Image, data_len: usize) -> (r: bool)
    requires
        img.wf(),
        data_len <= u32::MAX,
    ensures
        r == spec_capacity_refused(*img, data_len as int),
{
    let size: u64 = (img.width() as u64) * (img.height() as u64);
    if size < CAPACITY_RESERVE as u64 {
        return true;
    }
    let cap: u64 = size - CAPACITY_RESERVE as u64;
    (data_len as u64) * 1000 > 999 * cap
}

} // verus!
