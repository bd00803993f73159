//! The three per-format conversion entry points. Each takes the raw materials
//! read from a locked platform pixel buffer — geometry, byte stride,
//! presentation timestamp and the copied pixel bytes — and produces a packed,
//! stride-free frame, or no frame on degenerate zero-area geometry.

use vstd::prelude::*;

use crate::frame::BGRAFrame;
use crate::frame::BGRFrame;
use crate::frame::RGBFrame;
use crate::frame::bgra_as_rgb;
use crate::frame::convert_bgra_to_rgb;
use crate::frame::cropped;
use crate::frame::get_cropped_data;
use crate::frame::remove_alpha_channel;
use crate::frame::without_alpha;

verus! {

/// The geometry and buffer bounds under which a conversion is meaningful:
/// each of the `height` rows occupies `bytes_per_row` bytes of the buffer, of
/// which the first `4 * width` are pixel data, and the logical dimensions fit
/// a frame's fields.
pub open spec fn valid_geometry(
    width: usize,
    height: usize,
    bytes_per_row: usize,
    data: Seq<u8>,
) -> bool {
    &&& 4 * width <= bytes_per_row
    &&& height * bytes_per_row <= data.len()
    &&& width <= i32::MAX
    &&& height <= i32::MAX
}

/// What a BGRA conversion returns: no frame exactly on zero-area geometry,
/// otherwise a frame carrying the timestamp, the logical dimensions, and the
/// cropped stride-free pixel bytes.
pub open spec fn bgra_conversion_ok(
    display_time: u64,
    width: usize,
    height: usize,
    bytes_per_row: usize,
    data: Seq<u8>,
    r: Option<BGRAFrame>,
) -> bool {
    &&& (r is None <==> (width == 0 || height == 0))
    &&& (r matches Some(f) ==> f.display_time == display_time
        && f.width == width as i32
        && f.height == height as i32
        && f.data@ == cropped(data, bytes_per_row as int, 4 * width as int, height as int))
}

/// What a BGR conversion returns: as `bgra_conversion_ok`, with the alpha
/// byte of every cropped pixel dropped.
pub open spec fn bgr_conversion_ok(
    display_time: u64,
    width: usize,
    height: usize,
    bytes_per_row: usize,
    data: Seq<u8>,
    r: Option<BGRFrame>,
) -> bool {
    &&& (r is None <==> (width == 0 || height == 0))
    &&& (r matches Some(f) ==> f.display_time == display_time
        && f.width == width as i32
        && f.height == height as i32
        && f.data@ == without_alpha(
            cropped(data, bytes_per_row as int, 4 * width as int, height as int),
            width * height,
        ))
}

/// What an RGB conversion returns: as `bgra_conversion_ok`, with alpha
/// dropped and the B and R bytes of every cropped pixel swapped.
pub open spec fn rgb_conversion_ok(
    display_time: u64,
    width: usize,
    height: usize,
    bytes_per_row: usize,
    data: Seq<u8>,
    r: Option<RGBFrame>,
) -> bool {
    &&& (r is None <==> (width == 0 || height == 0))
    &&& (r matches Some(f) ==> f.display_time == display_time
        && f.width == width as i32
        && f.height == height as i32
        && f.data@ == bgra_as_rgb(
            cropped(data, bytes_per_row as int, 4 * width as int, height as int),
            width * height,
        ))
}

/// Crop-only conversion: the frame keeps all four BGRA channels, with the row
/// padding removed.
pub fn create_bgra_frame(
    display_time: u64,
    width: usize,
    height: usize,
    bytes_per_row: usize,
    data: &Vec<u8>,
) -> (r: Option<BGRAFrame>)
    requires
        width > 0 && height > 0 ==> valid_geometry(width, height, bytes_per_row, data@),
    ensures
        bgra_conversion_ok(display_time, width, height, bytes_per_row, data@, r),
        r matches Some(f) ==> f.data@.len() == 4 * width * height,
{
    if width == 0 || height == 0 {
        return None;
    }
    let cropped_data = get_cropped_data(data, bytes_per_row, width, height);
    Some(BGRAFrame {
        display_time,
        width: width as i32,
        height: height as i32,
        data: cropped_data,
    })
}

/// Crop plus alpha drop: the frame holds 3 bytes per pixel in B,G,R order.
pub fn create_bgr_frame(
    display_time: u64,
    width: usize,
    height: usize,
    bytes_per_row: usize,
    data: &Vec<u8>,
) -> (r: Option<BGRFrame>)
    requires
        width > 0 && height > 0 ==> valid_geometry(width, height, bytes_per_row, data@),
    ensures
        bgr_conversion_ok(display_time, width, height, bytes_per_row, data@, r),
        r matches Some(f) ==> f.data@.len() == 3 * width * height,
{
    if width == 0 || height == 0 {
        return None;
    }
    let cropped_data = get_cropped_data(data, bytes_per_row, width, height);
    proof {
        let q = (width * height) as int;
        assert(4 * width * height == q * 4) by (nonlinear_arith)
            requires q == (width * height) as int;
        vstd::arithmetic::div_mod::lemma_mod_multiples_basic(q, 4);
        vstd::arithmetic::div_mod::lemma_div_by_multiple(q, 4);
        assert(3 * q == 3 * width * height) by (nonlinear_arith)
            requires q == (width * height) as int;
    }
    let packed = remove_alpha_channel(&cropped_data);
    Some(BGRFrame {
        display_time,
        width: width as i32,
        height: height as i32,
        data: packed,
    })
}

/// Crop, alpha drop and channel swap: the frame holds 3 bytes per pixel in
/// R,G,B order.
pub fn create_rgb_frame(
    display_time: u64,
    width: usize,
    height: usize,
    bytes_per_row: usize,
    data: &Vec<u8>,
) -> (r: Option<RGBFrame>)
    requires
        width > 0 && height > 0 ==> valid_geometry(width, height, bytes_per_row, data@),
    ensures
        rgb_conversion_ok(display_time, width, height, bytes_per_row, data@, r),
        r matches Some(f) ==> f.data@.len() == 3 * width * height,
{
    if width == 0 || height == 0 {
        return None;
    }
    let cropped_data = get_cropped_data(data, bytes_per_row, width, height);
    proof {
        let q = (width * height) as int;
        assert(4 * width * height == q * 4) by (nonlinear_arith)
            requires q == (width * height) as int;
        vstd::arithmetic::div_mod::lemma_mod_multiples_basic(q, 4);
        vstd::arithmetic::div_mod::lemma_div_by_multiple(q, 4);
        assert(3 * q == 3 * width * height) by (nonlinear_arith)
            requires q == (width * height) as int;
    }
    let packed = convert_bgra_to_rgb(&cropped_data);
    Some(RGBFrame {
        display_time,
        width: width as i32,
        height: height as i32,
        data: packed,
    })
}

/// Conversion is a function of its input alone: any two BGRA results for the
/// same input agree on presence, geometry, timestamp and every pixel byte, so
/// converting the same buffer twice yields byte-identical output.
pub proof fn lemma_bgra_conversion_deterministic(
    display_time: u64,
    width: usize,
    height: usize,
    bytes_per_row: usize,
    data: Seq<u8>,
    r1: Option<BGRAFrame>,
    r2: Option<BGRAFrame>,
)
    requires
        bgra_conversion_ok(display_time, width, height, bytes_per_row, data, r1),
        bgra_conversion_ok(display_time, width, height, bytes_per_row, data, r2),
    ensures
        r1 is Some <==> r2 is Some,
        r1 matches Some(f1) ==> r2 matches Some(f2) ==> f1.display_time == f2.display_time
            && f1.width == f2.width
            && f1.height == f2.height
            && f1.data@ == f2.data@,
{
}

/// Conversion is a function of its input alone: any two BGR results for the
/// same input agree on presence, geometry, timestamp and every pixel byte.
pub proof fn lemma_bgr_conversion_deterministic(
    display_time: u64,
    width: usize,
    height: usize,
    bytes_per_row: usize,
    data: Seq<u8>,
    r1: Option<BGRFrame>,
    r2: Option<BGRFrame>,
)
    requires
        bgr_conversion_ok(display_time, width, height, bytes_per_row, data, r1),
        bgr_conversion_ok(display_time, width, height, bytes_per_row, data, r2),
    ensures
        r1 is Some <==> r2 is Some,
        r1 matches Some(f1) ==> r2 matches Some(f2) ==> f1.display_time == f2.display_time
            && f1.width == f2.width
            && f1.height == f2.height
            && f1.data@ == f2.data@,
{
}

/// Conversion is a function of its input alone: any two RGB results for the
/// same input agree on presence, geometry, timestamp and every pixel byte.
pub proof fn lemma_rgb_conversion_deterministic(
    display_time: u64,
    width: usize,
    height: usize,
    bytes_per_row: usize,
    data: Seq<u8>,
    r1: Option<RGBFrame>,
    r2: Option<RGBFrame>,
)
    requires
        rgb_conversion_ok(display_time, width, height, bytes_per_row, data, r1),
        rgb_conversion_ok(display_time, width, height, bytes_per_row, data, r2),
    ensures
        r1 is Some <==> r2 is Some,
        r1 matches Some(f1) ==> r2 matches Some(f2) ==> f1.display_time == f2.display_time
            && f1.width == f2.width
            && f1.height == f2.height
            && f1.data@ == f2.data@,
{
}

} // verus!
