//! Frame values and the byte-exact transforms that produce them: cropping a
//! row-padded buffer to a stride-free one, dropping the alpha channel, and
//! reordering BGRA pixels to RGB.

use vstd::prelude::*;

verus! {

/// A packed frame in B,G,R,A channel order: 4 bytes per pixel, rows
/// contiguous, `data` of length `4 * width * height`.
pub struct BGRAFrame {
    pub display_time: u64,
    pub width: i32,
    pub height: i32,
    pub data: Vec<u8>,
}

/// A packed frame in B,G,R channel order: 3 bytes per pixel, rows contiguous,
/// `data` of length `3 * width * height`.
pub struct BGRFrame {
    pub display_time: u64,
    pub width: i32,
    pub height: i32,
    pub data: Vec<u8>,
}

/// A packed frame in R,G,B channel order: 3 bytes per pixel, rows contiguous,
/// `data` of length `3 * width * height`.
pub struct RGBFrame {
    pub display_time: u64,
    pub width: i32,
    pub height: i32,
    pub data: Vec<u8>,
}

/// The first `row_len` bytes of each of the first `rows` rows of `data`,
/// concatenated. A row of `data` starts every `stride` bytes; the bytes of a
/// row beyond `row_len` are padding and are dropped.
pub open spec fn cropped(data: Seq<u8>, stride: int, row_len: int, rows: int) -> Seq<u8>
    decreases rows,
{
    if rows <= 0 {
        Seq::empty()
    } else {
        cropped(data, stride, row_len, rows - 1)
            + data.subrange((rows - 1) * stride, (rows - 1) * stride + row_len)
    }
}

/// The cropped buffer holds exactly `row_len` bytes per row.
pub proof fn lemma_cropped_len(data: Seq<u8>, stride: int, row_len: int, rows: int)
    requires
        0 <= row_len <= stride,
        0 <= rows,
        rows * stride <= data.len(),
    ensures
        cropped(data, stride, row_len, rows).len() == rows * row_len,
    decreases rows,
{
    if rows > 0 {
        assert(0 <= (rows - 1) * stride) by (nonlinear_arith)
            requires 0 <= rows - 1, 0 <= stride;
        assert((rows - 1) * stride + row_len <= rows * stride) by (nonlinear_arith)
            requires row_len <= stride;
        lemma_cropped_len(data, stride, row_len, rows - 1);
        assert(data.subrange((rows - 1) * stride, (rows - 1) * stride + row_len).len()
            == row_len);
        assert(cropped(data, stride, row_len, rows).len() == (rows - 1) * row_len + row_len);
        assert((rows - 1) * row_len + row_len == rows * row_len) by (nonlinear_arith);
    } else {
        assert(rows * row_len == 0) by (nonlinear_arith)
            requires rows == 0;
    }
}

/// Cropping keeps every meaningful byte at its place: byte `j` of output row
/// `y` is byte `j` of input row `y`, and no padding byte reaches the output.
pub proof fn lemma_cropped_index(
    data: Seq<u8>,
    stride: int,
    row_len: int,
    rows: int,
    y: int,
    j: int,
)
    requires
        0 <= row_len <= stride,
        rows * stride <= data.len(),
        0 <= y < rows,
        0 <= j < row_len,
    ensures
        cropped(data, stride, row_len, rows)[y * row_len + j] == data[y * stride + j],
    decreases rows,
{
    assert((rows - 1) * stride + row_len <= rows * stride) by (nonlinear_arith)
        requires row_len <= stride;
    assert(0 <= (rows - 1) * stride) by (nonlinear_arith)
        requires 0 <= rows - 1, 0 <= stride;
    lemma_cropped_len(data, stride, row_len, rows - 1);
    if y == rows - 1 {
        assert(y * row_len + j - (rows - 1) * row_len == j);
    } else {
        assert((rows - 1) * stride <= rows * stride) by (nonlinear_arith)
            requires 0 <= stride;
        assert(y * row_len + j < (rows - 1) * row_len) by (nonlinear_arith)
            requires 0 <= y, y < rows - 1, 0 <= j < row_len;
        lemma_cropped_index(data, stride, row_len, rows - 1, y, j);
    }
}

/// When the stride equals the row length there is no padding and cropping is
/// the identity on the meaningful prefix of the buffer.
pub proof fn lemma_cropped_no_padding(data: Seq<u8>, row_len: int, rows: int)
    requires
        0 <= row_len,
        0 <= rows,
        rows * row_len <= data.len(),
    ensures
        cropped(data, row_len, row_len, rows) == data.subrange(0, rows * row_len),
    decreases rows,
{
    if rows <= 0 {
        assert(rows * row_len == 0) by (nonlinear_arith)
            requires rows == 0;
        assert(cropped(data, row_len, row_len, rows) =~= data.subrange(0, rows * row_len));
    } else {
        assert((rows - 1) * row_len + row_len == rows * row_len) by (nonlinear_arith);
        assert(0 <= (rows - 1) * row_len) by (nonlinear_arith)
            requires 0 <= rows - 1, 0 <= row_len;
        assert((rows - 1) * row_len <= rows * row_len);
        lemma_cropped_no_padding(data, row_len, rows - 1);
        let prev = data.subrange(0, (rows - 1) * row_len);
        let last = data.subrange((rows - 1) * row_len, rows * row_len);
        let whole = data.subrange(0, rows * row_len);
        assert forall|i: int| 0 <= i < rows * row_len implies (prev + last)[i] == whole[i] by {
            if i < (rows - 1) * row_len {
                assert((prev + last)[i] == data[i]);
            } else {
                assert((prev + last)[i] == data[i]);
            }
            assert(whole[i] == data[i]);
        }
        assert(cropped(data, row_len, row_len, rows) =~= data.subrange(0, rows * row_len));
    }
}

/// Copies, for each row `y` in `0..height`, the `4 * width` meaningful bytes
/// starting at `y * bytes_per_row`, producing a contiguous stride-free BGRA
/// buffer of length `4 * width * height`.
pub fn get_cropped_data(
    data: &Vec<u8>,
    bytes_per_row: usize,
    width: usize,
    height: usize,
) -> (r: Vec<u8>)
    requires
        4 * width <= bytes_per_row,
        height * bytes_per_row <= data@.len(),
    ensures
        r@ == cropped(data@, bytes_per_row as int, 4 * width as int, height as int),
        r@.len() == 4 * width * height,
{
    let row_len: usize = 4 * width;
    let total: usize = data.len();
    let mut out: Vec<u8> = Vec::new();
    let mut y: usize = 0;
    while y < height
        invariant
            y <= height,
            row_len == 4 * width,
            row_len <= bytes_per_row,
            height * bytes_per_row <= data@.len(),
            data@.len() == total,
            out@ == cropped(data@, bytes_per_row as int, row_len as int, y as int),
            out@.len() == y * row_len,
        decreases height - y,
    {
        proof {
            assert(y * bytes_per_row + bytes_per_row <= height * bytes_per_row)
                by (nonlinear_arith)
                requires y < height, 0 <= bytes_per_row;
        }
        let row_start: usize = y * bytes_per_row;
        proof {
            assert(data@.subrange(row_start as int, row_start as int)
                =~= Seq::<u8>::empty());
            assert(out@ =~= out@ + data@.subrange(row_start as int, row_start as int));
        }
        let mut j: usize = 0;
        while j < row_len
            invariant
                j <= row_len,
                y < height,
                row_len <= bytes_per_row,
                height * bytes_per_row <= data@.len(),
                data@.len() == total,
                row_start == y * bytes_per_row,
                row_start + bytes_per_row <= data@.len(),
                out@ == cropped(data@, bytes_per_row as int, row_len as int, y as int)
                    + data@.subrange(row_start as int, row_start + j),
            decreases row_len - j,
        {
            out.push(data[row_start + j]);
            proof {
                assert(data@.subrange(row_start as int, row_start + j + 1)
                    =~= data@.subrange(row_start as int, row_start + j)
                        .push(data@[row_start + j]));
            }
            j += 1;
        }
        proof {
            assert(out@ =~= cropped(
                data@, bytes_per_row as int, row_len as int, y as int + 1));
            assert((y + 1) * bytes_per_row <= height * bytes_per_row) by (nonlinear_arith)
                requires y < height, 0 <= bytes_per_row;
            lemma_cropped_len(data@, bytes_per_row as int, row_len as int, y as int + 1);
        }
        y += 1;
    }
    proof {
        assert(y * row_len == 4 * width * height) by (nonlinear_arith)
            requires y == height, row_len == 4 * width;
    }
    out
}

/// The first `pixels` pixels of the packed BGRA buffer `bgra` with the alpha
/// byte of each 4-byte group dropped: 3 bytes per pixel in unchanged B,G,R
/// order.
pub open spec fn without_alpha(bgra: Seq<u8>, pixels: int) -> Seq<u8>
    decreases pixels,
{
    if pixels <= 0 {
        Seq::empty()
    } else {
        without_alpha(bgra, pixels - 1)
            + seq![bgra[4 * (pixels - 1)], bgra[4 * (pixels - 1) + 1], bgra[4 * (pixels - 1) + 2]]
    }
}

/// The first `pixels` pixels of the packed BGRA buffer `bgra` with alpha
/// dropped and the B and R bytes of each pixel swapped: 3 bytes per pixel in
/// R,G,B order.
pub open spec fn bgra_as_rgb(bgra: Seq<u8>, pixels: int) -> Seq<u8>
    decreases pixels,
{
    if pixels <= 0 {
        Seq::empty()
    } else {
        bgra_as_rgb(bgra, pixels - 1)
            + seq![bgra[4 * (pixels - 1) + 2], bgra[4 * (pixels - 1) + 1], bgra[4 * (pixels - 1)]]
    }
}

/// Dropping alpha yields exactly 3 bytes per pixel.
pub proof fn lemma_without_alpha_len(bgra: Seq<u8>, pixels: int)
    requires
        0 <= pixels,
    ensures
        without_alpha(bgra, pixels).len() == 3 * pixels,
    decreases pixels,
{
    if pixels > 0 {
        lemma_without_alpha_len(bgra, pixels - 1);
    }
}

/// Swapping to RGB yields exactly 3 bytes per pixel.
pub proof fn lemma_bgra_as_rgb_len(bgra: Seq<u8>, pixels: int)
    requires
        0 <= pixels,
    ensures
        bgra_as_rgb(bgra, pixels).len() == 3 * pixels,
    decreases pixels,
{
    if pixels > 0 {
        lemma_bgra_as_rgb_len(bgra, pixels - 1);
    }
}

/// For every pixel `k`, the BGR bytes `3k`, `3k + 1`, `3k + 2` equal the BGRA
/// bytes `4k`, `4k + 1`, `4k + 2`: only the alpha byte `4k + 3` is dropped.
pub proof fn lemma_without_alpha_index(bgra: Seq<u8>, pixels: int, k: int, j: int)
    requires
        0 <= k < pixels,
        0 <= j < 3,
    ensures
        without_alpha(bgra, pixels)[3 * k + j] == bgra[4 * k + j],
    decreases pixels,
{
    lemma_without_alpha_len(bgra, pixels - 1);
    if k < pixels - 1 {
        lemma_without_alpha_index(bgra, pixels - 1, k, j);
    }
}

/// For every pixel `k`, the RGB bytes `3k`, `3k + 1`, `3k + 2` equal the BGRA
/// bytes `4k + 2`, `4k + 1`, `4k`: channel order reversed, alpha dropped.
pub proof fn lemma_bgra_as_rgb_index(bgra: Seq<u8>, pixels: int, k: int, j: int)
    requires
        0 <= k < pixels,
        0 <= j < 3,
    ensures
        bgra_as_rgb(bgra, pixels)[3 * k + j] == bgra[4 * k + 2 - j],
    decreases pixels,
{
    lemma_bgra_as_rgb_len(bgra, pixels - 1);
    if k < pixels - 1 {
        lemma_bgra_as_rgb_index(bgra, pixels - 1, k, j);
    }
}

/// Drops the alpha byte of every 4-byte BGRA pixel group, producing 3 bytes
/// per pixel in unchanged B,G,R order.
pub fn remove_alpha_channel(data: &Vec<u8>) -> (r: Vec<u8>)
    requires
        data@.len() % 4 == 0,
    ensures
        r@ == without_alpha(data@, (data@.len() / 4) as int),
        r@.len() == 3 * (data@.len() / 4),
{
    let pixels: usize = data.len() / 4;
    let mut out: Vec<u8> = Vec::new();
    let mut k: usize = 0;
    while k < pixels
        invariant
            k <= pixels,
            pixels == data@.len() / 4,
            data@.len() % 4 == 0,
            data@.len() <= usize::MAX,
            out@ == without_alpha(data@, k as int),
            out@.len() == 3 * k,
        decreases pixels - k,
    {
        out.push(data[4 * k]);
        out.push(data[4 * k + 1]);
        out.push(data[4 * k + 2]);
        proof {
            assert(out@ =~= without_alpha(data@, k as int + 1));
        }
        k += 1;
    }
    out
}

/// Converts a packed BGRA buffer to packed RGB: drops the alpha byte of every
/// pixel group and swaps the B and R bytes, so channel order becomes R,G,B.
pub fn convert_bgra_to_rgb(data: &Vec<u8>) -> (r: Vec<u8>)
    requires
        data@.len() % 4 == 0,
    ensures
        r@ == bgra_as_rgb(data@, (data@.len() / 4) as int),
        r@.len() == 3 * (data@.len() / 4),
{
    let pixels: usize = data.len() / 4;
    let mut out: Vec<u8> = Vec::new();
    let mut k: usize = 0;
    while k < pixels
        invariant
            k <= pixels,
            pixels == data@.len() / 4,
            data@.len() % 4 == 0,
            data@.len() <= usize::MAX,
            out@ == bgra_as_rgb(data@, k as int),
            out@.len() == 3 * k,
        decreases pixels - k,
    {
        out.push(data[4 * k + 2]);
        out.push(data[4 * k + 1]);
        out.push(data[4 * k]);
        proof {
            assert(out@ =~= bgra_as_rgb(data@, k as int + 1));
        }
        k += 1;
    }
    out
}

} // verus!
