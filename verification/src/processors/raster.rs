//! Pixel buffers as plain values, the row and channel repacking that the
//! generators need, and the decoder, scaler, rotations and JPEG encoder of the
//! `image` crate behind contracts.

use vstd::prelude::*;

verus! {

/// An 8-bit RGB image: three bytes per pixel, rows from the top, no padding.
#[derive(Debug, Clone)]
pub struct Raster {
    pub width: u32,
    pub height: u32,
    pub data: Vec<u8>,
}

impl Raster {
    /// The buffer holds exactly `width * height` pixels.
    pub open spec fn wf(&self) -> bool {
        self.data@.len() == self.width as int * self.height as int * 3
    }

    /// Whether the buffer holds exactly `width * height` pixels; for
    /// callers that cannot prove it.
    pub fn is_well_formed(&self) -> (r: bool)
        ensures
            r == self.wf(),
    {
        assert(0 <= self.width * self.height <= 0xffff_ffff * 0xffff_ffff) by (nonlinear_arith)
            requires
                0 <= self.width <= 0xffff_ffff,
                0 <= self.height <= 0xffff_ffff,
        ;
        let pixels: u128 = (self.width as u128) * (self.height as u128);
        let need: u128 = pixels * 3;
        self.data.len() as u128 == need
    }

    /// The width, height and bytes as one plain value.
    pub open spec fn view(&self) -> (int, int, Seq<u8>) {
        (self.width as int, self.height as int, self.data@)
    }
}

/// Whether the bytes begin with the JPEG start-of-image marker.
pub open spec fn is_jpeg(data: Seq<u8>) -> bool {
    data.len() >= 2 && data[0] == 0xFF && data[1] == 0xD8
}

/// The image that `image::load_from_memory` decodes from these bytes, as
/// 8-bit RGB: width, height and pixel bytes. `None` where decoding fails.
pub uninterp spec fn decoded_rgb(data: Seq<u8>) -> Option<(int, int, Seq<u8>)>;

/// What `DynamicImage::thumbnail` makes of an 8-bit RGB image and a bounding
/// box: width, height and pixel bytes.
pub uninterp spec fn thumbnail_of(
    width: int,
    height: int,
    pixels: Seq<u8>,
    max_width: int,
    max_height: int,
) -> (int, int, Seq<u8>);

/// The JPEG file that `JpegEncoder::encode_image` writes for an 8-bit RGB
/// image at a quality.
pub uninterp spec fn jpeg_of(width: int, height: int, pixels: Seq<u8>, quality: int) -> Seq<u8>;

/// The largest side that a JPEG frame header can hold.
pub const JPEG_MAX_SIDE: u32 = 65535;

/// The bytes of a `width` by `height` image turned a quarter clockwise: the
/// result is `height` wide and `width` high.
pub open spec fn turned_quarter(width: int, height: int, pixels: Seq<u8>) -> Seq<u8> {
    Seq::new(
        (width * height * 3) as nat,
        |i: int|
            {
                let p = i / 3;
                let x = p % height;
                let y = p / height;
                pixels[((height - 1 - x) * width + y) * 3 + i % 3]
            },
    )
}

/// The bytes of a `width` by `height` image turned upside down.
pub open spec fn turned_half(width: int, height: int, pixels: Seq<u8>) -> Seq<u8> {
    Seq::new(
        (width * height * 3) as nat,
        |i: int|
            {
                let p = i / 3;
                let x = p % width;
                let y = p / width;
                pixels[((height - 1 - y) * width + (width - 1 - x)) * 3 + i % 3]
            },
    )
}

/// The bytes of a `width` by `height` image turned three quarters clockwise:
/// the result is `height` wide and `width` high.
pub open spec fn turned_three_quarters(width: int, height: int, pixels: Seq<u8>) -> Seq<u8> {
    Seq::new(
        (width * height * 3) as nat,
        |i: int|
            {
                let p = i / 3;
                let x = p % height;
                let y = p / height;
                pixels[(x * width + (width - 1 - y)) * 3 + i % 3]
            },
    )
}

/// `image::load_from_memory`, then `DynamicImage::into_rgb8` to hold the
/// result as plain bytes. Succeeds exactly where the decoder does; the image
/// is the one that [`decoded_rgb`] names. The error keeps the decoder's
/// message.
#[verifier::external_body]
pub(crate) fn decode_rgb(data: &[u8]) -> (r: Result<Raster, String>)
    ensures
        r is Ok == decoded_rgb(data@) is Some,
        r matches Ok(img) ==> img.wf() && decoded_rgb(data@) == Some(img.view()),
{
    match image::load_from_memory(data) {
        Ok(img) => {
            let rgb = img.into_rgb8();
            Ok(Raster { width: rgb.width(), height: rgb.height(), data: rgb.into_raw() })
        },
        Err(e) => Err(e.to_string()),
    }
}

/// `DynamicImage::thumbnail`: scales the image, aspect ratio kept, to fit the
/// box. The result is the one that [`thumbnail_of`] names; as the crate
/// documents, it fits within the box, and no side is zero.
#[verifier::external_body]
pub(crate) fn thumbnail(img: Raster, max_width: u32, max_height: u32) -> (r: Raster)
    requires
        img.wf(),
        1 <= max_width <= JPEG_MAX_SIDE,
        1 <= max_height <= JPEG_MAX_SIDE,
    ensures
        r.wf(),
        r.view() == thumbnail_of(
            img.width as int,
            img.height as int,
            img.data@,
            max_width as int,
            max_height as int,
        ),
        1 <= r.width <= max_width,
        1 <= r.height <= max_height,
{
    let src = image::RgbImage::from_raw(img.width, img.height, img.data).unwrap();
    let out = image::DynamicImage::ImageRgb8(src).thumbnail(max_width, max_height).into_rgb8();
    Raster { width: out.width(), height: out.height(), data: out.into_raw() }
}

/// `JpegEncoder::new_with_quality` and `encode_image` into a byte vector.
/// The encoder refuses a side of 0 or above 65535 and nothing else; the file
/// is the one that [`jpeg_of`] names and opens with the SOI marker `FF D8`.
#[verifier::external_body]
pub(crate) fn encode_jpeg(img: &Raster, quality: u8) -> (r: Result<Vec<u8>, String>)
    requires
        img.wf(),
    ensures
        r is Ok == (1 <= img.width <= JPEG_MAX_SIDE && 1 <= img.height <= JPEG_MAX_SIDE),
        r matches Ok(bytes) ==> {
            &&& bytes@ == jpeg_of(img.width as int, img.height as int, img.data@, quality as int)
            &&& bytes@.len() >= 2
            &&& bytes@[0] == 0xFF
            &&& bytes@[1] == 0xD8
        },
{
    let mut out = Vec::new();
    let pixels = img.data.as_slice();
    let view = image::ImageBuffer::<image::Rgb<u8>, &[u8]>::from_raw(img.width, img.height, pixels);
    let mut encoder = image::codecs::jpeg::JpegEncoder::new_with_quality(&mut out, quality);
    match encoder.encode_image(&view.unwrap()) {
        Ok(()) => Ok(out),
        Err(e) => Err(e.to_string()),
    }
}

/// `imageops::rotate90`: the image turned 90 degrees clockwise.
#[verifier::external_body]
pub(crate) fn rotate90(img: &Raster) -> (r: Raster)
    requires
        img.wf(),
    ensures
        r.wf(),
        r.width == img.height,
        r.height == img.width,
        r.data@ == turned_quarter(img.width as int, img.height as int, img.data@),
{
    let pixels = img.data.as_slice();
    let view = image::ImageBuffer::<image::Rgb<u8>, &[u8]>::from_raw(img.width, img.height, pixels);
    let out = image::imageops::rotate90(&view.unwrap());
    Raster { width: out.width(), height: out.height(), data: out.into_raw() }
}

/// `imageops::rotate180`: the image turned 180 degrees.
#[verifier::external_body]
pub(crate) fn rotate180(img: &Raster) -> (r: Raster)
    requires
        img.wf(),
    ensures
        r.wf(),
        r.width == img.width,
        r.height == img.height,
        r.data@ == turned_half(img.width as int, img.height as int, img.data@),
{
    let pixels = img.data.as_slice();
    let view = image::ImageBuffer::<image::Rgb<u8>, &[u8]>::from_raw(img.width, img.height, pixels);
    let out = image::imageops::rotate180(&view.unwrap());
    Raster { width: out.width(), height: out.height(), data: out.into_raw() }
}

/// `imageops::rotate270`: the image turned 270 degrees clockwise.
#[verifier::external_body]
pub(crate) fn rotate270(img: &Raster) -> (r: Raster)
    requires
        img.wf(),
    ensures
        r.wf(),
        r.width == img.height,
        r.height == img.width,
        r.data@ == turned_three_quarters(img.width as int, img.height as int, img.data@),
{
    let pixels = img.data.as_slice();
    let view = image::ImageBuffer::<image::Rgb<u8>, &[u8]>::from_raw(img.width, img.height, pixels);
    let out = image::imageops::rotate270(&view.unwrap());
    Raster { width: out.width(), height: out.height(), data: out.into_raw() }
}

/// The stride that the rows are read with: a reported stride below the row
/// length (0 where the decoder gives none) means tightly packed rows.
pub open spec fn effective_stride(row_bytes: int, stride: int) -> int {
    if stride > row_bytes {
        stride
    } else {
        row_bytes
    }
}

/// The bytes that `rows` rows of `row_bytes` bytes need in a buffer with
/// this stride.
pub open spec fn padded_len(row_bytes: int, rows: int, stride: int) -> int {
    if rows == 0 || row_bytes == 0 {
        0
    } else {
        (rows - 1) * effective_stride(row_bytes, stride) + row_bytes
    }
}

/// Where byte `i` of the packed rows lies in a buffer whose rows are `step`
/// bytes apart.
pub open spec fn padded_index(i: int, row_bytes: int, step: int) -> int {
    (i / row_bytes) * step + i % row_bytes
}

/// The first `row_bytes` bytes of each of `rows` rows that lie `stride`
/// bytes apart, one row after the other.
pub open spec fn packed_rows(data: Seq<u8>, row_bytes: int, rows: int, stride: int) -> Seq<u8> {
    Seq::new(
        (rows * row_bytes) as nat,
        |i: int| data[padded_index(i, row_bytes, effective_stride(row_bytes, stride))],
    )
}

/// Collapses padded rows to a tightly packed buffer. `None` exactly where
/// the buffer is too short for the rows, or their size does not fit the
/// machine.
pub fn pack_rows(data: &[u8], row_bytes: usize, rows: usize, stride: usize) -> (r: Option<Vec<u8>>)
    ensures
        r is Some == (padded_len(row_bytes as int, rows as int, stride as int) <= data@.len()),
        r matches Some(out) ==> out@ == packed_rows(
            data@,
            row_bytes as int,
            rows as int,
            stride as int,
        ),
{
    let step: usize = if stride > row_bytes {
        stride
    } else {
        row_bytes
    };
    let mut out: Vec<u8> = Vec::new();
    if rows == 0 || row_bytes == 0 {
        assert(rows * row_bytes == 0) by (nonlinear_arith)
            requires
                rows == 0 || row_bytes == 0,
        ;
        assert(out@ =~= packed_rows(data@, row_bytes as int, rows as int, stride as int));
        return Some(out);
    }
    assert(padded_len(row_bytes as int, rows as int, stride as int) == (rows - 1) * step
        + row_bytes);
    let have: usize = data.len();
    let lead = (rows - 1).checked_mul(step);
    if lead.is_none() {
        assert((rows - 1) * step > have);
        return None;
    }
    let total = lead.unwrap().checked_add(row_bytes);
    if total.is_none() {
        assert((rows - 1) * step + row_bytes > have);
        return None;
    }
    let need: usize = total.unwrap();
    if need > have {
        return None;
    }
    let mut row: usize = 0;
    while row < rows
        invariant
            row <= rows,
            row_bytes > 0,
            step >= row_bytes,
            step == effective_stride(row_bytes as int, stride as int),
            need == (rows - 1) * step + row_bytes,
            need <= have,
            have == data@.len(),
            out@.len() == row * row_bytes,
            forall|i: int|
                #![trigger out@[i]]
                0 <= i < out@.len() ==> out@[i] == data@[padded_index(
                    i,
                    row_bytes as int,
                    step as int,
                )],
        decreases rows - row,
    {
        let mut col: usize = 0;
        assert(0 <= row * step <= (rows - 1) * step) by (nonlinear_arith)
            requires
                0 <= row <= rows - 1,
                step >= 0,
        ;
        let base: usize = row * step;
        while col < row_bytes
            invariant
                col <= row_bytes,
                row < rows,
                row_bytes > 0,
                base == row * step,
                base + row_bytes <= have,
                have == data@.len(),
                out@.len() == row * row_bytes + col,
                forall|i: int|
                    #![trigger out@[i]]
                    0 <= i < out@.len() ==> out@[i] == data@[padded_index(
                        i,
                        row_bytes as int,
                        step as int,
                    )],
            decreases row_bytes - col,
        {
            let ghost at = out@.len() as int;
            let ghost before = out@;
            out.push(data[base + col]);
            proof {
                assert(at == row * row_bytes + col);
                assert(at / row_bytes as int == row && at % row_bytes as int == col) by {
                    vstd::arithmetic::div_mod::lemma_fundamental_div_mod_converse(
                        at,
                        row_bytes as int,
                        row as int,
                        col as int,
                    );
                }
                assert(padded_index(at, row_bytes as int, step as int) == base + col);
                assert forall|i: int|
                    #![trigger out@[i]]
                    0 <= i < out@.len() implies out@[i] == data@[padded_index(
                    i,
                    row_bytes as int,
                    step as int,
                )] by {
                    if i < at {
                        assert(out@[i] == before[i]);
                    }
                }
            }
            col = col + 1;
        }
        assert((row + 1) * row_bytes == row * row_bytes + row_bytes) by (nonlinear_arith);
        row = row + 1;
    }
    assert(rows * row_bytes == out@.len());
    assert(out@ =~= packed_rows(data@, row_bytes as int, rows as int, stride as int));
    Some(out)
}

/// RGBA bytes without their alpha channel: three bytes for each whole group
/// of four.
pub open spec fn without_alpha(rgba: Seq<u8>) -> Seq<u8> {
    Seq::new(((rgba.len() / 4) * 3) as nat, |i: int| rgba[(i / 3) * 4 + i % 3])
}

/// Discards the alpha channel of interleaved RGBA bytes.
pub fn drop_alpha(rgba: &[u8]) -> (r: Vec<u8>)
    ensures
        r@ == without_alpha(rgba@),
{
    let have: usize = rgba.len();
    let pixels: usize = have / 4;
    let mut out: Vec<u8> = Vec::new();
    let mut p: usize = 0;
    while p < pixels
        invariant
            p <= pixels,
            have == rgba@.len(),
            pixels == have / 4,
            out@.len() == p * 3,
            forall|i: int| 0 <= i < out@.len() ==> out@[i] == rgba@[(i / 3) * 4 + i % 3],
        decreases pixels - p,
    {
        assert(p * 4 + 3 < have);
        out.push(rgba[p * 4]);
        out.push(rgba[p * 4 + 1]);
        out.push(rgba[p * 4 + 2]);
        p = p + 1;
    }
    assert(out@ =~= without_alpha(rgba@));
    out
}

} // verus!
