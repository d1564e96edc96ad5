//! Thumbnail helpers on decoded images.

use vstd::prelude::*;
use crate::processors::raster::Raster;

verus! {

/// The bytes of the `width` by `height` region of an image `image_width`
/// wide whose top left corner lies at `(x, y)`.
pub open spec fn cropped(pixels: Seq<u8>, image_width: int, x: int, y: int, width: int, height: int) -> Seq<
    u8,
> {
    Seq::new(
        (width * height * 3) as nat,
        |i: int| pixels[(((i / 3) / width + y) * image_width + (i / 3) % width + x) * 3 + i % 3],
    )
}

/// `DynamicImage::crop_imm`: the cut-out of the image delimited by the
/// rectangle, which lies within the image.
#[verifier::external_body]
pub(crate) fn crop(img: &Raster, x: u32, y: u32, width: u32, height: u32) -> (r: Raster)
    requires
        img.wf(),
        x + width <= img.width,
        y + height <= img.height,
    ensures
        r.wf(),
        r.width == width,
        r.height == height,
        r.data@ == cropped(img.data@, img.width as int, x as int, y as int, width as int, height as int),
{
    let src = image::RgbImage::from_raw(img.width, img.height, img.data.clone()).unwrap();
    let out = image::DynamicImage::ImageRgb8(src).crop_imm(x, y, width, height).into_rgb8();
    Raster { width: out.width(), height: out.height(), data: out.into_raw() }
}

/// The side of the largest square that fits an image.
pub open spec fn square_side(width: u32, height: u32) -> u32 {
    if width <= height {
        width
    } else {
        height
    }
}

/// Crop an image to a square: the largest one that fits, centred, the odd
/// pixel going to the right and to the bottom.
pub fn crop_to_square(image: &Raster) -> (r: Raster)
    requires
        image.wf(),
    ensures
        r.wf(),
        r.width == square_side(image.width, image.height),
        r.height == square_side(image.width, image.height),
        r.data@ == cropped(
            image.data@,
            image.width as int,
            (image.width - square_side(image.width, image.height)) / 2,
            (image.height - square_side(image.width, image.height)) / 2,
            square_side(image.width, image.height) as int,
            square_side(image.width, image.height) as int,
        ),
{
    let side: u32 = if image.width <= image.height {
        image.width
    } else {
        image.height
    };
    let x: u32 = (image.width - side) / 2;
    let y: u32 = (image.height - side) / 2;
    crop(image, x, y, side, side)
}

} // verus!
