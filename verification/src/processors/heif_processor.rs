//! The HEIF processor: what it supports, when the decoder is asked to scale,
//! and how its RGBA surface becomes a JPEG. Decoding is the caller's work.

use vstd::prelude::*;
use crate::processors::image_processor::{exif_entries, extract_exif, with_exif_fields};
use crate::processors::processor_trait::{
    blank_metadata, lowercase_extension, MediaMetadata, MediaMetadataView, MediaProcessor,
    MediaType, ProcessingError,
};
use crate::processors::raster::{
    drop_alpha, encode_jpeg, is_jpeg, jpeg_of, pack_rows, packed_rows, padded_len, without_alpha,
    Raster, JPEG_MAX_SIDE,
};
use crate::processors::video_processor::{scale_side, scaled_side, side_to_i32, stored_side};
use crate::text::str_eq;

verus! {

/// HEIF/HEIC image processor.
#[derive(Debug, Clone, Copy, PartialEq, Eq, Structural)]
pub struct HeifImageProcessor;

/// The lower-cased extensions that the HEIF processor takes.
pub open spec fn heif_extensions() -> Set<Seq<char>> {
    set!["heic"@, "heif"@]
}

/// The size that the decoder is asked to scale an image to: none for the
/// full size (a target of 0), for an empty image, and where neither side
/// exceeds the target; otherwise the target as width and the height that
/// keeps the aspect ratio, rounded down.
pub open spec fn heif_scale_of(width: u32, height: u32, target: u32) -> Option<(u32, u32)> {
    if target == 0 || width == 0 || height == 0 {
        None
    } else if width > target || height > target {
        Some((target, scaled_side(target as int, height as int, width as int) as u32))
    } else {
        None
    }
}

/// The metadata of a HEIF image of the given size: its dimensions, the MIME
/// type `image/heic`, and what the EXIF fields in the file tell.
pub open spec fn heif_metadata_of(width: u32, height: u32, data: Seq<u8>) -> MediaMetadataView {
    with_exif_fields(
        MediaMetadataView {
            width: Some(stored_side(width)),
            height: Some(stored_side(height)),
            mime_type: Some("image/heic"@),
            ..blank_metadata()
        },
        exif_entries(data),
        exif_entries(data).len() as int,
    )
}

/// The thumbnail of a decoded RGBA surface: rows collapsed, alpha dropped,
/// encoded as JPEG. `None` where the buffer is too short for the surface or
/// a side is 0 or above 65535.
pub open spec fn heif_thumbnail_of(
    data: Seq<u8>,
    width: u32,
    height: u32,
    stride: int,
    quality: u8,
) -> Option<Seq<u8>> {
    if width as int * 4 <= usize::MAX && padded_len(width as int * 4, height as int, stride)
        <= data.len() && 1 <= width <= JPEG_MAX_SIDE && 1 <= height <= JPEG_MAX_SIDE {
        Some(
            jpeg_of(
                width as int,
                height as int,
                without_alpha(packed_rows(data, width as int * 4, height as int, stride)),
                quality as int,
            ),
        )
    } else {
        None
    }
}

impl HeifImageProcessor {
    /// The HEIF processor.
    pub fn new() -> (r: HeifImageProcessor) {
        HeifImageProcessor
    }

    /// The metadata of a HEIF file whose primary image has the given size;
    /// `data` are the bytes of the file, read for EXIF fields.
    pub fn process(&self, width: u32, height: u32, data: &[u8]) -> (r: MediaMetadata)
        ensures
            r@ == heif_metadata_of(width, height, data@),
    {
        let mut metadata = MediaMetadata::blank();
        metadata.width = Some(side_to_i32(width));
        metadata.height = Some(side_to_i32(height));
        metadata.mime_type = Some(String::from_str("image/heic"));
        extract_exif(data, &mut metadata);
        metadata
    }

    /// Whether the decoder is asked to scale, and to what size.
    pub fn scale_plan(&self, width: u32, height: u32, target_width: u32) -> (r: Option<(u32, u32)>)
        ensures
            r == heif_scale_of(width, height, target_width),
    {
        if target_width == 0 || width == 0 || height == 0 {
            None
        } else if width > target_width || height > target_width {
            Some((target_width, scale_side(target_width, height, width)))
        } else {
            None
        }
    }

    /// Generate a thumbnail from the interleaved RGBA surface that the
    /// decoder gave: padded rows are collapsed to a tightly packed buffer,
    /// the alpha channel is discarded, the rest is encoded as JPEG. What
    /// comes out opens with the JPEG marker and shows an image of `width`
    /// by `height` pixels.
    pub fn generate_thumbnail(
        &self,
        data: &[u8],
        width: u32,
        height: u32,
        stride: usize,
        quality: u8,
    ) -> (r: Result<Option<Vec<u8>>, ProcessingError>)
        ensures
            match r {
                Ok(Some(bytes)) => heif_thumbnail_of(data@, width, height, stride as int, quality)
                    == Some(bytes@),
                Ok(None) => false,
                Err(e) => e is Processing && heif_thumbnail_of(
                    data@,
                    width,
                    height,
                    stride as int,
                    quality,
                ) is None,
            },
            r matches Ok(Some(bytes)) ==> is_jpeg(bytes@) && 1 <= width <= JPEG_MAX_SIDE && 1
                <= height <= JPEG_MAX_SIDE,
    {
        let row_bytes = (width as usize).checked_mul(4);
        if row_bytes.is_none() {
            return Err(
                ProcessingError::Processing(
                    String::from_str("Failed to create image from HEIC data"),
                ),
            );
        }
        let packed = match pack_rows(data, row_bytes.unwrap(), height as usize, stride) {
            Some(p) => p,
            None => {
                return Err(
                    ProcessingError::Processing(
                        String::from_str("Failed to create image from HEIC data"),
                    ),
                );
            },
        };
        let rgb = drop_alpha(packed.as_slice());
        assert(packed@.len() == (width as int * height as int) * 4) by (nonlinear_arith)
            requires
                packed@.len() == height as int * (width as int * 4),
        ;
        let image = Raster { width, height, data: rgb };
        match encode_jpeg(&image, quality) {
            Ok(bytes) => Ok(Some(bytes)),
            Err(e) => Err(ProcessingError::Processing(e)),
        }
    }
}

impl Default for HeifImageProcessor {
    fn default() -> (r: HeifImageProcessor) {
        HeifImageProcessor
    }
}

impl MediaProcessor for HeifImageProcessor {
    open spec fn extensions(&self) -> Set<Seq<char>> {
        heif_extensions()
    }

    open spec fn priority_spec(&self) -> int {
        100
    }

    open spec fn media_type_spec(&self) -> MediaType {
        MediaType::Heif
    }

    fn supports(&self, path: &str) -> (r: bool) {
        match lowercase_extension(path) {
            Some(e) => str_eq(e.as_str(), "heic") || str_eq(e.as_str(), "heif"),
            None => false,
        }
    }

    fn priority(&self) -> (r: i32) {
        100
    }

    fn media_type(&self) -> (r: MediaType) {
        MediaType::Heif
    }
}

} // verus!
