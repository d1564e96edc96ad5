//! The standard image processor, the EXIF tags that the catalog knows, and
//! how EXIF fields become metadata.

use vstd::prelude::*;
use crate::extraction::time::{parse_instant, parsed_instant};
use crate::processors::processor_trait::{
    blank_metadata, lower_extension, lowercase_extension, MediaMetadata, MediaMetadataView,
    MediaProcessor, MediaType, ProcessingError,
};
use crate::processors::raster::{
    decode_rgb, decoded_rgb, encode_jpeg, is_jpeg, jpeg_of, thumbnail, thumbnail_of,
    JPEG_MAX_SIDE,
};
use crate::processors::video_processor::{side_to_i32, stored_side};
use crate::text::{chars_of, parse_u64, parsed_u64, str_eq, string_of, trim, trimmed};

verus! {

/// EXIF tags that the catalog knows by name.
#[derive(Debug, Clone, Copy, PartialEq, Eq, Hash, Structural)]
pub enum ExifTag {
    /// Exif tag 36867.
    DateTimeOriginal,
    /// Exif tag 36868.
    DateTimeDigitized,
    /// Tiff tag 306.
    DateTime,
    /// Exif tag 36881.
    OffsetTimeOriginal,
    /// Exif tag 36880.
    OffsetTime,
    /// Tiff tag 271.
    Make,
    /// Tiff tag 272.
    Model,
    /// Exif tag 34973.
    LensModel,
    /// Exif tag 33434.
    ExposureTime,
    /// Exif tag 33437.
    FNumber,
    /// Exif tag 34855.
    ISOSpeedRatings,
    /// Exif tag 37386.
    FocalLength,
    /// Exif tag 34850.
    ExposureProgram,
    /// Exif tag 37379.
    ExposureBiasValue,
    /// Exif tag 41986.
    ExposureMode,
    /// Exif tag 37383.
    MeteringMode,
    /// Exif tag 41987.
    WhiteBalance,
    /// Exif tag 37385.
    Flash,
    /// Exif tag 37381.
    FocalLengthIn35mmFilm,
    /// Gps tag 1.
    GPSLatitudeRef,
    /// Gps tag 2.
    GPSLatitude,
    /// Gps tag 3.
    GPSLongitudeRef,
    /// Gps tag 4.
    GPSLongitude,
    /// Gps tag 6.
    GPSAltitude,
    /// Gps tag 7.
    GPSTimeStamp,
    /// Gps tag 29.
    GPSDateStamp,
    /// Tiff tag 305.
    Software,
    /// Exif tag 37520.
    SerialNumber,
}

/// The tag that a context (`Tiff`, `Exif`, `Gps`, `Interop`) and a tag
/// number name, if the catalog knows it.
pub open spec fn tag_of(context: Seq<char>, number: u16) -> Option<ExifTag> {
    if context == "Exif"@ && number == 36867 {
        Some(ExifTag::DateTimeOriginal)
    } else if context == "Exif"@ && number == 36868 {
        Some(ExifTag::DateTimeDigitized)
    } else if context == "Tiff"@ && number == 306 {
        Some(ExifTag::DateTime)
    } else if context == "Exif"@ && number == 36881 {
        Some(ExifTag::OffsetTimeOriginal)
    } else if context == "Exif"@ && number == 36880 {
        Some(ExifTag::OffsetTime)
    } else if context == "Tiff"@ && number == 271 {
        Some(ExifTag::Make)
    } else if context == "Tiff"@ && number == 272 {
        Some(ExifTag::Model)
    } else if context == "Exif"@ && number == 34973 {
        Some(ExifTag::LensModel)
    } else if context == "Exif"@ && number == 33434 {
        Some(ExifTag::ExposureTime)
    } else if context == "Exif"@ && number == 33437 {
        Some(ExifTag::FNumber)
    } else if context == "Exif"@ && number == 34855 {
        Some(ExifTag::ISOSpeedRatings)
    } else if context == "Exif"@ && number == 37386 {
        Some(ExifTag::FocalLength)
    } else if context == "Exif"@ && number == 34850 {
        Some(ExifTag::ExposureProgram)
    } else if context == "Exif"@ && number == 37379 {
        Some(ExifTag::ExposureBiasValue)
    } else if context == "Exif"@ && number == 41986 {
        Some(ExifTag::ExposureMode)
    } else if context == "Exif"@ && number == 37383 {
        Some(ExifTag::MeteringMode)
    } else if context == "Exif"@ && number == 41987 {
        Some(ExifTag::WhiteBalance)
    } else if context == "Exif"@ && number == 37385 {
        Some(ExifTag::Flash)
    } else if context == "Exif"@ && number == 37381 {
        Some(ExifTag::FocalLengthIn35mmFilm)
    } else if context == "Gps"@ && number == 1 {
        Some(ExifTag::GPSLatitudeRef)
    } else if context == "Gps"@ && number == 2 {
        Some(ExifTag::GPSLatitude)
    } else if context == "Gps"@ && number == 3 {
        Some(ExifTag::GPSLongitudeRef)
    } else if context == "Gps"@ && number == 4 {
        Some(ExifTag::GPSLongitude)
    } else if context == "Gps"@ && number == 6 {
        Some(ExifTag::GPSAltitude)
    } else if context == "Gps"@ && number == 7 {
        Some(ExifTag::GPSTimeStamp)
    } else if context == "Gps"@ && number == 29 {
        Some(ExifTag::GPSDateStamp)
    } else if context == "Tiff"@ && number == 305 {
        Some(ExifTag::Software)
    } else if context == "Exif"@ && number == 37520 {
        Some(ExifTag::SerialNumber)
    } else {
        None
    }
}

impl ExifTag {
    /// The description of the field.
    pub open spec fn label(self) -> Seq<char> {
        match self {
            ExifTag::DateTimeOriginal => "拍摄时间"@,
            ExifTag::DateTimeDigitized => "数字化时间"@,
            ExifTag::DateTime => "文件修改时间"@,
            ExifTag::OffsetTimeOriginal => "拍摄时区"@,
            ExifTag::OffsetTime => "文件时区"@,
            ExifTag::Make => "相机厂商"@,
            ExifTag::Model => "相机型号"@,
            ExifTag::LensModel => "镜头型号"@,
            ExifTag::ExposureTime => "快门速度"@,
            ExifTag::FNumber => "光圈值"@,
            ExifTag::ISOSpeedRatings => "ISO感光度"@,
            ExifTag::FocalLength => "焦距"@,
            ExifTag::ExposureProgram => "曝光程序"@,
            ExifTag::ExposureBiasValue => "曝光补偿"@,
            ExifTag::ExposureMode => "曝光模式"@,
            ExifTag::MeteringMode => "测光模式"@,
            ExifTag::WhiteBalance => "白平衡"@,
            ExifTag::Flash => "闪光灯"@,
            ExifTag::FocalLengthIn35mmFilm => "35mm等效焦距"@,
            ExifTag::GPSLatitudeRef => "纬度方向"@,
            ExifTag::GPSLatitude => "纬度"@,
            ExifTag::GPSLongitudeRef => "经度方向"@,
            ExifTag::GPSLongitude => "经度"@,
            ExifTag::GPSAltitude => "海拔"@,
            ExifTag::GPSTimeStamp => "GPS时间"@,
            ExifTag::GPSDateStamp => "GPS日期"@,
            ExifTag::Software => "软件版本"@,
            ExifTag::SerialNumber => "相机序列号"@,
        }
    }

    /// The tag for a raw pair of context and number.
    pub fn from_raw(context: &str, number: u16) -> (r: Option<ExifTag>)
        ensures
            r == tag_of(context@, number),
    {
        let tiff = str_eq(context, "Tiff");
        let exif = str_eq(context, "Exif");
        let gps = str_eq(context, "Gps");
        if exif && number == 36867 {
            Some(ExifTag::DateTimeOriginal)
        } else if exif && number == 36868 {
            Some(ExifTag::DateTimeDigitized)
        } else if tiff && number == 306 {
            Some(ExifTag::DateTime)
        } else if exif && number == 36881 {
            Some(ExifTag::OffsetTimeOriginal)
        } else if exif && number == 36880 {
            Some(ExifTag::OffsetTime)
        } else if tiff && number == 271 {
            Some(ExifTag::Make)
        } else if tiff && number == 272 {
            Some(ExifTag::Model)
        } else if exif && number == 34973 {
            Some(ExifTag::LensModel)
        } else if exif && number == 33434 {
            Some(ExifTag::ExposureTime)
        } else if exif && number == 33437 {
            Some(ExifTag::FNumber)
        } else if exif && number == 34855 {
            Some(ExifTag::ISOSpeedRatings)
        } else if exif && number == 37386 {
            Some(ExifTag::FocalLength)
        } else if exif && number == 34850 {
            Some(ExifTag::ExposureProgram)
        } else if exif && number == 37379 {
            Some(ExifTag::ExposureBiasValue)
        } else if exif && number == 41986 {
            Some(ExifTag::ExposureMode)
        } else if exif && number == 37383 {
            Some(ExifTag::MeteringMode)
        } else if exif && number == 41987 {
            Some(ExifTag::WhiteBalance)
        } else if exif && number == 37385 {
            Some(ExifTag::Flash)
        } else if exif && number == 37381 {
            Some(ExifTag::FocalLengthIn35mmFilm)
        } else if gps && number == 1 {
            Some(ExifTag::GPSLatitudeRef)
        } else if gps && number == 2 {
            Some(ExifTag::GPSLatitude)
        } else if gps && number == 3 {
            Some(ExifTag::GPSLongitudeRef)
        } else if gps && number == 4 {
            Some(ExifTag::GPSLongitude)
        } else if gps && number == 6 {
            Some(ExifTag::GPSAltitude)
        } else if gps && number == 7 {
            Some(ExifTag::GPSTimeStamp)
        } else if gps && number == 29 {
            Some(ExifTag::GPSDateStamp)
        } else if tiff && number == 305 {
            Some(ExifTag::Software)
        } else if exif && number == 37520 {
            Some(ExifTag::SerialNumber)
        } else {
            None
        }
    }

    /// The description of the field.
    pub fn description(&self) -> (r: &'static str)
        ensures
            r@ == self.label(),
    {
        match self {
            ExifTag::DateTimeOriginal => "拍摄时间",
            ExifTag::DateTimeDigitized => "数字化时间",
            ExifTag::DateTime => "文件修改时间",
            ExifTag::OffsetTimeOriginal => "拍摄时区",
            ExifTag::OffsetTime => "文件时区",
            ExifTag::Make => "相机厂商",
            ExifTag::Model => "相机型号",
            ExifTag::LensModel => "镜头型号",
            ExifTag::ExposureTime => "快门速度",
            ExifTag::FNumber => "光圈值",
            ExifTag::ISOSpeedRatings => "ISO感光度",
            ExifTag::FocalLength => "焦距",
            ExifTag::ExposureProgram => "曝光程序",
            ExifTag::ExposureBiasValue => "曝光补偿",
            ExifTag::ExposureMode => "曝光模式",
            ExifTag::MeteringMode => "测光模式",
            ExifTag::WhiteBalance => "白平衡",
            ExifTag::Flash => "闪光灯",
            ExifTag::FocalLengthIn35mmFilm => "35mm等效焦距",
            ExifTag::GPSLatitudeRef => "纬度方向",
            ExifTag::GPSLatitude => "纬度",
            ExifTag::GPSLongitudeRef => "经度方向",
            ExifTag::GPSLongitude => "经度",
            ExifTag::GPSAltitude => "海拔",
            ExifTag::GPSTimeStamp => "GPS时间",
            ExifTag::GPSDateStamp => "GPS日期",
            ExifTag::Software => "软件版本",
            ExifTag::SerialNumber => "相机序列号",
        }
    }
}

/// One EXIF field as the reader shows it.
#[derive(Debug, Clone)]
pub struct ExifEntry {
    /// The context of the tag: `Tiff`, `Exif`, `Gps` or `Interop`.
    pub context: String,
    /// The tag number.
    pub number: u16,
    /// The value as the reader displays it for this tag.
    pub text: String,
}

/// [`ExifEntry`] with its texts as character sequences.
pub struct ExifEntryView {
    pub context: Seq<char>,
    pub number: u16,
    pub text: Seq<char>,
}

impl View for ExifEntry {
    type V = ExifEntryView;

    open spec fn view(&self) -> ExifEntryView {
        ExifEntryView { context: self.context@, number: self.number, text: self.text@ }
    }
}

/// The EXIF fields that `exif::Reader::read_from_container` finds in the
/// bytes of an image file, in the order of `Exif::fields`: for each the
/// context of its tag, the tag number, and the text of `Value::display_as`.
/// `None` where the reader refuses the bytes.
pub uninterp spec fn exif_fields(data: Seq<u8>) -> Option<Seq<(Seq<char>, u16, Seq<char>)>>;

/// `exif::Reader::read_from_container` on the bytes of a file, then
/// `Exif::fields`; each field is handed out as context, number and displayed
/// value. The fields are the ones that [`exif_fields`] names.
#[verifier::external_body]
pub(crate) fn read_exif(data: &[u8]) -> (r: Option<Vec<ExifEntry>>)
    ensures
        r is Some == exif_fields(data@) is Some,
        r matches Some(v) ==> v@.len() == exif_fields(data@).unwrap().len() && forall|i: int|
            0 <= i < v@.len() ==> (v@[i]@.context, v@[i]@.number, v@[i]@.text) == exif_fields(
                data@,
            ).unwrap()[i],
{
    let found = exif::Reader::new().read_from_container(&mut std::io::Cursor::new(data)).ok()?;
    Some(
        found.fields().map(
            |f| ExifEntry {
                context: format!("{:?}", f.tag.context()),
                number: f.tag.number(),
                text: f.value.display_as(f.tag).to_string(),
            },
        ).collect(),
    )
}

/// A displayed EXIF value without the quotes that the reader puts round
/// texts: a trimmed value of two or more characters that begins and ends
/// with `"`, or begins and ends with `'`, loses both; any other is kept.
pub open spec fn unquoted(t: Seq<char>) -> Seq<char> {
    if t.len() >= 2 && ((t[0] == '"' && t.last() == '"') || (t[0] == '\'' && t.last() == '\'')) {
        t.subrange(1, t.len() - 1)
    } else {
        t
    }
}

/// Removes surrounding quotes from a trimmed value.
pub fn strip_quotes(t: &str) -> (r: String)
    ensures
        r@ == unquoted(t@),
{
    let v = chars_of(t);
    let n = v.len();
    if n >= 2 && ((v[0] == '"' && v[n - 1] == '"') || (v[0] == '\'' && v[n - 1] == '\'')) {
        string_of(vstd::slice::slice_subrange(v.as_slice(), 1, n - 1))
    } else {
        String::from_str(t)
    }
}

/// Clean EXIF string value: trims it and removes the quotes added by the
/// reader.
pub fn clean_exif_string(s: &str) -> (r: String)
    ensures
        r@ == unquoted(trimmed(s@)),
{
    strip_quotes(trim(s))
}

/// The ISO value that a cleaned text holds: a positive number within the
/// range of `i32`.
pub open spec fn iso_of(value: Seq<char>) -> Option<i32> {
    match parsed_u64(value) {
        Some(v) => if 0 < v <= i32::MAX {
            Some(v as i32)
        } else {
            None
        },
        None => None,
    }
}

/// The metadata after one EXIF field was taken in. `value` is the cleaned
/// text of the field.
///
/// The capture time is the original time where the file has one, else the
/// digitized time; the offset of the original time wins over the offset of
/// the file time; the first readable ISO value is kept; make, model, lens,
/// aperture, exposure time and focal length take every non-empty value.
pub open spec fn with_exif_field(
    m: MediaMetadataView,
    context: Seq<char>,
    number: u16,
    value: Seq<char>,
) -> MediaMetadataView {
    let in_exif = context == "Exif"@;
    let in_tiff = context == "Tiff"@;
    if in_exif && (number == 0x9003 || number == 0x9004) {
        match parsed_instant(value, "%Y-%m-%d %H:%M:%S"@) {
            Some(t) => if m.exif_timestamp is None || number == 0x9003 {
                MediaMetadataView { exif_timestamp: Some(t as i64), ..m }
            } else {
                m
            },
            None => m,
        }
    } else if in_exif && number == 0x9011 {
        if value.len() > 0 {
            MediaMetadataView { exif_timezone_offset: Some(value), ..m }
        } else {
            m
        }
    } else if in_exif && number == 0x9010 {
        if m.exif_timezone_offset is None && value.len() > 0 {
            MediaMetadataView { exif_timezone_offset: Some(value), ..m }
        } else {
            m
        }
    } else if in_tiff && number == 0x10f {
        if value.len() > 0 {
            MediaMetadataView { camera_make: Some(value), ..m }
        } else {
            m
        }
    } else if in_tiff && number == 0x110 {
        if value.len() > 0 {
            MediaMetadataView { camera_model: Some(value), ..m }
        } else {
            m
        }
    } else if in_exif && number == 0xa434 {
        if value.len() > 0 {
            MediaMetadataView { lens_model: Some(value), ..m }
        } else {
            m
        }
    } else if in_exif && number == 0x829d {
        if value.len() > 0 {
            MediaMetadataView { aperture: Some(value), ..m }
        } else {
            m
        }
    } else if in_exif && number == 0x829a {
        if value.len() > 0 {
            MediaMetadataView { exposure_time: Some(value), ..m }
        } else {
            m
        }
    } else if in_exif && (number == 0x8833 || number == 0x8827) {
        if m.iso is None && iso_of(value) is Some {
            MediaMetadataView { iso: iso_of(value), ..m }
        } else {
            m
        }
    } else if in_exif && number == 0x920a {
        if value.len() > 0 {
            MediaMetadataView { focal_length: Some(value), ..m }
        } else {
            m
        }
    } else {
        m
    }
}

/// The metadata after the first `n` fields were taken in, in order.
pub open spec fn with_exif_fields(m: MediaMetadataView, fields: Seq<ExifEntryView>, n: int) -> MediaMetadataView
    decreases n,
{
    if n <= 0 {
        m
    } else {
        let f = fields[n - 1];
        with_exif_field(
            with_exif_fields(m, fields, n - 1),
            f.context,
            f.number,
            unquoted(trimmed(f.text)),
        )
    }
}

/// Takes one EXIF field into the metadata.
pub fn apply_exif_field(metadata: &mut MediaMetadata, context: &str, number: u16, value: String)
    ensures
        final(metadata)@ == with_exif_field(old(metadata)@, context@, number, value@),
{
    let in_exif = str_eq(context, "Exif");
    let in_tiff = str_eq(context, "Tiff");
    let filled = value.as_str().unicode_len() > 0;
    if in_exif && (number == 0x9003 || number == 0x9004) {
        match parse_instant(value.as_str(), "%Y-%m-%d %H:%M:%S") {
            Some(t) => {
                if metadata.exif_timestamp.is_none() || number == 0x9003 {
                    metadata.exif_timestamp = Some(t);
                }
            },
            None => {},
        }
    } else if in_exif && number == 0x9011 {
        if filled {
            metadata.exif_timezone_offset = Some(value);
        }
    } else if in_exif && number == 0x9010 {
        if metadata.exif_timezone_offset.is_none() && filled {
            metadata.exif_timezone_offset = Some(value);
        }
    } else if in_tiff && number == 0x10f {
        if filled {
            metadata.camera_make = Some(value);
        }
    } else if in_tiff && number == 0x110 {
        if filled {
            metadata.camera_model = Some(value);
        }
    } else if in_exif && number == 0xa434 {
        if filled {
            metadata.lens_model = Some(value);
        }
    } else if in_exif && number == 0x829d {
        if filled {
            metadata.aperture = Some(value);
        }
    } else if in_exif && number == 0x829a {
        if filled {
            metadata.exposure_time = Some(value);
        }
    } else if in_exif && (number == 0x8833 || number == 0x8827) {
        if metadata.iso.is_none() {
            match parse_u64(value.as_str()) {
                Some(v) => {
                    if 0 < v && v <= 2147483647 {
                        metadata.iso = Some(v as i32);
                    }
                },
                None => {},
            }
        }
    } else if in_exif && number == 0x920a {
        if filled {
            metadata.focal_length = Some(value);
        }
    }
}

/// Takes EXIF fields into the metadata, in order.
pub fn apply_exif_fields(metadata: &mut MediaMetadata, fields: &Vec<ExifEntry>)
    ensures
        final(metadata)@ == with_exif_fields(
            old(metadata)@,
            fields@.map_values(|f: ExifEntry| f@),
            fields@.len() as int,
        ),
{
    let ghost views = fields@.map_values(|f: ExifEntry| f@);
    let mut i: usize = 0;
    while i < fields.len()
        invariant
            i <= fields.len(),
            views == fields@.map_values(|f: ExifEntry| f@),
            metadata@ == with_exif_fields(old(metadata)@, views, i as int),
        decreases fields.len() - i,
    {
        let f = &fields[i];
        assert(views[i as int] == f@);
        let value = clean_exif_string(f.text.as_str());
        apply_exif_field(metadata, f.context.as_str(), f.number, value);
        i = i + 1;
    }
}

/// The fields that the reader finds in a file, as entries; none where it
/// refuses the file.
pub open spec fn exif_entries(data: Seq<u8>) -> Seq<ExifEntryView> {
    match exif_fields(data) {
        Some(fields) => fields.map_values(
            |f: (Seq<char>, u16, Seq<char>)| ExifEntryView { context: f.0, number: f.1, text: f.2 },
        ),
        None => Seq::empty(),
    }
}

/// Extract EXIF metadata from the bytes of an image file (JPEG, HEIC and
/// others) into the metadata. A file without readable EXIF data changes
/// nothing.
pub fn extract_exif(data: &[u8], metadata: &mut MediaMetadata)
    ensures
        final(metadata)@ == with_exif_fields(
            old(metadata)@,
            exif_entries(data@),
            exif_entries(data@).len() as int,
        ),
{
    match read_exif(data) {
        Some(fields) => {
            assert(fields@.map_values(|f: ExifEntry| f@) =~= exif_entries(data@));
            apply_exif_fields(metadata, &fields);
        },
        None => {},
    }
}

/// The lower-cased extensions that the standard image processor takes.
pub open spec fn standard_extensions() -> Set<Seq<char>> {
    set!["jpg"@, "jpeg"@, "png"@, "gif"@, "bmp"@, "webp"@, "tiff"@]
}

/// The MIME type that goes with a lower-cased image extension.
pub open spec fn image_mime_of(ext: Seq<char>) -> Seq<char> {
    if ext == "jpg"@ || ext == "jpeg"@ {
        "image/jpeg"@
    } else if ext == "png"@ {
        "image/png"@
    } else if ext == "gif"@ {
        "image/gif"@
    } else if ext == "webp"@ {
        "image/webp"@
    } else if ext == "tiff"@ {
        "image/tiff"@
    } else if ext == "bmp"@ {
        "image/bmp"@
    } else {
        "image/jpeg"@
    }
}

/// The MIME type for a lower-cased image extension; `image/jpeg` for any
/// other.
pub fn image_mime_type(ext: &str) -> (r: String)
    ensures
        r@ == image_mime_of(ext@),
{
    if str_eq(ext, "jpg") || str_eq(ext, "jpeg") {
        String::from_str("image/jpeg")
    } else if str_eq(ext, "png") {
        String::from_str("image/png")
    } else if str_eq(ext, "gif") {
        String::from_str("image/gif")
    } else if str_eq(ext, "webp") {
        String::from_str("image/webp")
    } else if str_eq(ext, "tiff") {
        String::from_str("image/tiff")
    } else if str_eq(ext, "bmp") {
        String::from_str("image/bmp")
    } else {
        String::from_str("image/jpeg")
    }
}

/// Standard image processor for JPEG, PNG, GIF, WebP, TIFF, BMP.
#[derive(Debug, Clone, Copy, PartialEq, Eq, Structural)]
pub struct StandardImageProcessor;

impl Default for StandardImageProcessor {
    fn default() -> (r: StandardImageProcessor) {
        StandardImageProcessor
    }
}

/// The metadata of a standard image: its dimensions, what its EXIF fields
/// tell, and the MIME type by extension.
pub open spec fn image_metadata_of(path: Seq<char>, data: Seq<u8>) -> Option<MediaMetadataView> {
    match decoded_rgb(data) {
        Some(img) => {
            let sized = MediaMetadataView {
                width: Some(stored_side(img.0 as u32)),
                height: Some(stored_side(img.1 as u32)),
                ..blank_metadata()
            };
            let read = with_exif_fields(sized, exif_entries(data), exif_entries(data).len() as int);
            Some(
                MediaMetadataView {
                    mime_type: match lower_extension(path) {
                        Some(e) => Some(image_mime_of(e)),
                        None => read.mime_type,
                    },
                    ..read
                },
            )
        },
        None => None,
    }
}

/// The thumbnail of a standard image: the decoded image, scaled to fit a
/// square of `target` pixels unless `target` is 0, encoded as JPEG. `None`
/// where the image cannot be decoded, the target is beyond what a JPEG can
/// hold, or the encoder refuses the size.
pub open spec fn image_thumbnail_of(data: Seq<u8>, target: u32, quality: u8) -> Option<Seq<u8>> {
    match decoded_rgb(data) {
        Some(img) => if target == 0 {
            if 1 <= img.0 <= JPEG_MAX_SIDE && 1 <= img.1 <= JPEG_MAX_SIDE {
                Some(jpeg_of(img.0, img.1, img.2, quality as int))
            } else {
                None
            }
        } else if target <= JPEG_MAX_SIDE {
            let small = thumbnail_of(img.0, img.1, img.2, target as int, target as int);
            Some(jpeg_of(small.0, small.1, small.2, quality as int))
        } else {
            None
        },
        None => None,
    }
}

/// The sides of the image that the thumbnail of a standard image shows:
/// those of the decoded image for a target of 0, and those of the scaled
/// image otherwise.
pub open spec fn image_thumbnail_size(data: Seq<u8>, target: u32) -> Option<(int, int)> {
    match decoded_rgb(data) {
        Some(img) => if target == 0 {
            Some((img.0, img.1))
        } else {
            let small = thumbnail_of(img.0, img.1, img.2, target as int, target as int);
            Some((small.0, small.1))
        },
        None => None,
    }
}

/// Get image dimensions from the bytes of an image file. Fails with a
/// processing error exactly where the image cannot be decoded.
pub fn get_image_dimensions(data: &[u8]) -> (r: Result<(u32, u32), ProcessingError>)
    ensures
        match r {
            Ok(size) => decoded_rgb(data@) is Some && size.0 == decoded_rgb(data@).unwrap().0
                && size.1 == decoded_rgb(data@).unwrap().1,
            Err(e) => e is Processing && decoded_rgb(data@) is None,
        },
{
    match decode_rgb(data) {
        Ok(img) => Ok((img.width, img.height)),
        Err(e) => Err(ProcessingError::Processing(e)),
    }
}

impl StandardImageProcessor {
    /// The standard image processor.
    pub fn new() -> (r: StandardImageProcessor) {
        StandardImageProcessor
    }

    /// Process the bytes of the file at `path` and extract metadata: width
    /// and height, EXIF fields, MIME type. Fails with a processing error
    /// exactly where the image cannot be decoded.
    pub fn process(&self, path: &str, data: &[u8]) -> (r: Result<MediaMetadata, ProcessingError>)
        ensures
            match r {
                Ok(m) => image_metadata_of(path@, data@) == Some(m@),
                Err(e) => e is Processing && image_metadata_of(path@, data@) is None,
            },
    {
        let img = match decode_rgb(data) {
            Ok(img) => img,
            Err(e) => {
                return Err(ProcessingError::Processing(e));
            },
        };
        let mut metadata = MediaMetadata::blank();
        metadata.width = Some(side_to_i32(img.width));
        metadata.height = Some(side_to_i32(img.height));
        extract_exif(data, &mut metadata);
        match lowercase_extension(path) {
            Some(ext) => {
                metadata.mime_type = Some(image_mime_type(ext.as_str()));
            },
            None => {},
        }
        Ok(metadata)
    }

    /// Generate a thumbnail from the bytes of an image file: a JPEG that
    /// fits a square of `target_width` pixels, or of the full size where
    /// `target_width` is 0, at `quality` out of 100. What comes out opens
    /// with the JPEG marker, and the image in it has no side of 0 and, for a
    /// target above 0, no side above the target.
    pub fn generate_thumbnail(&self, data: &[u8], target_width: u32, quality: u8) -> (r: Result<
        Option<Vec<u8>>,
        ProcessingError,
    >)
        ensures
            match r {
                Ok(Some(bytes)) => image_thumbnail_of(data@, target_width, quality) == Some(
                    bytes@,
                ),
                Ok(None) => false,
                Err(e) => e is Processing && image_thumbnail_of(data@, target_width, quality)
                    is None,
            },
            r matches Ok(Some(bytes)) ==> {
                &&& is_jpeg(bytes@)
                &&& image_thumbnail_size(data@, target_width) matches Some(shown)
                &&& 1 <= shown.0 <= JPEG_MAX_SIDE
                &&& 1 <= shown.1 <= JPEG_MAX_SIDE
                &&& target_width > 0 ==> shown.0 <= target_width && shown.1 <= target_width
            },
    {
        let img = match decode_rgb(data) {
            Ok(img) => img,
            Err(e) => {
                return Err(ProcessingError::Processing(e));
            },
        };
        let shown = if target_width == 0 {
            img
        } else if target_width <= JPEG_MAX_SIDE {
            thumbnail(img, target_width, target_width)
        } else {
            return Err(
                ProcessingError::Processing(String::from_str("Thumbnail size exceeds JPEG limits")),
            );
        };
        match encode_jpeg(&shown, quality) {
            Ok(bytes) => Ok(Some(bytes)),
            Err(e) => Err(ProcessingError::Processing(e)),
        }
    }
}

impl MediaProcessor for StandardImageProcessor {
    open spec fn extensions(&self) -> Set<Seq<char>> {
        standard_extensions()
    }

    open spec fn priority_spec(&self) -> int {
        10
    }

    open spec fn media_type_spec(&self) -> MediaType {
        MediaType::Image
    }

    fn supports(&self, path: &str) -> (r: bool) {
        match lowercase_extension(path) {
            Some(e) => {
                let ext = e.as_str();
                str_eq(ext, "jpg") || str_eq(ext, "jpeg") || str_eq(ext, "png") || str_eq(
                    ext,
                    "gif",
                ) || str_eq(ext, "bmp") || str_eq(ext, "webp") || str_eq(ext, "tiff")
            },
            None => false,
        }
    }

    fn priority(&self) -> (r: i32) {
        10
    }

    fn media_type(&self) -> (r: MediaType) {
        MediaType::Image
    }
}

} // verus!
