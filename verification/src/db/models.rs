//! The records of the catalog. Instants are seconds since the Unix epoch;
//! a duration is in milliseconds.

use vstd::prelude::*;
use vstd::std_specs::convert::FromSpecImpl;
use crate::extraction::time::{effective_sort_time_at, now_secs, TimeUtils};
use crate::text::{lowercase, str_eq, text_of, to_lowercase};

verus! {

/// File type enumeration.
#[derive(Debug, Clone, Copy, PartialEq, Eq, Structural)]
pub enum FileType {
    Image,
    Video,
}

/// The file type that a text names: `video` in any case is a video,
/// everything else an image.
pub open spec fn file_type_of(s: Seq<char>) -> FileType {
    if lowercase(s) == "video"@ {
        FileType::Video
    } else {
        FileType::Image
    }
}

impl FileType {
    /// The file type's name in the catalog.
    pub open spec fn name(self) -> Seq<char> {
        match self {
            FileType::Image => "image"@,
            FileType::Video => "video"@,
        }
    }

    /// The file type's name in the catalog: `image` or `video`.
    pub fn as_str(self) -> (r: &'static str)
        ensures
            r@ == self.name(),
    {
        match self {
            FileType::Image => "image",
            FileType::Video => "video",
        }
    }
}

impl From<String> for FileType {
    fn from(s: String) -> (r: FileType) {
        if str_eq(to_lowercase(s.as_str()).as_str(), "video") {
            FileType::Video
        } else {
            FileType::Image
        }
    }
}

impl FromSpecImpl<String> for FileType {
    open spec fn obeys_from_spec() -> bool {
        true
    }

    open spec fn from_spec(s: String) -> FileType {
        file_type_of(s@)
    }
}

impl From<&str> for FileType {
    fn from(s: &str) -> (r: FileType) {
        if str_eq(to_lowercase(s).as_str(), "video") {
            FileType::Video
        } else {
            FileType::Image
        }
    }
}

impl FromSpecImpl<&str> for FileType {
    open spec fn obeys_from_spec() -> bool {
        true
    }

    open spec fn from_spec(s: &str) -> FileType {
        file_type_of(s@)
    }
}

/// What `Uuid::new_v4` followed by `to_string` returns: a fresh random
/// identifier in the hyphenated form, which is 36 characters long.
#[verifier::external_body]
pub(crate) fn new_id() -> (r: String)
    ensures
        r@.len() == 36,
{
    uuid::Uuid::new_v4().to_string()
}

/// Media file entity.
#[derive(Debug, Clone)]
pub struct MediaFile {
    pub id: String,
    pub file_path: String,
    pub file_name: String,
    pub file_type: String,
    pub mime_type: Option<String>,
    pub file_size: Option<i64>,
    pub width: Option<i32>,
    pub height: Option<i32>,
    pub exif_timestamp: Option<i64>,
    pub exif_timezone_offset: Option<String>,
    pub create_time: Option<i64>,
    pub modify_time: Option<i64>,
    pub last_scanned: Option<i64>,
    pub camera_make: Option<String>,
    pub camera_model: Option<String>,
    pub lens_model: Option<String>,
    pub exposure_time: Option<String>,
    pub aperture: Option<String>,
    pub iso: Option<i32>,
    pub focal_length: Option<String>,
    pub duration_ms: Option<u64>,
    pub video_codec: Option<String>,
    pub thumbnail_generated: bool,
}

/// [`MediaFile`] with its texts as character sequences.
pub struct MediaFileView {
    pub id: Seq<char>,
    pub file_path: Seq<char>,
    pub file_name: Seq<char>,
    pub file_type: Seq<char>,
    pub mime_type: Option<Seq<char>>,
    pub file_size: Option<i64>,
    pub width: Option<i32>,
    pub height: Option<i32>,
    pub exif_timestamp: Option<i64>,
    pub exif_timezone_offset: Option<Seq<char>>,
    pub create_time: Option<i64>,
    pub modify_time: Option<i64>,
    pub last_scanned: Option<i64>,
    pub camera_make: Option<Seq<char>>,
    pub camera_model: Option<Seq<char>>,
    pub lens_model: Option<Seq<char>>,
    pub exposure_time: Option<Seq<char>>,
    pub aperture: Option<Seq<char>>,
    pub iso: Option<i32>,
    pub focal_length: Option<Seq<char>>,
    pub duration_ms: Option<u64>,
    pub video_codec: Option<Seq<char>>,
    pub thumbnail_generated: bool,
}

impl View for MediaFile {
    type V = MediaFileView;

    open spec fn view(&self) -> MediaFileView {
        MediaFileView {
            id: self.id@,
            file_path: self.file_path@,
            file_name: self.file_name@,
            file_type: self.file_type@,
            mime_type: text_of(self.mime_type),
            file_size: self.file_size,
            width: self.width,
            height: self.height,
            exif_timestamp: self.exif_timestamp,
            exif_timezone_offset: text_of(self.exif_timezone_offset),
            create_time: self.create_time,
            modify_time: self.modify_time,
            last_scanned: self.last_scanned,
            camera_make: text_of(self.camera_make),
            camera_model: text_of(self.camera_model),
            lens_model: text_of(self.lens_model),
            exposure_time: text_of(self.exposure_time),
            aperture: text_of(self.aperture),
            iso: self.iso,
            focal_length: text_of(self.focal_length),
            duration_ms: self.duration_ms,
            video_codec: text_of(self.video_codec),
            thumbnail_generated: self.thumbnail_generated,
        }
    }
}

/// A record with the basic fields set and nothing else known.
pub open spec fn bare_record(
    id: Seq<char>,
    file_path: Seq<char>,
    file_name: Seq<char>,
    file_type: Seq<char>,
) -> MediaFileView {
    MediaFileView {
        id,
        file_path,
        file_name,
        file_type,
        mime_type: None,
        file_size: None,
        width: None,
        height: None,
        exif_timestamp: None,
        exif_timezone_offset: None,
        create_time: None,
        modify_time: None,
        last_scanned: None,
        camera_make: None,
        camera_model: None,
        lens_model: None,
        exposure_time: None,
        aperture: None,
        iso: None,
        focal_length: None,
        duration_ms: None,
        video_codec: None,
        thumbnail_generated: false,
    }
}

impl MediaFileView {
    /// The effective sort time of the record at `now`.
    pub open spec fn sort_time_at(&self, now: i64) -> Option<i64> {
        effective_sort_time_at(self.exif_timestamp, self.create_time, self.modify_time, now)
    }
}

impl MediaFile {
    /// A record with a given identifier and the basic fields.
    pub fn with_id(id: String, file_path: String, file_name: String, file_type: String) -> (r:
        MediaFile)
        ensures
            r@ == bare_record(id@, file_path@, file_name@, file_type@),
    {
        MediaFile {
            id,
            file_path,
            file_name,
            file_type,
            mime_type: None,
            file_size: None,
            width: None,
            height: None,
            exif_timestamp: None,
            exif_timezone_offset: None,
            create_time: None,
            modify_time: None,
            last_scanned: None,
            camera_make: None,
            camera_model: None,
            lens_model: None,
            exposure_time: None,
            aperture: None,
            iso: None,
            focal_length: None,
            duration_ms: None,
            video_codec: None,
            thumbnail_generated: false,
        }
    }

    /// Create a new media file with basic fields and a fresh random
    /// identifier.
    pub fn new(file_path: String, file_name: String, file_type: String) -> (r: MediaFile)
        ensures
            r@ == bare_record(r.id@, file_path@, file_name@, file_type@),
            r.id@.len() == 36,
    {
        Self::with_id(new_id(), file_path, file_name, file_type)
    }

    /// A copy of the record.
    pub fn duplicate(&self) -> (r: MediaFile)
        ensures
            r@ == self@,
    {
        MediaFile {
            id: self.id.clone(),
            file_path: self.file_path.clone(),
            file_name: self.file_name.clone(),
            file_type: self.file_type.clone(),
            mime_type: self.mime_type.clone(),
            file_size: self.file_size,
            width: self.width,
            height: self.height,
            exif_timestamp: self.exif_timestamp,
            exif_timezone_offset: self.exif_timezone_offset.clone(),
            create_time: self.create_time,
            modify_time: self.modify_time,
            last_scanned: self.last_scanned,
            camera_make: self.camera_make.clone(),
            camera_model: self.camera_model.clone(),
            lens_model: self.lens_model.clone(),
            exposure_time: self.exposure_time.clone(),
            aperture: self.aperture.clone(),
            iso: self.iso,
            focal_length: self.focal_length.clone(),
            duration_ms: self.duration_ms,
            video_codec: self.video_codec.clone(),
            thumbnail_generated: self.thumbnail_generated,
        }
    }

    /// The effective sort time judged at the instant `now`: EXIF timestamp,
    /// then create time, then modify time, each only where valid.
    pub fn get_effective_sort_time_at(&self, now: i64) -> (r: Option<i64>)
        ensures
            r == self@.sort_time_at(now),
    {
        TimeUtils::get_effective_sort_time_at(
            self.exif_timestamp,
            self.create_time,
            self.modify_time,
            now,
        )
    }

    /// Get the effective sort time (EXIF > create > modify). The clock is
    /// read once.
    pub fn get_effective_sort_time(&self) -> (r: Option<i64>)
        ensures
            exists|now: i64| r == self@.sort_time_at(now),
            self.exif_timestamp is None && self.create_time is None ==> r == self.modify_time,
    {
        let now = now_secs();
        self.get_effective_sort_time_at(now)
    }
}

/// Directory entity.
#[derive(Debug, Clone)]
pub struct Directory {
    pub id: i64,
    pub path: String,
    pub parent_id: Option<i64>,
    pub last_modified: Option<i64>,
}

/// Date info for calendar display.
#[derive(Debug, Clone)]
pub struct DateInfo {
    /// The date as `YYYY-MM-DD`.
    pub date: String,
    pub count: i64,
}

/// System configuration.
#[derive(Debug, Clone)]
pub struct SystemConfig {
    pub key: String,
    pub value: Option<String>,
    pub updated_at: Option<i64>,
}

/// Scan history record.
#[derive(Debug, Clone)]
pub struct ScanHistory {
    pub id: i64,
    pub start_time: i64,
    pub end_time: Option<i64>,
    pub files_scanned: i64,
    pub files_added: i64,
    pub files_updated: i64,
    pub files_deleted: i64,
    pub status: String,
}

} // verus!
