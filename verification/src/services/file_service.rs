//! The file service: where a thumbnail comes from, what it is served as,
//! and what is cached. Reading files, asking the catalog and running the
//! generators are the caller's work; the order of attempts and the
//! treatment of each outcome are decided here.

use vstd::prelude::*;
use crate::db::models::MediaFile;
use crate::processors::processor_trait::{first_supporting, ProcessorRegistry};
use crate::processors::raster::is_jpeg;
use crate::services::cache_service::{key_of, CacheLookup, CacheService};
use crate::text::{lowercase, str_eq, text_of};
use crate::utils::{after_last_dot, lowercase_suffix};

verus! {

/// The MIME type that goes with the lower-cased extension of a file name.
pub open spec fn mime_of_extension(ext: Seq<char>) -> Seq<char> {
    if ext == "jpg"@ || ext == "jpeg"@ {
        "image/jpeg"@
    } else if ext == "png"@ {
        "image/png"@
    } else if ext == "gif"@ {
        "image/gif"@
    } else if ext == "webp"@ {
        "image/webp"@
    } else if ext == "heic"@ || ext == "heif"@ {
        "image/heic"@
    } else if ext == "mp4"@ {
        "video/mp4"@
    } else if ext == "mov"@ {
        "video/quicktime"@
    } else if ext == "avi"@ {
        "video/x-msvideo"@
    } else if ext == "mkv"@ {
        "video/x-matroska"@
    } else {
        "application/octet-stream"@
    }
}

/// The MIME type of an image that is served as the file itself, by the
/// lower-cased extension of its name. Every browser-native extension has a
/// type of its own here.
pub open spec fn image_mime_of_extension(ext: Seq<char>) -> Seq<char> {
    if ext == "jpg"@ || ext == "jpeg"@ {
        "image/jpeg"@
    } else if ext == "png"@ {
        "image/png"@
    } else if ext == "gif"@ {
        "image/gif"@
    } else if ext == "webp"@ {
        "image/webp"@
    } else if ext == "avif"@ {
        "image/avif"@
    } else if ext == "svg"@ {
        "image/svg+xml"@
    } else if ext == "heic"@ || ext == "heif"@ {
        "image/heic"@
    } else if ext == "tiff"@ || ext == "tif"@ {
        "image/tiff"@
    } else if ext == "bmp"@ {
        "image/bmp"@
    } else {
        "application/octet-stream"@
    }
}

/// The extensions of the formats that browsers show without transcoding.
pub open spec fn is_native_extension(ext: Seq<char>) -> bool {
    ext == "jpg"@ || ext == "jpeg"@ || ext == "png"@ || ext == "gif"@ || ext == "webp"@ || ext
        == "avif"@ || ext == "svg"@
}

/// Guess MIME type from file extension: what stands behind the last dot
/// of the name, in lower case, decides.
pub fn guess_mime_type(file_name: &str) -> (r: String)
    ensures
        r@ == mime_of_extension(lowercase(after_last_dot(file_name@))),
{
    let ext = lowercase_suffix(file_name);
    let e = ext.as_str();
    if str_eq(e, "jpg") || str_eq(e, "jpeg") {
        String::from_str("image/jpeg")
    } else if str_eq(e, "png") {
        String::from_str("image/png")
    } else if str_eq(e, "gif") {
        String::from_str("image/gif")
    } else if str_eq(e, "webp") {
        String::from_str("image/webp")
    } else if str_eq(e, "heic") || str_eq(e, "heif") {
        String::from_str("image/heic")
    } else if str_eq(e, "mp4") {
        String::from_str("video/mp4")
    } else if str_eq(e, "mov") {
        String::from_str("video/quicktime")
    } else if str_eq(e, "avi") {
        String::from_str("video/x-msvideo")
    } else if str_eq(e, "mkv") {
        String::from_str("video/x-matroska")
    } else {
        String::from_str("application/octet-stream")
    }
}

/// Check if a file format is natively supported by browsers, so that it
/// can be served without transcoding: JPEG, PNG, GIF, WebP, AVIF, SVG.
pub fn is_browser_native_format(file_name: &str) -> (r: bool)
    ensures
        r == is_native_extension(lowercase(after_last_dot(file_name@))),
{
    let ext = lowercase_suffix(file_name);
    let e = ext.as_str();
    str_eq(e, "jpg") || str_eq(e, "jpeg") || str_eq(e, "png") || str_eq(e, "gif") || str_eq(
        e,
        "webp",
    ) || str_eq(e, "avif") || str_eq(e, "svg")
}

/// Guess the MIME type of an image from the name of its file (used for
/// what is passed through, and for the cache lookup of it).
pub fn guess_mime_type_from_path(file_name: &str) -> (r: String)
    ensures
        r@ == image_mime_of_extension(lowercase(after_last_dot(file_name@))),
{
    let ext = lowercase_suffix(file_name);
    let e = ext.as_str();
    if str_eq(e, "jpg") || str_eq(e, "jpeg") {
        String::from_str("image/jpeg")
    } else if str_eq(e, "png") {
        String::from_str("image/png")
    } else if str_eq(e, "gif") {
        String::from_str("image/gif")
    } else if str_eq(e, "webp") {
        String::from_str("image/webp")
    } else if str_eq(e, "avif") {
        String::from_str("image/avif")
    } else if str_eq(e, "svg") {
        String::from_str("image/svg+xml")
    } else if str_eq(e, "heic") || str_eq(e, "heif") {
        String::from_str("image/heic")
    } else if str_eq(e, "tiff") || str_eq(e, "tif") {
        String::from_str("image/tiff")
    } else if str_eq(e, "bmp") {
        String::from_str("image/bmp")
    } else {
        String::from_str("application/octet-stream")
    }
}

/// The size label under which a thumbnail of a target width is cached: full
/// for 0, small up to 300, medium up to 450, large above.
pub open spec fn label_for_width(target_width: u32) -> Seq<char> {
    if target_width == 0 {
        "full"@
    } else if target_width <= 300 {
        "small"@
    } else if target_width <= 450 {
        "medium"@
    } else {
        "large"@
    }
}

/// The size label for a target width.
pub fn size_label_for_width(target_width: u32) -> (r: &'static str)
    ensures
        r@ == label_for_width(target_width),
{
    if target_width == 0 {
        "full"
    } else if target_width <= 300 {
        "small"
    } else if target_width <= 450 {
        "medium"
    } else {
        "large"
    }
}

/// Whether the cache keeps the bytes of the file itself under a size label:
/// it does for the full size of a file with a browser-native extension.
/// Under every other label, and for every other file, it keeps a generated
/// JPEG.
pub open spec fn kept_as_original(size_label: Seq<char>, file_name: Seq<char>) -> bool {
    size_label == "full"@ && is_native_extension(lowercase(after_last_dot(file_name)))
}

/// The content type of a thumbnail found in the cache, for the name of the
/// file that the record has: the type of the file where its own bytes are
/// kept, and JPEG for a generated thumbnail.
pub open spec fn cached_mime_of(size_label: Seq<char>, file_name: Seq<char>) -> Seq<char> {
    if kept_as_original(size_label, file_name) {
        image_mime_of_extension(lowercase(after_last_dot(file_name)))
    } else {
        "image/jpeg"@
    }
}

/// Whether the file name decides the content type of a cached thumbnail: it
/// does for the full size only, so that the record is needed before the
/// cache can answer.
pub fn needs_file_name(size_label: &str) -> (r: bool)
    ensures
        r == (size_label@ == "full"@),
        !r ==> forall|name: Seq<char>| #[trigger] cached_mime_of(size_label@, name) == "image/jpeg"@,
{
    str_eq(size_label, "full")
}

/// Whether the cache keeps the bytes of the file itself under the label.
pub fn keeps_original(size_label: &str, file_name: &str) -> (r: bool)
    ensures
        r == kept_as_original(size_label@, file_name@),
{
    str_eq(size_label, "full") && is_browser_native_format(file_name)
}

/// One way to come by a thumbnail.
#[derive(Debug, Clone, Copy, PartialEq, Eq, Structural)]
pub enum ThumbnailSource {
    /// Serve the bytes of the original file as they are.
    Passthrough,
    /// Run the processor's generator.
    Generate,
    /// Serve the original of an image where it is a JPEG or a PNG.
    Fallback,
}

/// What the catalog and the file system tell of the file behind a request.
#[derive(Debug, Clone, Copy, PartialEq, Eq, Structural)]
pub struct FileFacts {
    /// Whether the catalog has a record for the id.
    pub record_found: bool,
    /// Whether the file of the record exists.
    pub path_exists: bool,
    /// Whether the file name has a browser-native extension.
    pub browser_native: bool,
    /// Whether a processor supports the path.
    pub has_processor: bool,
    /// Whether the record's file type is `image`.
    pub is_image: bool,
}

/// The ways to try for a thumbnail, in order; the first that gives bytes
/// wins, and the thumbnail is not found where none does.
///
/// With no record, or no file, there is no way. The full size of a
/// browser-native format is passed through, and nothing else is tried for
/// it. Otherwise the generator of the processor is tried; and for a size
/// other than full, the original of an image serves as a last resort.
pub open spec fn sources_of(full: bool, facts: FileFacts) -> Seq<ThumbnailSource> {
    if !facts.record_found || !facts.path_exists {
        Seq::empty()
    } else if full && facts.browser_native {
        seq![ThumbnailSource::Passthrough]
    } else {
        (if facts.has_processor {
            seq![ThumbnailSource::Generate]
        } else {
            Seq::empty()
        }) + (if !full && facts.is_image {
            seq![ThumbnailSource::Fallback]
        } else {
            Seq::empty()
        })
    }
}

/// A thumbnail with its content type, and whether it goes into the cache.
#[derive(Debug, Clone)]
pub struct ServedThumbnail {
    pub data: Vec<u8>,
    pub mime_type: String,
    /// Whether the bytes are cached under the id and the size label.
    pub cache: bool,
}

/// Whether the bytes begin with the PNG signature.
pub open spec fn is_png(data: Seq<u8>) -> bool {
    data.len() >= 8 && data[0] == 0x89 && data[1] == 0x50 && data[2] == 0x4E && data[3] == 0x47
        && data[4] == 0x0D && data[5] == 0x0A && data[6] == 0x1A && data[7] == 0x0A
}

/// The content type that the magic bytes of a file tell, for the two
/// formats that serve as a fallback.
pub open spec fn magic_mime_of(data: Seq<u8>) -> Option<Seq<char>> {
    if is_jpeg(data) {
        Some("image/jpeg"@)
    } else if is_png(data) {
        Some("image/png"@)
    } else {
        None
    }
}

/// The content type of a fallback thumbnail by its magic bytes.
pub fn fallback_mime_type(data: &[u8]) -> (r: Option<String>)
    ensures
        text_of(r) == magic_mime_of(data@),
{
    if data.len() >= 2 && data[0] == 0xFF && data[1] == 0xD8 {
        Some(String::from_str("image/jpeg"))
    } else if data.len() >= 8 && data[0] == 0x89 && data[1] == 0x50 && data[2] == 0x4E && data[3]
        == 0x47 && data[4] == 0x0D && data[5] == 0x0A && data[6] == 0x1A && data[7] == 0x0A {
        Some(String::from_str("image/png"))
    } else {
        None
    }
}

/// What a source's bytes are served as, and whether they are cached under
/// the size label. A passthrough keeps the type of the file name; a
/// generated thumbnail is a JPEG; each is served, and cached, where it is
/// what the cache keeps under the label, and not served otherwise, so that
/// a cached thumbnail is served again as it was served first. A fallback is
/// served as what its magic bytes tell, is not cached, and is not served at
/// all where they tell nothing.
pub open spec fn served_of(
    size_label: Seq<char>,
    source: ThumbnailSource,
    file_name: Seq<char>,
    data: Seq<u8>,
) -> Option<(Seq<char>, bool)> {
    match source {
        ThumbnailSource::Passthrough => if kept_as_original(size_label, file_name) {
            Some((image_mime_of_extension(lowercase(after_last_dot(file_name))), true))
        } else {
            None
        },
        ThumbnailSource::Generate => if kept_as_original(size_label, file_name) {
            None
        } else {
            Some(("image/jpeg"@, true))
        },
        ThumbnailSource::Fallback => match magic_mime_of(data) {
            Some(m) => Some((m, false)),
            None => None,
        },
    }
}

/// Service for file operations: the thumbnail cache and the processors.
pub struct FileService {
    pub cache: CacheService,
    pub processors: ProcessorRegistry,
}

impl FileService {
    /// A file service over a cache and a registry of processors.
    pub fn new(cache: CacheService, processors: ProcessorRegistry) -> (r: FileService)
        ensures
            r.cache == cache,
            r.processors == processors,
    {
        FileService { cache, processors }
    }

    /// Get thumbnail, first step: the memory tier of the cache. A hit is
    /// served as it is; a miss names the file of the disk tier to read.
    /// `file_name` is the name of the record's file; it is read for the
    /// full size only.
    pub fn lookup(&self, file_id: &str, size_label: &str, file_name: &str) -> (r: Result<
        ServedThumbnail,
        String,
    >)
        ensures
            match r {
                Ok(t) => self.cache.entries().contains_key(key_of(file_id@, size_label@))
                    && t.data@ == self.cache.entries()[key_of(file_id@, size_label@)]
                    && t.mime_type@ == cached_mime_of(size_label@, file_name@) && !t.cache,
                Err(path) => path@ == self.cache.file_of(file_id@, size_label@),
            },
    {
        match self.cache.get_thumbnail(file_id, size_label) {
            CacheLookup::Hit(data) => Ok(self.cached_thumbnail(size_label, file_name, data)),
            CacheLookup::ReadDisk(path) => Err(path),
        }
    }

    /// Get thumbnail, second step: what the disk tier gave. Bytes found on
    /// disk are promoted into the memory tier and served.
    pub fn on_disk_read(
        &mut self,
        file_id: &str,
        size_label: &str,
        file_name: &str,
        disk: Option<Vec<u8>>,
    ) -> (r: Option<ServedThumbnail>)
        ensures
            final(self).processors == old(self).processors,
            final(self).cache.disk_cache_dir == old(self).cache.disk_cache_dir,
            match disk {
                Some(data) => r is Some && r.unwrap().data == data && r.unwrap().mime_type@
                    == cached_mime_of(size_label@, file_name@) && !r.unwrap().cache && final(self).cache.entries() == old(self).cache.entries().insert(
                    key_of(file_id@, size_label@),
                    data@,
                ),
                None => r is None && final(self).cache.entries() == old(self).cache.entries(),
            },
    {
        match self.cache.promote(file_id, size_label, disk) {
            Some(data) => Some(self.cached_thumbnail(size_label, file_name, data)),
            None => None,
        }
    }

    /// The answer for a thumbnail that the cache holds, for the name of the
    /// record's file.
    pub fn cached_thumbnail(&self, size_label: &str, file_name: &str, data: Vec<u8>) -> (r:
        ServedThumbnail)
        ensures
            r.data == data,
            r.mime_type@ == cached_mime_of(size_label@, file_name@),
            !r.cache,
    {
        let mime_type = if keeps_original(size_label, file_name) {
            guess_mime_type_from_path(file_name)
        } else {
            String::from_str("image/jpeg")
        };
        ServedThumbnail { data, mime_type, cache: false }
    }

    /// The facts that decide where a thumbnail comes from, read off the
    /// record where there is one.
    pub fn facts_for(&self, record: Option<&MediaFile>, path_exists: bool) -> (r: FileFacts)
        ensures
            r.record_found == record is Some,
            r.path_exists == (record is Some && path_exists),
            r.browser_native == (match record {
                Some(f) => is_native_extension(lowercase(after_last_dot(f.file_name@))),
                None => false,
            }),
            r.has_processor == (match record {
                Some(f) => first_supporting(
                    self.processors.processors@,
                    f.file_path@,
                    self.processors.processors@.len() as int,
                ) < self.processors.processors@.len(),
                None => false,
            }),
            r.is_image == (match record {
                Some(f) => f.file_type@ == "image"@,
                None => false,
            }),
    {
        match record {
            Some(f) => FileFacts {
                record_found: true,
                path_exists,
                browser_native: is_browser_native_format(f.file_name.as_str()),
                has_processor: self.processors.find_processor(f.file_path.as_str()).is_some(),
                is_image: str_eq(f.file_type.as_str(), "image"),
            },
            None => FileFacts {
                record_found: false,
                path_exists: false,
                browser_native: false,
                has_processor: false,
                is_image: false,
            },
        }
    }

    /// Get thumbnail for a file that the cache does not hold: the ways to
    /// try, in order. For the full size (a target of 0) browser-native
    /// formats are served directly without transcoding.
    pub fn get_thumbnail(&self, target_width: u32, facts: FileFacts) -> (r: Vec<ThumbnailSource>)
        ensures
            r@ == sources_of(target_width == 0, facts),
    {
        let full = target_width == 0;
        let mut out: Vec<ThumbnailSource> = Vec::new();
        if !facts.record_found || !facts.path_exists {
            return out;
        }
        if full && facts.browser_native {
            out.push(ThumbnailSource::Passthrough);
            assert(out@ =~= sources_of(full, facts));
            return out;
        }
        if facts.has_processor {
            out.push(ThumbnailSource::Generate);
        }
        if !full && facts.is_image {
            out.push(ThumbnailSource::Fallback);
        }
        assert(out@ =~= sources_of(full, facts));
        out
    }

    /// Takes the bytes that a source gave and says what they are served as,
    /// or that they are not served. A thumbnail that is to be cached goes
    /// into the memory tier at once; the path returned with it is the file
    /// of the disk tier to write. `file_name` is the name of the record's
    /// file.
    pub fn serve(
        &mut self,
        file_id: &str,
        size_label: &str,
        source: ThumbnailSource,
        file_name: &str,
        data: Vec<u8>,
    ) -> (r: Option<(ServedThumbnail, Option<String>)>)
        ensures
            final(self).processors == old(self).processors,
            final(self).cache.disk_cache_dir == old(self).cache.disk_cache_dir,
            r is Some == served_of(size_label@, source, file_name@, data@) is Some,
            r matches Some(t) ==> {
                &&& t.0.data == data
                &&& (t.0.mime_type@, t.0.cache) == served_of(
                    size_label@,
                    source,
                    file_name@,
                    data@,
                ).unwrap()
                &&& t.0.cache ==> text_of(t.1) == Some(
                    old(self).cache.file_of(file_id@, size_label@),
                ) && final(self).cache.entries() == old(self).cache.entries().insert(
                    key_of(file_id@, size_label@),
                    data@,
                )
                &&& !t.0.cache ==> t.1 is None && final(self).cache.entries() == old(self).cache.entries()
            },
            r is None ==> final(self).cache.entries() == old(self).cache.entries(),
    {
        let original = keeps_original(size_label, file_name);
        let mime_type = match source {
            ThumbnailSource::Passthrough => {
                if !original {
                    return None;
                }
                guess_mime_type_from_path(file_name)
            },
            ThumbnailSource::Generate => {
                if original {
                    return None;
                }
                String::from_str("image/jpeg")
            },
            ThumbnailSource::Fallback => match fallback_mime_type(data.as_slice()) {
                Some(m) => {
                    return Some((ServedThumbnail { mime_type: m, data, cache: false }, None));
                },
                None => {
                    return None;
                },
            },
        };
        let path = self.cache.put_thumbnail(file_id, size_label, data.as_slice());
        Some((ServedThumbnail { mime_type, data, cache: true }, Some(path)))
    }

    /// Generate a fallback thumbnail from the original file: its bytes as
    /// they are, where they are a JPEG or a PNG.
    pub fn generate_fallback_thumbnail(&self, data: Vec<u8>) -> (r: Option<ServedThumbnail>)
        ensures
            r is Some == magic_mime_of(data@) is Some,
            r matches Some(t) ==> t.data == data && Some(t.mime_type@) == magic_mime_of(data@)
                && !t.cache,
    {
        match fallback_mime_type(data.as_slice()) {
            Some(m) => Some(ServedThumbnail { mime_type: m, data, cache: false }),
            None => None,
        }
    }

    /// The content type of an original file: the stored MIME type, or the
    /// one that the file name tells where none is stored.
    pub fn get_original_file(&self, record: &MediaFile) -> (r: String)
        ensures
            r@ == (match record.mime_type {
                Some(m) => m@,
                None => mime_of_extension(lowercase(after_last_dot(record.file_name@))),
            }),
    {
        match &record.mime_type {
            Some(m) => m.clone(),
            None => guess_mime_type(record.file_name.as_str()),
        }
    }
}

/// The full size of a browser-native format is passed through unchanged:
/// passthrough comes first, the bytes served are the bytes read, the
/// content type is the one of the file name, and the bytes are cached.
pub proof fn lemma_full_native_is_passed_through(
    facts: FileFacts,
    file_name: Seq<char>,
    data: Seq<u8>,
)
    requires
        facts.record_found,
        facts.path_exists,
        facts.browser_native == is_native_extension(lowercase(after_last_dot(file_name))),
        facts.browser_native,
    ensures
        sources_of(true, facts) == seq![ThumbnailSource::Passthrough],
        served_of("full"@, ThumbnailSource::Passthrough, file_name, data) == Some(
            (image_mime_of_extension(lowercase(after_last_dot(file_name))), true),
        ),
        !sources_of(true, facts).contains(ThumbnailSource::Fallback),
{
    let s = sources_of(true, facts);
    if s.contains(ThumbnailSource::Fallback) {
        let k = choose|k: int| 0 <= k < s.len() && s[k] == ThumbnailSource::Fallback;
    }
}

/// A cached thumbnail is served again as it was served first: whatever the
/// label, the file name and the bytes, what a passthrough or a generator
/// gave and was served went into the cache, and the cache answers for the
/// same label and file name with the content type that it was served with.
pub proof fn lemma_cached_type_is_served_type(
    size_label: Seq<char>,
    source: ThumbnailSource,
    file_name: Seq<char>,
    data: Seq<u8>,
)
    requires
        source != ThumbnailSource::Fallback,
        served_of(size_label, source, file_name, data) is Some,
    ensures
        served_of(size_label, source, file_name, data).unwrap().1,
        cached_mime_of(size_label, file_name) == served_of(
            size_label,
            source,
            file_name,
            data,
        ).unwrap().0,
{
}

/// Nothing is served, and so nothing is cached, for an id without a record
/// or a record without a file: cache presence implies that the catalog
/// knew the record.
pub proof fn lemma_no_source_without_a_record(full: bool, facts: FileFacts)
    requires
        !facts.record_found || !facts.path_exists,
    ensures
        sources_of(full, facts).len() == 0,
{
}

} // verus!
