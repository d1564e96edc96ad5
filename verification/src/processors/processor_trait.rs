//! What every media processor offers, the metadata it fills, its errors, and
//! the registry that dispatches on the file extension.

use vstd::prelude::*;
use crate::processors::heif_processor::HeifImageProcessor;
use crate::processors::image_processor::StandardImageProcessor;
use crate::processors::video_processor::VideoProcessor;
use crate::text::{extension, lowercase, path_extension, text_of, to_lowercase};

verus! {

/// Media type enumeration.
#[derive(Debug, Clone, Copy, PartialEq, Eq, Structural)]
pub enum MediaType {
    Image,
    Video,
    Heif,
}

/// Media metadata extracted from a file. Instants are seconds since the Unix
/// epoch; the duration is in milliseconds.
#[derive(Debug, Clone)]
pub struct MediaMetadata {
    pub mime_type: Option<String>,
    pub file_size: Option<i64>,
    pub width: Option<i32>,
    pub height: Option<i32>,
    pub exif_timestamp: Option<i64>,
    pub exif_timezone_offset: Option<String>,
    pub create_time: Option<i64>,
    pub modify_time: Option<i64>,
    pub camera_make: Option<String>,
    pub camera_model: Option<String>,
    pub lens_model: Option<String>,
    pub exposure_time: Option<String>,
    pub aperture: Option<String>,
    pub iso: Option<i32>,
    pub focal_length: Option<String>,
    pub duration_ms: Option<u64>,
    pub video_codec: Option<String>,
}

/// [`MediaMetadata`] with its texts as character sequences.
pub struct MediaMetadataView {
    pub mime_type: Option<Seq<char>>,
    pub file_size: Option<i64>,
    pub width: Option<i32>,
    pub height: Option<i32>,
    pub exif_timestamp: Option<i64>,
    pub exif_timezone_offset: Option<Seq<char>>,
    pub create_time: Option<i64>,
    pub modify_time: Option<i64>,
    pub camera_make: Option<Seq<char>>,
    pub camera_model: Option<Seq<char>>,
    pub lens_model: Option<Seq<char>>,
    pub exposure_time: Option<Seq<char>>,
    pub aperture: Option<Seq<char>>,
    pub iso: Option<i32>,
    pub focal_length: Option<Seq<char>>,
    pub duration_ms: Option<u64>,
    pub video_codec: Option<Seq<char>>,
}

/// Metadata with every field unset.
pub open spec fn blank_metadata() -> MediaMetadataView {
    MediaMetadataView {
        mime_type: None,
        file_size: None,
        width: None,
        height: None,
        exif_timestamp: None,
        exif_timezone_offset: None,
        create_time: None,
        modify_time: None,
        camera_make: None,
        camera_model: None,
        lens_model: None,
        exposure_time: None,
        aperture: None,
        iso: None,
        focal_length: None,
        duration_ms: None,
        video_codec: None,
    }
}

impl View for MediaMetadata {
    type V = MediaMetadataView;

    open spec fn view(&self) -> MediaMetadataView {
        MediaMetadataView {
            mime_type: text_of(self.mime_type),
            file_size: self.file_size,
            width: self.width,
            height: self.height,
            exif_timestamp: self.exif_timestamp,
            exif_timezone_offset: text_of(self.exif_timezone_offset),
            create_time: self.create_time,
            modify_time: self.modify_time,
            camera_make: text_of(self.camera_make),
            camera_model: text_of(self.camera_model),
            lens_model: text_of(self.lens_model),
            exposure_time: text_of(self.exposure_time),
            aperture: text_of(self.aperture),
            iso: self.iso,
            focal_length: text_of(self.focal_length),
            duration_ms: self.duration_ms,
            video_codec: text_of(self.video_codec),
        }
    }
}

impl MediaMetadata {
    /// Whether no field is set.
    pub open spec fn is_blank(&self) -> bool {
        self@ == blank_metadata()
    }

    /// Metadata with every field unset.
    pub fn blank() -> (r: MediaMetadata)
        ensures
            r.is_blank(),
    {
        MediaMetadata {
            mime_type: None,
            file_size: None,
            width: None,
            height: None,
            exif_timestamp: None,
            exif_timezone_offset: None,
            create_time: None,
            modify_time: None,
            camera_make: None,
            camera_model: None,
            lens_model: None,
            exposure_time: None,
            aperture: None,
            iso: None,
            focal_length: None,
            duration_ms: None,
            video_codec: None,
        }
    }
}

impl Default for MediaMetadata {
    fn default() -> (r: MediaMetadata)
        ensures
            r.is_blank(),
    {
        MediaMetadata::blank()
    }
}

/// Processing error.
#[derive(Debug, Clone)]
pub enum ProcessingError {
    /// No processor supports the path; holds the extension.
    UnsupportedFormat(String),
    /// The file could not be read; holds the reason.
    IoError(String),
    /// A decoder or encoder refused the data.
    Processing(String),
    /// A native library failed.
    ExternalTool(String),
}

impl ProcessingError {
    /// The text that stands before the detail in [`ProcessingError::message`].
    pub open spec fn prefix(&self) -> Seq<char> {
        match self {
            ProcessingError::UnsupportedFormat(_) => "Unsupported file format: "@,
            ProcessingError::IoError(_) => "IO error: "@,
            ProcessingError::Processing(_) => "Processing error: "@,
            ProcessingError::ExternalTool(_) => "External tool error: "@,
        }
    }

    /// The detail that the error carries.
    pub open spec fn detail(&self) -> Seq<char> {
        match self {
            ProcessingError::UnsupportedFormat(d) => d@,
            ProcessingError::IoError(d) => d@,
            ProcessingError::Processing(d) => d@,
            ProcessingError::ExternalTool(d) => d@,
        }
    }

    /// The error as a line of text.
    pub fn message(&self) -> (r: String)
        ensures
            r@ == self.prefix() + self.detail(),
    {
        match self {
            ProcessingError::UnsupportedFormat(d) => String::from_str(
                "Unsupported file format: ",
            ).concat(d.as_str()),
            ProcessingError::IoError(d) => String::from_str("IO error: ").concat(d.as_str()),
            ProcessingError::Processing(d) => String::from_str("Processing error: ").concat(
                d.as_str(),
            ),
            ProcessingError::ExternalTool(d) => String::from_str("External tool error: ").concat(
                d.as_str(),
            ),
        }
    }
}

/// The lower-cased extension of a path.
pub open spec fn lower_extension(path: Seq<char>) -> Option<Seq<char>> {
    match path_extension(path) {
        Some(e) => Some(lowercase(e)),
        None => None,
    }
}

/// The lower-cased extension of `path`, if it has one.
pub fn lowercase_extension(path: &str) -> (r: Option<String>)
    ensures
        r is Some == lower_extension(path@) is Some,
        r matches Some(e) ==> lower_extension(path@) == Some(e@),
{
    match extension(path) {
        Some(e) => Some(to_lowercase(e.as_str())),
        None => None,
    }
}

/// What a media processor answers without touching the file.
pub trait MediaProcessor {
    /// The lower-cased extensions that this processor takes.
    spec fn extensions(&self) -> Set<Seq<char>>;

    /// The priority of this processor.
    spec fn priority_spec(&self) -> int;

    /// The media type this processor handles.
    spec fn media_type_spec(&self) -> MediaType;

    /// Check if this processor supports the given file: by the lower-cased
    /// extension of the path.
    fn supports(&self, path: &str) -> (r: bool)
        ensures
            r == supported(self.extensions(), path@),
    ;

    /// Get the priority of this processor (higher = checked first).
    fn priority(&self) -> (r: i32)
        ensures
            r == self.priority_spec(),
    ;

    /// Get the media type this processor handles.
    fn media_type(&self) -> (r: MediaType)
        ensures
            r == self.media_type_spec(),
    ;
}

/// Whether a path's lower-cased extension is in `extensions`.
pub open spec fn supported(extensions: Set<Seq<char>>, path: Seq<char>) -> bool {
    match lower_extension(path) {
        Some(e) => extensions.contains(e),
        None => false,
    }
}

/// One of the processors that the registry can hold.
#[derive(Debug, Clone)]
pub enum Processor {
    StandardImage(StandardImageProcessor),
    Heif(HeifImageProcessor),
    Video(VideoProcessor),
}

impl MediaProcessor for Processor {
    open spec fn extensions(&self) -> Set<Seq<char>> {
        match self {
            Processor::StandardImage(p) => p.extensions(),
            Processor::Heif(p) => p.extensions(),
            Processor::Video(p) => p.extensions(),
        }
    }

    open spec fn priority_spec(&self) -> int {
        match self {
            Processor::StandardImage(p) => p.priority_spec(),
            Processor::Heif(p) => p.priority_spec(),
            Processor::Video(p) => p.priority_spec(),
        }
    }

    open spec fn media_type_spec(&self) -> MediaType {
        match self {
            Processor::StandardImage(p) => p.media_type_spec(),
            Processor::Heif(p) => p.media_type_spec(),
            Processor::Video(p) => p.media_type_spec(),
        }
    }

    fn supports(&self, path: &str) -> (r: bool) {
        match self {
            Processor::StandardImage(p) => p.supports(path),
            Processor::Heif(p) => p.supports(path),
            Processor::Video(p) => p.supports(path),
        }
    }

    fn priority(&self) -> (r: i32) {
        match self {
            Processor::StandardImage(p) => p.priority(),
            Processor::Heif(p) => p.priority(),
            Processor::Video(p) => p.priority(),
        }
    }

    fn media_type(&self) -> (r: MediaType) {
        match self {
            Processor::StandardImage(p) => p.media_type(),
            Processor::Heif(p) => p.media_type(),
            Processor::Video(p) => p.media_type(),
        }
    }
}

/// Registry for managing media processors: they are held by descending
/// priority, and of two with the same priority the one registered first
/// comes first.
#[derive(Debug, Clone)]
pub struct ProcessorRegistry {
    pub processors: Vec<Processor>,
}

/// Where a processor of priority `priority` goes among the first `n`: behind
/// every processor whose priority is at least as high.
pub open spec fn slot_for(processors: Seq<Processor>, priority: int, n: int) -> int
    decreases n,
{
    if n <= 0 {
        0
    } else if processors[n - 1].priority_spec() >= priority {
        n
    } else {
        slot_for(processors, priority, n - 1)
    }
}

/// The index of the first of the first `n` processors that supports the
/// path; `n` where none does.
pub open spec fn first_supporting(processors: Seq<Processor>, path: Seq<char>, n: int) -> int
    decreases n,
{
    if n <= 0 {
        0
    } else {
        let before = first_supporting(processors, path, n - 1);
        if before < n - 1 {
            before
        } else if supported(processors[n - 1].extensions(), path) {
            n - 1
        } else {
            n
        }
    }
}

impl ProcessorRegistry {
    /// The processors stand by descending priority.
    pub open spec fn wf(&self) -> bool {
        forall|i: int, j: int|
            0 <= i < j < self.processors@.len() ==> (
            #[trigger] self.processors@[i]).priority_spec() >= (
            #[trigger] self.processors@[j]).priority_spec()
    }

    /// Whether the processors stand by descending priority; for callers
    /// that cannot prove it.
    pub fn is_well_formed(&self) -> (r: bool)
        ensures
            r == self.wf(),
    {
        let mut i: usize = 1;
        while i < self.processors.len()
            invariant
                1 <= i,
                forall|a: int, b: int|
                    0 <= a < b < i && b < self.processors@.len() ==> (
                    #[trigger] self.processors@[a]).priority_spec() >= (
                    #[trigger] self.processors@[b]).priority_spec(),
            decreases self.processors.len() - i,
        {
            if self.processors[i - 1].priority() < self.processors[i].priority() {
                return false;
            }
            proof {
                assert forall|a: int, b: int| 0 <= a < b < i + 1 && b < self.processors@.len() implies (
                #[trigger] self.processors@[a]).priority_spec() >= (
                #[trigger] self.processors@[b]).priority_spec() by {
                    if b == i && a < i - 1 {
                        assert(self.processors@[a].priority_spec() >= self.processors@[i
                            - 1].priority_spec());
                    }
                }
            }
            i = i + 1;
        }
        true
    }

    /// Create a new registry, which holds no processor.
    pub fn new() -> (r: ProcessorRegistry)
        ensures
            r.processors@.len() == 0,
            r.wf(),
    {
        ProcessorRegistry { processors: Vec::new() }
    }

    /// Register a processor: it goes behind the processors of the same or a
    /// higher priority and before those of a lower one.
    pub fn register(&mut self, processor: Processor)
        requires
            old(self).wf(),
        ensures
            final(self).wf(),
            final(self).processors@ == old(self).processors@.insert(
                slot_for(
                    old(self).processors@,
                    processor.priority_spec(),
                    old(self).processors@.len() as int,
                ),
                processor,
            ),
    {
        let priority = processor.priority();
        let mut at: usize = self.processors.len();
        while at > 0 && self.processors[at - 1].priority() < priority
            invariant
                at <= self.processors@.len(),
                self.processors@ == old(self).processors@,
                priority == processor.priority_spec(),
                slot_for(self.processors@, priority as int, self.processors@.len() as int)
                    == slot_for(self.processors@, priority as int, at as int),
                forall|k: int|
                    at <= k < self.processors@.len() ==> (
                    #[trigger] self.processors@[k]).priority_spec() < priority,
            decreases at,
        {
            at = at - 1;
        }
        let ghost before = self.processors@;
        self.processors.insert(at, processor);
        proof {
            assert forall|i: int, j: int| 0 <= i < j < self.processors@.len() implies (
            #[trigger] self.processors@[i]).priority_spec() >= (
            #[trigger] self.processors@[j]).priority_spec() by {
                let bi = if i < at {
                    i
                } else {
                    i - 1
                };
                let bj = if j < at {
                    j
                } else {
                    j - 1
                };
                if i != at && j != at {
                    assert(before[bi].priority_spec() >= before[bj].priority_spec());
                } else if i == at {
                    assert(before[bj].priority_spec() < priority);
                } else {
                    if at > 0 {
                        assert(before[at - 1].priority_spec() >= priority);
                        if i < at - 1 {
                            assert(before[i].priority_spec() >= before[at - 1].priority_spec());
                        }
                    }
                }
            }
        }
    }

    /// Find the appropriate processor for a file: the first, in order of
    /// priority, that supports the path.
    pub fn find_processor(&self, path: &str) -> (r: Option<&Processor>)
        ensures
            ({
                let at = first_supporting(
                    self.processors@,
                    path@,
                    self.processors@.len() as int,
                );
                &&& 0 <= at <= self.processors@.len()
                &&& r is Some == (at < self.processors@.len())
                &&& r matches Some(p) ==> *p == self.processors@[at] && supported(
                    p.extensions(),
                    path@,
                )
                &&& forall|k: int|
                    0 <= k < at ==> !supported((#[trigger] self.processors@[k]).extensions(), path@)
            }),
    {
        let mut i: usize = 0;
        while i < self.processors.len()
            invariant
                i <= self.processors@.len(),
                first_supporting(self.processors@, path@, i as int) == i,
                forall|k: int|
                    0 <= k < i ==> !supported((#[trigger] self.processors@[k]).extensions(), path@),
            decreases self.processors.len() - i,
        {
            if self.processors[i].supports(path) {
                proof {
                    lemma_first_supporting_found(
                        self.processors@,
                        path@,
                        i as int,
                        self.processors@.len() as int,
                    );
                }
                return Some(&self.processors[i]);
            }
            i = i + 1;
        }
        None
    }
}

/// Once a processor supports the path, the search has its answer.
pub proof fn lemma_first_supporting_found(
    processors: Seq<Processor>,
    path: Seq<char>,
    at: int,
    n: int,
)
    requires
        0 <= at < n <= processors.len(),
        first_supporting(processors, path, at) == at,
        supported(processors[at].extensions(), path),
    ensures
        first_supporting(processors, path, n) == at,
    decreases n,
{
    if n > at + 1 {
        lemma_first_supporting_found(processors, path, at, n - 1);
    }
}

/// The processor found for a path has the highest priority among those
/// that support it.
pub proof fn lemma_found_processor_has_top_priority(
    registry: ProcessorRegistry,
    path: Seq<char>,
    other: int,
)
    requires
        registry.wf(),
        0 <= other < registry.processors@.len(),
        supported(registry.processors@[other].extensions(), path),
    ensures
        ({
            let at = first_supporting(
                registry.processors@,
                path,
                registry.processors@.len() as int,
            );
            &&& 0 <= at <= other
            &&& registry.processors@[at].priority_spec()
                >= registry.processors@[other].priority_spec()
            &&& supported(registry.processors@[at].extensions(), path)
        }),
{
    lemma_first_supporting(registry.processors@, path, registry.processors@.len() as int);
}

/// What [`first_supporting`] finds: the least index of a processor that
/// supports the path.
pub proof fn lemma_first_supporting(processors: Seq<Processor>, path: Seq<char>, n: int)
    requires
        0 <= n <= processors.len(),
    ensures
        0 <= first_supporting(processors, path, n) <= n,
        first_supporting(processors, path, n) < n ==> supported(
            processors[first_supporting(processors, path, n)].extensions(),
            path,
        ),
        forall|k: int|
            0 <= k < first_supporting(processors, path, n) ==> !supported(
                (#[trigger] processors[k]).extensions(),
                path,
            ),
    decreases n,
{
    if n > 0 {
        lemma_first_supporting(processors, path, n - 1);
    }
}

} // verus!
