//! The scan engine: five phases, each a step from what the caller reports
//! to the next command and the progress updates that go with it. The caller
//! walks the directory, talks to the catalog store and runs the extractors;
//! every decision is made here.

use vstd::prelude::*;
use crate::config::Config;
use crate::db::models::{MediaFile, MediaFileView};
use crate::db::repository::Catalog;
use crate::text::texts;
use crate::processors::processor_trait::{
    lower_extension, lowercase_extension, MediaMetadata, MediaMetadataView, MediaType,
};
use crate::text::{
    file_name, is_sorted, path_file_name, percentage_string, percentage_text, sort_texts,
    text_of,
};
use crate::utils::{image_extension, is_image_extension, is_video_extension, video_extension};
use crate::websocket::scan_state::{ProgressUpdate, ScanPhase};

verus! {

/// Scan progress tracking.
#[derive(Debug, Clone)]
pub struct ScanProgress {
    pub scanning: bool,
    pub phase: Option<String>,
    pub total_files: u64,
    pub success_count: u64,
    pub failure_count: u64,
    pub files_to_add: u64,
    pub files_to_update: u64,
    pub files_to_delete: u64,
}

impl Default for ScanProgress {
    fn default() -> (r: ScanProgress)
        ensures
            !r.scanning,
            r.phase is None,
            r.total_files == 0,
            r.success_count == 0,
            r.failure_count == 0,
            r.files_to_add == 0,
            r.files_to_update == 0,
            r.files_to_delete == 0,
    {
        ScanProgress {
            scanning: false,
            phase: None,
            total_files: 0,
            success_count: 0,
            failure_count: 0,
            files_to_add: 0,
            files_to_update: 0,
            files_to_delete: 0,
        }
    }
}

impl ScanProgress {
    /// The share of processed files as a percentage with two decimals,
    /// rounded half to even; `0.00` where there are no files.
    pub fn get_progress_percentage(&self) -> (r: String)
        ensures
            r@ == percentage_text(
                (self.success_count + self.failure_count) as nat,
                self.total_files as nat,
            ),
    {
        percentage_string(self.success_count, self.failure_count, self.total_files)
    }
}

/// Whether the scanner collects a file with this lower-cased extension.
pub open spec fn is_collected_extension(ext: Seq<char>) -> bool {
    is_image_extension(ext) || is_video_extension(ext)
}

/// Whether the scanner collects a path: its extension, lower-cased, is on
/// the allowlist of image and video formats.
pub open spec fn is_collected(path: Seq<char>) -> bool {
    match lower_extension(path) {
        Some(e) => is_collected_extension(e),
        None => false,
    }
}

/// Whether the scanner collects this path.
pub fn is_supported_media(path: &str) -> (r: bool)
    ensures
        r == is_collected(path@),
{
    match lowercase_extension(path) {
        Some(e) => image_extension(e.as_str()) || video_extension(e.as_str()),
        None => false,
    }
}

/// What the scan does with a collected file.
#[derive(Debug, Clone, Copy, PartialEq, Eq, Structural)]
pub enum FileChange {
    /// The catalog does not know the file: extract and insert.
    Add,
    /// The file changed since it was catalogued: extract and replace.
    Update,
    /// The file is unchanged: only its scan time is refreshed.
    Skip,
}

/// The modification time of a record as whole seconds, read as an unsigned
/// number; 0 where the record has none.
pub open spec fn stored_modify_secs(modify_time: Option<i64>) -> int {
    match modify_time {
        Some(t) => if t >= 0 {
            t as int
        } else {
            t + 0x1_0000_0000_0000_0000
        },
        None => 0,
    }
}

/// How a file is classified: `Add` where the catalog has no record of it;
/// `Skip` where the modification time of the file equals the stored one, to
/// the second; `Update` otherwise, also where the file's time cannot be
/// read.
pub open spec fn change_of(known: Option<Option<i64>>, fs_modify: Option<u64>) -> FileChange {
    match known {
        None => FileChange::Add,
        Some(stored) => match fs_modify {
            Some(t) => if t as int == stored_modify_secs(stored) {
                FileChange::Skip
            } else {
                FileChange::Update
            },
            None => FileChange::Update,
        },
    }
}

/// Classifies a collected file from its catalog record, if it has one, and
/// the modification time of the file in seconds since the epoch.
pub fn classify(known: Option<&MediaFile>, fs_modify: Option<u64>) -> (r: FileChange)
    ensures
        r == change_of(
            match known {
                Some(rec) => Some(rec.modify_time),
                None => None,
            },
            fs_modify,
        ),
{
    match known {
        None => FileChange::Add,
        Some(rec) => match fs_modify {
            Some(t) => {
                let stored: u64 = match rec.modify_time {
                    Some(m) => if m >= 0 {
                        m as u64
                    } else {
                        ((m + 9223372036854775807) + 1) as u64 + 9223372036854775808
                    },
                    None => 0,
                };
                if t == stored {
                    FileChange::Skip
                } else {
                    FileChange::Update
                }
            },
            None => FileChange::Update,
        },
    }
}

/// The number of concurrent extractions: the configured number, else twice
/// the number of CPU cores, else 16 where that number is unknown.
pub open spec fn concurrency_of(configured: Option<usize>, cores: Option<usize>) -> int {
    match configured {
        Some(n) => n as int,
        None => match cores {
            Some(c) => if c * 2 > usize::MAX {
                usize::MAX as int
            } else {
                c * 2
            },
            None => 16,
        },
    }
}

/// The concurrency level for parallel scanning.
pub fn get_concurrency(configured: Option<usize>, cores: Option<usize>) -> (r: usize)
    ensures
        r == concurrency_of(configured, cores),
{
    match configured {
        Some(n) => n,
        None => match cores {
            Some(c) => match c.checked_mul(2) {
                Some(n) => n,
                None => usize::MAX,
            },
            None => 16,
        },
    }
}

/// The record that a scan writes for a file: the basic fields, what the
/// file system told, and what the format's processor extracted.
pub open spec fn built_record(
    id: Seq<char>,
    path: Seq<char>,
    file_name: Seq<char>,
    file_type: Seq<char>,
    file_metadata: MediaMetadataView,
    format_metadata: MediaMetadataView,
) -> MediaFileView {
    MediaFileView {
        id,
        file_path: path,
        file_name,
        file_type,
        mime_type: format_metadata.mime_type,
        file_size: file_metadata.file_size,
        width: format_metadata.width,
        height: format_metadata.height,
        exif_timestamp: format_metadata.exif_timestamp,
        exif_timezone_offset: format_metadata.exif_timezone_offset,
        create_time: file_metadata.create_time,
        modify_time: file_metadata.modify_time,
        last_scanned: None,
        camera_make: format_metadata.camera_make,
        camera_model: format_metadata.camera_model,
        lens_model: format_metadata.lens_model,
        exposure_time: format_metadata.exposure_time,
        aperture: format_metadata.aperture,
        iso: format_metadata.iso,
        focal_length: format_metadata.focal_length,
        duration_ms: format_metadata.duration_ms,
        video_codec: format_metadata.video_codec,
        thumbnail_generated: false,
    }
}

/// Build a MediaFile from metadata extracted from a file.
pub fn build_media_file(
    path: &str,
    file_name: String,
    file_type: &str,
    file_metadata: &MediaMetadata,
    format_metadata: &MediaMetadata,
) -> (r: MediaFile)
    ensures
        r@ == built_record(
            r.id@,
            path@,
            file_name@,
            file_type@,
            file_metadata@,
            format_metadata@,
        ),
        r.id@.len() == 36,
{
    let mut media_file = MediaFile::new(
        String::from_str(path),
        file_name,
        String::from_str(file_type),
    );
    media_file.file_size = file_metadata.file_size;
    media_file.create_time = file_metadata.create_time;
    media_file.modify_time = file_metadata.modify_time;
    media_file.mime_type = format_metadata.mime_type.clone();
    media_file.width = format_metadata.width;
    media_file.height = format_metadata.height;
    media_file.exif_timestamp = format_metadata.exif_timestamp;
    media_file.exif_timezone_offset = format_metadata.exif_timezone_offset.clone();
    media_file.camera_make = format_metadata.camera_make.clone();
    media_file.camera_model = format_metadata.camera_model.clone();
    media_file.lens_model = format_metadata.lens_model.clone();
    media_file.exposure_time = format_metadata.exposure_time.clone();
    media_file.aperture = format_metadata.aperture.clone();
    media_file.iso = format_metadata.iso;
    media_file.focal_length = format_metadata.focal_length.clone();
    media_file.duration_ms = format_metadata.duration_ms;
    media_file.video_codec = format_metadata.video_codec.clone();
    media_file
}

/// The file type that the catalog stores for a processor's media type.
pub open spec fn file_type_name(media_type: MediaType) -> Seq<char> {
    if media_type == MediaType::Video {
        "video"@
    } else {
        "image"@
    }
}

/// The name under which a file is catalogued: the final component of its
/// path, `unknown` where it has none.
pub open spec fn catalog_name(path: Seq<char>) -> Seq<char> {
    match path_file_name(path) {
        Some(n) => n,
        None => "unknown"@,
    }
}

/// Result of processing a single file.
#[derive(Debug, Clone)]
pub struct ProcessingResult {
    pub path: String,
    pub success: Option<MediaFile>,
    pub error: Option<String>,
}

/// [`ProcessingResult`] with its texts as character sequences.
pub struct ProcessingResultView {
    pub path: Seq<char>,
    pub success: Option<MediaFileView>,
    pub error: Option<Seq<char>>,
}

impl View for ProcessingResult {
    type V = ProcessingResultView;

    open spec fn view(&self) -> ProcessingResultView {
        ProcessingResultView {
            path: self.path@,
            success: match self.success {
                Some(f) => Some(f@),
                None => None,
            },
            error: text_of(self.error),
        }
    }
}

/// Assembles the result for one file from what the extractors gave: the
/// record where the format's processor succeeded, its error otherwise.
pub fn process_file_to_result(
    path: &str,
    media_type: MediaType,
    file_metadata: &MediaMetadata,
    format_metadata: Result<MediaMetadata, String>,
) -> (r: ProcessingResult)
    ensures
        r.path@ == path@,
        match format_metadata {
            Ok(m) => r.error is None && r.success is Some && r.success.unwrap()@ == built_record(
                r.success.unwrap().id@,
                path@,
                catalog_name(path@),
                file_type_name(media_type),
                file_metadata@,
                m@,
            ),
            Err(e) => r.success is None && text_of(r.error) == Some(e@),
        },
{
    match format_metadata {
        Ok(m) => {
            let name = match file_name(path) {
                Some(n) => n,
                None => String::from_str("unknown"),
            };
            let file_type = if media_type == MediaType::Video {
                "video"
            } else {
                "image"
            };
            let record = build_media_file(path, name, file_type, file_metadata, &m);
            ProcessingResult { path: String::from_str(path), success: Some(record), error: None }
        },
        Err(e) => ProcessingResult { path: String::from_str(path), success: None, error: Some(e) },
    }
}

/// Sorts paths into lexicographic order: the result holds the same paths,
/// each as often as before.
pub fn sort_paths(paths: Vec<String>) -> (r: Vec<String>)
    ensures
        is_sorted(texts(r@)),
        texts(r@).to_multiset() == texts(paths@).to_multiset(),
        r@.len() == paths@.len(),
{
    sort_texts(paths)
}

/// Where the engine stands.
#[derive(Debug, Clone, Copy, PartialEq, Eq, Structural)]
pub enum ScanStage {
    /// No scan is running.
    Idle,
    /// The directory tree is being walked.
    Collecting,
    /// The collected files are compared with the catalog, chunk by chunk.
    Counting,
    /// The records without a file are being counted.
    CountingMissing,
    /// Metadata is being extracted.
    Processing,
    /// The processed records are being written, chunk by chunk.
    Writing,
    /// The unchanged files are being marked as scanned.
    Touching,
    /// The records without a file are being deleted.
    Deleting,
}

/// What the caller does next.
#[derive(Debug, Clone, Copy, PartialEq, Eq, Structural)]
pub enum ScanCommand {
    /// Walk the base path and report the files found.
    Collect,
    /// Look the files `from..to` up in the catalog and read their
    /// modification times.
    CheckExisting { from: usize, to: usize },
    /// Count the catalog records that are missing from the collected files.
    CountMissing,
    /// Extract the metadata of the files to process, reporting each result.
    Extract,
    /// Upsert the records of the results `from..to` in one transaction.
    Upsert { from: usize, to: usize },
    /// Mark the files of the skip list as scanned.
    Touch,
    /// Delete the catalog records that are missing from the collected files.
    DeleteMissing,
    /// The scan has ended; nothing is left to do.
    Finish,
}

/// One step of a scan: the progress updates to post, in order, and the
/// command to carry out.
#[derive(Debug)]
pub struct ScanStep {
    pub updates: Vec<ProgressUpdate>,
    pub command: ScanCommand,
}

/// Service for scanning media files: the state of one scan at a time.
#[derive(Debug)]
pub struct ScanService {
    /// Chunk size of the existence check.
    pub batch_check_size: usize,
    /// Chunk size of the writes.
    pub batch_write_size: usize,
    pub stage: ScanStage,
    pub is_scanning: bool,
    pub is_cancelled: bool,
    /// The files collected, in the order reported.
    pub files: Vec<String>,
    /// How many of the files have been compared with the catalog.
    pub checked: usize,
    pub files_to_add: u64,
    pub files_to_update: u64,
    pub files_to_delete: u64,
    /// The unchanged files.
    pub skip_list: Vec<String>,
    /// The files to extract, sorted by path once counting is done.
    pub to_process: Vec<String>,
    /// One slot for each file to process, filled when its result arrives.
    pub results: Vec<Option<ProcessingResult>>,
    /// How many results have been counted.
    pub reported: usize,
    /// How many slots have been handed to the writer.
    pub written: usize,
    /// Whether cancellation was seen when the chunk being written began.
    pub chunk_cancelled: bool,
    /// Records written, and records that failed to process or to write.
    pub success_count: u64,
    pub failure_count: u64,
}

/// The end of the chunk of `size` items that starts at `from`, in a list of
/// `len` items.
pub open spec fn chunk_end(from: int, size: int, len: int) -> int {
    if from + size < len {
        from + size
    } else {
        len
    }
}

/// The number of slots that hold a result.
pub open spec fn filled(results: Seq<Option<ProcessingResult>>) -> nat {
    results.filter(|s: Option<ProcessingResult>| s is Some).len()
}

impl ScanService {
    /// The counters and lists are consistent: every classified file is to be
    /// added, updated or skipped; there is a slot for each file to process
    /// while results come in; and no more results are counted than slots are
    /// filled.
    pub open spec fn wf(&self) -> bool {
        &&& self.batch_check_size > 0
        &&& self.batch_write_size > 0
        &&& self.is_scanning == (self.stage != ScanStage::Idle)
        &&& self.checked <= self.files@.len()
        &&& self.to_process@.len() + self.skip_list@.len() == self.checked
        &&& self.files_to_add + self.files_to_update == self.to_process@.len()
        &&& (self.stage == ScanStage::Processing || self.stage == ScanStage::Writing
            ==> self.results@.len() == self.to_process@.len())
        &&& (self.stage == ScanStage::Counting ==> self.checked < self.files@.len())
        &&& (self.stage == ScanStage::Processing ==> self.results@.len() > 0)
        &&& self.reported == filled(self.results@)
        &&& self.reported <= self.results@.len()
        &&& self.results@.len() <= self.to_process@.len()
        &&& self.written <= self.results@.len()
        &&& (self.stage == ScanStage::Writing ==> self.written < self.results@.len())
        &&& self.success_count + self.failure_count <= self.written
    }

    /// Whether the engine is well-formed; for callers that cannot prove it.
    pub fn is_well_formed(&self) -> (r: bool)
        ensures
            r == self.wf(),
    {
        let ghost is_some = |s: Option<ProcessingResult>| s is Some;
        let mut count: usize = 0;
        let mut i: usize = 0;
        proof {
            reveal(Seq::filter);
        }
        while i < self.results.len()
            invariant
                i <= self.results@.len(),
                is_some == (|s: Option<ProcessingResult>| s is Some),
                count == self.results@.subrange(0, i as int).filter(is_some).len(),
                count <= i,
            decreases self.results.len() - i,
        {
            proof {
                crate::db::repository::lemma_filter_step(self.results@, i as int, is_some);
            }
            if self.results[i].is_some() {
                count = count + 1;
            }
            i = i + 1;
        }
        assert(self.results@.subrange(0, i as int) == self.results@);
        let n_process = self.to_process.len();
        let n_results = self.results.len();
        let counting = matches!(self.stage, ScanStage::Counting);
        let processing = matches!(self.stage, ScanStage::Processing);
        let writing = matches!(self.stage, ScanStage::Writing);
        let idle = matches!(self.stage, ScanStage::Idle);
        self.batch_check_size > 0 && self.batch_write_size > 0 && self.is_scanning == !idle
            && self.checked <= self.files.len() && self.skip_list.len() <= self.checked
            && n_process == self.checked - self.skip_list.len() && self.files_to_add
            <= n_process as u64 && self.files_to_update == n_process as u64 - self.files_to_add && (
        !(processing || writing) || n_results == n_process) && (!counting || self.checked
            < self.files.len()) && (!processing || n_results > 0) && self.reported == count
            && n_results <= n_process && self.written <= n_results && (!writing || self.written
            < n_results) && self.success_count <= self.written as u64 && self.failure_count
            <= self.written as u64 - self.success_count
    }

    /// An idle engine with the chunk sizes of the configuration; a size of
    /// 0 counts as 1.
    pub fn new(config: &Config) -> (r: ScanService)
        ensures
            r.wf(),
            r.stage == ScanStage::Idle,
            !r.is_scanning,
            !r.is_cancelled,
            r.batch_check_size == (if config.db_batch_check_size == 0 {
                1
            } else {
                config.db_batch_check_size
            }),
            r.batch_write_size == (if config.db_batch_write_size == 0 {
                1
            } else {
                config.db_batch_write_size
            }),
            r.files@.len() == 0,
    {
        let r = ScanService {
            batch_check_size: if config.db_batch_check_size == 0 {
                1
            } else {
                config.db_batch_check_size
            },
            batch_write_size: if config.db_batch_write_size == 0 {
                1
            } else {
                config.db_batch_write_size
            },
            stage: ScanStage::Idle,
            is_scanning: false,
            is_cancelled: false,
            files: Vec::new(),
            checked: 0,
            files_to_add: 0,
            files_to_update: 0,
            files_to_delete: 0,
            skip_list: Vec::new(),
            to_process: Vec::new(),
            results: Vec::new(),
            reported: 0,
            written: 0,
            chunk_cancelled: false,
            success_count: 0,
            failure_count: 0,
        };
        proof {
            reveal(Seq::filter);
        }
        r
    }

    fn clear(&mut self)
        ensures
            final(self).batch_check_size == old(self).batch_check_size,
            final(self).batch_write_size == old(self).batch_write_size,
            final(self).stage == old(self).stage,
            final(self).is_scanning == old(self).is_scanning,
            final(self).is_cancelled == old(self).is_cancelled,
            final(self).files@.len() == 0,
            final(self).checked == 0,
            final(self).files_to_add == 0,
            final(self).files_to_update == 0,
            final(self).files_to_delete == 0,
            final(self).skip_list@.len() == 0,
            final(self).to_process@.len() == 0,
            final(self).results@.len() == 0,
            final(self).reported == 0,
            final(self).written == 0,
            !final(self).chunk_cancelled,
            final(self).success_count == 0,
            final(self).failure_count == 0,
            filled(final(self).results@) == 0,
    {
        self.files = Vec::new();
        self.checked = 0;
        self.files_to_add = 0;
        self.files_to_update = 0;
        self.files_to_delete = 0;
        self.skip_list = Vec::new();
        self.to_process = Vec::new();
        self.results = Vec::new();
        self.reported = 0;
        self.written = 0;
        self.chunk_cancelled = false;
        self.success_count = 0;
        self.failure_count = 0;
        proof {
            reveal(Seq::filter);
        }
    }

    fn finish(&mut self, last: ProgressUpdate) -> (r: ScanStep)
        requires
            old(self).wf(),
        ensures
            final(self).wf(),
            *final(self) == (ScanService {
                stage: ScanStage::Idle,
                is_scanning: false,
                ..*old(self)
            }),
            r.command == ScanCommand::Finish,
            r.updates@ == seq![last],
    {
        self.stage = ScanStage::Idle;
        self.is_scanning = false;
        let mut updates: Vec<ProgressUpdate> = Vec::new();
        updates.push(last);
        ScanStep { updates, command: ScanCommand::Finish }
    }

    /// Start a scan operation. `None` where a scan is already in progress,
    /// which then goes on undisturbed; otherwise everything is reset, the
    /// start is announced and the first command is to collect the files.
    pub fn scan(&mut self) -> (r: Option<ScanStep>)
        requires
            old(self).wf(),
        ensures
            final(self).wf(),
            r matches Some(step) ==> progress_step(*old(self), *final(self), step.updates@),
            old(self).is_scanning ==> r is None && *final(self) == *old(self),
            !old(self).is_scanning ==> {
                &&& r is Some
                &&& r.unwrap().command == ScanCommand::Collect
                &&& r.unwrap().updates@ == seq![
                    ProgressUpdate::Started,
                    ProgressUpdate::SetPhase(ScanPhase::Collecting),
                ]
                &&& final(self).stage == ScanStage::Collecting
                &&& final(self).is_scanning
                &&& !final(self).is_cancelled
                &&& final(self).files@.len() == 0
                &&& final(self).files_to_add == 0
                &&& final(self).files_to_update == 0
                &&& final(self).files_to_delete == 0
                &&& final(self).success_count == 0
                &&& final(self).failure_count == 0
                &&& final(self).reported == 0
            },
    {
        if self.is_scanning {
            return None;
        }
        self.clear();
        self.is_scanning = true;
        self.is_cancelled = false;
        self.stage = ScanStage::Collecting;
        let mut updates: Vec<ProgressUpdate> = Vec::new();
        updates.push(ProgressUpdate::Started);
        updates.push(ProgressUpdate::SetPhase(ScanPhase::Collecting));
        assert(updates@ == seq![
            ProgressUpdate::Started,
            ProgressUpdate::SetPhase(ScanPhase::Collecting),
        ]);
        Some(ScanStep { updates, command: ScanCommand::Collect })
    }

    /// Cancel the current scan: sets the flag that every later step
    /// observes. Says whether a scan was running.
    pub fn cancel(&mut self) -> (r: bool)
        ensures
            r == old(self).is_scanning,
            *final(self) == (ScanService {
                is_cancelled: old(self).is_cancelled || old(self).is_scanning,
                ..*old(self)
            }),
            old(self).wf() ==> final(self).wf(),
    {
        if self.is_scanning {
            self.is_cancelled = true;
            true
        } else {
            false
        }
    }
}

/// What the catalog knows of a path: the stored modification time of its
/// record, `None` where it has no record. A failed lookup knows nothing.
pub open spec fn known_of(existing: Option<Seq<MediaFileView>>, path: Seq<char>) -> Option<
    Option<i64>,
> {
    match existing {
        Some(recs) => {
            let at = crate::text::first_index(crate::db::repository::paths_of(recs), path);
            if at < recs.len() {
                Some(recs[at].modify_time)
            } else {
                None
            }
        },
        None => None,
    }
}

/// The records of an answer of the catalog, if there is one.
pub open spec fn catalog_of(repo: Option<crate::db::repository::MediaFileRepository>) -> Option<
    Catalog,
> {
    match repo {
        Some(e) => Some(e@),
        None => None,
    }
}

/// The change of the `i`-th path of a chunk.
pub open spec fn change_at(
    paths: Seq<Seq<char>>,
    existing: Option<Seq<MediaFileView>>,
    modify_times: Seq<Option<u64>>,
    i: int,
) -> FileChange {
    change_of(known_of(existing, paths[i]), modify_times[i])
}

/// The first `n` paths of a chunk that are skipped (`skipped` set) or that
/// are to be processed (`skipped` unset), in order.
pub open spec fn chosen(
    paths: Seq<Seq<char>>,
    existing: Option<Seq<MediaFileView>>,
    modify_times: Seq<Option<u64>>,
    skipped: bool,
    n: int,
) -> Seq<Seq<char>>
    decreases n,
{
    if n <= 0 {
        Seq::empty()
    } else {
        let before = chosen(paths, existing, modify_times, skipped, n - 1);
        if (change_at(paths, existing, modify_times, n - 1) == FileChange::Skip) == skipped {
            before.push(paths[n - 1])
        } else {
            before
        }
    }
}

/// How many of the first `n` paths of a chunk have the change `want`.
pub open spec fn change_count(
    paths: Seq<Seq<char>>,
    existing: Option<Seq<MediaFileView>>,
    modify_times: Seq<Option<u64>>,
    want: FileChange,
    n: int,
) -> nat
    decreases n,
{
    if n <= 0 {
        0
    } else {
        change_count(paths, existing, modify_times, want, n - 1) + (if change_at(
            paths,
            existing,
            modify_times,
            n - 1,
        ) == want {
            1nat
        } else {
            0nat
        })
    }
}

/// The records of the slots `from..to` that hold a successful result, in
/// order.
pub open spec fn successes(results: Seq<Option<ProcessingResult>>, from: int, to: int) -> Seq<
    MediaFileView,
>
    decreases to - from,
{
    if to <= from {
        Seq::empty()
    } else {
        let before = successes(results, from, to - 1);
        match results[to - 1] {
            Some(r) => match r.success {
                Some(f) => before.push(f@),
                None => before,
            },
            None => before,
        }
    }
}

/// How many of the slots `from..to` hold a failed result.
pub open spec fn failures(results: Seq<Option<ProcessingResult>>, from: int, to: int) -> nat
    decreases to - from,
{
    if to <= from {
        0
    } else {
        failures(results, from, to - 1) + (match results[to - 1] {
            Some(r) => if r.success is None {
                1nat
            } else {
                0nat
            },
            None => 0nat,
        })
    }
}

/// Filling an empty slot adds one to the number of filled slots.
pub proof fn lemma_filled_update(
    results: Seq<Option<ProcessingResult>>,
    i: int,
    r: ProcessingResult,
)
    requires
        0 <= i < results.len(),
        results[i] is None,
    ensures
        filled(results.update(i, Some(r))) == filled(results) + 1,
        filled(results) < results.len(),
    decreases results.len(),
{
    reveal(Seq::filter);
    let is_some = |s: Option<ProcessingResult>| s is Some;
    let after = results.update(i, Some(r));
    if i == results.len() - 1 {
        assert(after.drop_last() == results.drop_last());
        results.drop_last().filter_lemma(is_some);
    } else {
        lemma_filled_update(results.drop_last(), i, r);
        assert(after.drop_last() == results.drop_last().update(i, Some(r)));
    }
}

/// A list of empty slots has no filled slot.
pub proof fn lemma_filled_none(results: Seq<Option<ProcessingResult>>)
    requires
        forall|i: int| 0 <= i < results.len() ==> results[i] is None,
    ensures
        filled(results) == 0,
    decreases results.len(),
{
    reveal(Seq::filter);
    if results.len() > 0 {
        lemma_filled_none(results.drop_last());
    }
}

impl ScanService {
    /// The end of the chunk of the existence check that starts at `from`.
    pub open spec fn check_end(&self, from: int) -> int {
        chunk_end(from, self.batch_check_size as int, self.files@.len() as int)
    }

    /// The end of the chunk of writes that starts at `from`.
    pub open spec fn write_end(&self, from: int) -> int {
        chunk_end(from, self.batch_write_size as int, self.results@.len() as int)
    }

    fn end_of_chunk(from: usize, size: usize, len: usize) -> (r: usize)
        requires
            from <= len,
        ensures
            r == chunk_end(from as int, size as int, len as int),
            from <= r <= len,
            size > 0 && from < len ==> from < r,
    {
        if size < len - from {
            from + size
        } else {
            len
        }
    }

    /// Takes the files that the walk found. Only the files on the allowlist
    /// of extensions are kept. A failed walk ends the scan with an error; a
    /// cancelled scan ends here. With no file left there is nothing to
    /// count, extract or write, and the scan goes on to delete what is
    /// missing; otherwise the first chunk is checked against the catalog.
    pub fn on_collected(&mut self, found: Option<Vec<String>>) -> (r: ScanStep)
        requires
            old(self).wf(),
            old(self).stage == ScanStage::Collecting,
        ensures
            final(self).wf(),
            progress_step(*old(self), *final(self), r.updates@),
            final(self).batch_check_size == old(self).batch_check_size,
            final(self).batch_write_size == old(self).batch_write_size,
            final(self).is_cancelled == old(self).is_cancelled,
            final(self).files_to_add == 0 && final(self).files_to_update == 0
                && final(self).files_to_delete == 0,
            final(self).success_count == 0 && final(self).failure_count == 0,
            found is None ==> r.command == ScanCommand::Finish && r.updates@ == seq![
                ProgressUpdate::Error,
            ] && final(self).stage == ScanStage::Idle,
            found is Some && old(self).is_cancelled ==> r.command == ScanCommand::Finish
                && r.updates@ == seq![ProgressUpdate::Cancelled] && final(self).stage
                == ScanStage::Idle,
            found is Some && !old(self).is_cancelled ==> {
                let kept = texts(found.unwrap()@).filter(|p: Seq<char>| is_collected(p));
                &&& texts(final(self).files@) == kept
                &&& final(self).checked == 0
                &&& kept.len() == 0 ==> {
                    &&& final(self).stage == ScanStage::Deleting
                    &&& r.command == ScanCommand::DeleteMissing
                    &&& r.updates@ == seq![
                        ProgressUpdate::SetTotal(0),
                        ProgressUpdate::SetPhase(ScanPhase::Deleting),
                    ]
                }
                &&& kept.len() > 0 ==> {
                    &&& final(self).stage == ScanStage::Counting
                    &&& r.command == (ScanCommand::CheckExisting {
                        from: 0,
                        to: final(self).check_end(0) as usize,
                    })
                    &&& r.updates@ == seq![
                        ProgressUpdate::SetTotal(kept.len() as u64),
                        ProgressUpdate::SetPhase(ScanPhase::Counting),
                    ]
                }
            },
    {
        proof {
            reveal(Seq::filter);
        }
        self.clear();
        let list = match found {
            None => {
                return self.finish(ProgressUpdate::Error);
            },
            Some(list) => list,
        };
        if self.is_cancelled {
            return self.finish(ProgressUpdate::Cancelled);
        }
        let ghost keep = |p: Seq<char>| is_collected(p);
        let mut files: Vec<String> = Vec::new();
        let mut i: usize = 0;
        while i < list.len()
            invariant
                i <= list.len(),
                keep == (|p: Seq<char>| is_collected(p)),
                texts(files@) == texts(list@).subrange(0, i as int).filter(keep),
            decreases list.len() - i,
        {
            proof {
                crate::db::repository::lemma_filter_step(texts(list@), i as int, keep);
            }
            if is_supported_media(list[i].as_str()) {
                let ghost before = texts(files@);
                files.push(list[i].clone());
                assert(texts(files@) =~= before.push(list@[i as int]@));
            }
            i = i + 1;
        }
        assert(texts(list@).subrange(0, i as int) == texts(list@));
        self.files = files;
        let total: usize = self.files.len();
        let mut updates: Vec<ProgressUpdate> = Vec::new();
        updates.push(ProgressUpdate::SetTotal(total as u64));
        assert(texts(self.files@).len() == self.files@.len());
        if total == 0 {
            self.stage = ScanStage::Deleting;
            updates.push(ProgressUpdate::SetPhase(ScanPhase::Deleting));
            ScanStep { updates, command: ScanCommand::DeleteMissing }
        } else {
            self.stage = ScanStage::Counting;
            updates.push(ProgressUpdate::SetPhase(ScanPhase::Counting));
            let to = Self::end_of_chunk(0, self.batch_check_size, total);
            ScanStep { updates, command: ScanCommand::CheckExisting { from: 0, to } }
        }
    }

    /// Takes the answer of the catalog for the chunk that was asked for, and
    /// the modification times of its files. `existing` holds the catalog's
    /// records among the chunk, or nothing where the lookup failed: every
    /// file of the chunk then counts as new. A file is skipped where its
    /// modification time equals the stored one. A cancelled scan ends here.
    pub fn on_checked(&mut self, existing: Option<Vec<MediaFile>>, modify_times: Vec<Option<u64>>) -> (r:
        ScanStep)
        requires
            old(self).wf(),
            old(self).stage == ScanStage::Counting,
            modify_times@.len() == old(self).check_end(old(self).checked as int) - old(
                self,
            ).checked,
        ensures
            final(self).wf(),
            progress_step(*old(self), *final(self), r.updates@),
            final(self).batch_check_size == old(self).batch_check_size,
            final(self).batch_write_size == old(self).batch_write_size,
            final(self).is_cancelled == old(self).is_cancelled,
            final(self).files@ == old(self).files@,
            old(self).is_cancelled ==> r.command == ScanCommand::Finish && r.updates@ == seq![
                ProgressUpdate::Cancelled,
            ] && final(self).stage == ScanStage::Idle,
            !old(self).is_cancelled ==> {
                let from = old(self).checked as int;
                let to = old(self).check_end(from);
                let chunk = texts(old(self).files@).subrange(from, to);
                let known = match existing {
                    Some(e) => Some(e@.map_values(|x: MediaFile| x@)),
                    None => None,
                };
                &&& final(self).checked == to
                &&& texts(final(self).to_process@) == texts(old(self).to_process@) + chosen(
                    chunk,
                    known,
                    modify_times@,
                    false,
                    to - from,
                )
                &&& texts(final(self).skip_list@) == texts(old(self).skip_list@) + chosen(
                    chunk,
                    known,
                    modify_times@,
                    true,
                    to - from,
                )
                &&& final(self).files_to_add == old(self).files_to_add + change_count(
                    chunk,
                    known,
                    modify_times@,
                    FileChange::Add,
                    to - from,
                )
                &&& final(self).files_to_update == old(self).files_to_update + change_count(
                    chunk,
                    known,
                    modify_times@,
                    FileChange::Update,
                    to - from,
                )
                &&& r.updates@.len() == 0
                &&& to < old(self).files@.len() ==> final(self).stage == ScanStage::Counting
                    && r.command == (ScanCommand::CheckExisting {
                    from: to as usize,
                    to: final(self).check_end(to) as usize,
                })
                &&& to == old(self).files@.len() ==> final(self).stage
                    == ScanStage::CountingMissing && r.command == ScanCommand::CountMissing
            },
    {
        if self.is_cancelled {
            return self.finish(ProgressUpdate::Cancelled);
        }
        let from: usize = self.checked;
        let to: usize = Self::end_of_chunk(from, self.batch_check_size, self.files.len());
        let repo = match existing {
            Some(e) => Some(crate::db::repository::MediaFileRepository { records: e }),
            None => None,
        };
        let ghost known = catalog_of(repo);
        let ghost chunk = texts(self.files@).subrange(from as int, to as int);
        let ghost process0 = texts(self.to_process@);
        let ghost skip0 = texts(self.skip_list@);
        let ghost add0 = self.files_to_add;
        let ghost update0 = self.files_to_update;
        let mut k: usize = 0;
        while k < to - from
            invariant
                k <= to - from,
                from <= to <= self.files@.len(),
                from == old(self).checked,
                self.files@ == old(self).files@,
                modify_times@.len() == to - from,
                chunk == texts(self.files@).subrange(from as int, to as int),
                known == catalog_of(repo),
                texts(self.to_process@) == process0 + chosen(
                    chunk,
                    known,
                    modify_times@,
                    false,
                    k as int,
                ),
                texts(self.skip_list@) == skip0 + chosen(
                    chunk,
                    known,
                    modify_times@,
                    true,
                    k as int,
                ),
                self.files_to_add == add0 + change_count(
                    chunk,
                    known,
                    modify_times@,
                    FileChange::Add,
                    k as int,
                ),
                self.files_to_update == update0 + change_count(
                    chunk,
                    known,
                    modify_times@,
                    FileChange::Update,
                    k as int,
                ),
                self.to_process@.len() + self.skip_list@.len() == from + k,
                self.files_to_add + self.files_to_update == self.to_process@.len(),
                self.batch_check_size == old(self).batch_check_size,
                self.batch_write_size == old(self).batch_write_size,
                self.is_cancelled == old(self).is_cancelled,
                self.stage == old(self).stage,
                self.is_scanning == old(self).is_scanning,
                self.results@ == old(self).results@,
                self.reported == old(self).reported,
                self.written == old(self).written,
                self.success_count == old(self).success_count,
                self.failure_count == old(self).failure_count,
                self.checked == old(self).checked,
            decreases to - from - k,
        {
            let path = &self.files[from + k];
            assert(chunk[k as int] == path@);
            let change = match &repo {
                Some(e) => classify(e.find_by_path(path.as_str()), modify_times[k]),
                None => classify(None, modify_times[k]),
            };
            assert(change == change_at(chunk, known, modify_times@, k as int));
            let copy = path.clone();
            match change {
                FileChange::Skip => {
                    let ghost before = texts(self.skip_list@);
                    self.skip_list.push(copy);
                    assert(texts(self.skip_list@) =~= before.push(path@));
                },
                FileChange::Add => {
                    let ghost before = texts(self.to_process@);
                    self.to_process.push(copy);
                    assert(texts(self.to_process@) =~= before.push(path@));
                    self.files_to_add = self.files_to_add + 1;
                },
                FileChange::Update => {
                    let ghost before = texts(self.to_process@);
                    self.to_process.push(copy);
                    assert(texts(self.to_process@) =~= before.push(path@));
                    self.files_to_update = self.files_to_update + 1;
                },
            }
            k = k + 1;
        }
        self.checked = to;
        let updates: Vec<ProgressUpdate> = Vec::new();
        if to < self.files.len() {
            let next = Self::end_of_chunk(to, self.batch_check_size, self.files.len());
            ScanStep { updates, command: ScanCommand::CheckExisting { from: to, to: next } }
        } else {
            self.stage = ScanStage::CountingMissing;
            ScanStep { updates, command: ScanCommand::CountMissing }
        }
    }
}

impl ScanService {
    /// Takes the number of catalog records without a file, or nothing where
    /// it could not be counted, which counts as none. With files to process
    /// their paths are sorted, a slot is made for each, and extraction
    /// begins; with none the scan goes on to touch the unchanged files. A
    /// cancelled scan ends here.
    pub fn on_missing_counted(&mut self, missing: Option<u64>) -> (r: ScanStep)
        requires
            old(self).wf(),
            old(self).stage == ScanStage::CountingMissing,
        ensures
            final(self).wf(),
            progress_step(*old(self), *final(self), r.updates@),
            final(self).batch_check_size == old(self).batch_check_size,
            final(self).batch_write_size == old(self).batch_write_size,
            final(self).is_cancelled == old(self).is_cancelled,
            final(self).files@ == old(self).files@,
            final(self).skip_list@ == old(self).skip_list@,
            final(self).checked == old(self).checked,
            final(self).files_to_add == old(self).files_to_add,
            final(self).files_to_update == old(self).files_to_update,
            final(self).files_to_delete == missing.unwrap_or(0),
            final(self).reported == 0,
            final(self).written == 0,
            final(self).success_count == 0 && final(self).failure_count == 0,
            old(self).is_cancelled ==> r.command == ScanCommand::Finish && r.updates@ == seq![
                ProgressUpdate::Cancelled,
            ] && final(self).stage == ScanStage::Idle,
            !old(self).is_cancelled && old(self).to_process@.len() > 0 ==> {
                &&& final(self).stage == ScanStage::Processing
                &&& r.command == ScanCommand::Extract
                &&& r.updates@ == seq![
                    ProgressUpdate::SetFileCounts(
                        old(self).files_to_add,
                        old(self).files_to_update,
                        missing.unwrap_or(0),
                    ),
                    ProgressUpdate::SetPhase(ScanPhase::Processing),
                    ProgressUpdate::SetTotal(old(self).to_process@.len() as u64),
                ]
                &&& is_sorted(texts(final(self).to_process@))
                &&& texts(final(self).to_process@).to_multiset() == texts(
                    old(self).to_process@,
                ).to_multiset()
                &&& final(self).results@.len() == old(self).to_process@.len()
                &&& forall|i: int|
                    0 <= i < final(self).results@.len() ==> final(self).results@[i] is None
            },
            !old(self).is_cancelled && old(self).to_process@.len() == 0 ==> {
                &&& final(self).stage == ScanStage::Touching
                &&& r.command == ScanCommand::Touch
                &&& r.updates@ == seq![
                    ProgressUpdate::SetFileCounts(0, 0, missing.unwrap_or(0)),
                    ProgressUpdate::SetPhase(ScanPhase::Writing),
                ]
                &&& final(self).to_process@.len() == 0
            },
    {
        self.files_to_delete = match missing {
            Some(n) => n,
            None => 0,
        };
        self.results = Vec::new();
        self.reported = 0;
        self.written = 0;
        self.success_count = 0;
        self.failure_count = 0;
        proof {
            lemma_filled_none(self.results@);
        }
        if self.is_cancelled {
            return self.finish(ProgressUpdate::Cancelled);
        }
        let mut updates: Vec<ProgressUpdate> = Vec::new();
        let count: usize = self.to_process.len();
        if count > 0 {
            updates.push(
                ProgressUpdate::SetFileCounts(
                    self.files_to_add,
                    self.files_to_update,
                    self.files_to_delete,
                ),
            );
            updates.push(ProgressUpdate::SetPhase(ScanPhase::Processing));
            updates.push(ProgressUpdate::SetTotal(count as u64));
            let mut unsorted: Vec<String> = Vec::new();
            std::mem::swap(&mut unsorted, &mut self.to_process);
            self.to_process = sort_paths(unsorted);
            let mut slots: Vec<Option<ProcessingResult>> = Vec::new();
            let mut i: usize = 0;
            while i < count
                invariant
                    i <= count,
                    slots@.len() == i,
                    forall|j: int| 0 <= j < i ==> slots@[j] is None,
                decreases count - i,
            {
                slots.push(None);
                i = i + 1;
            }
            proof {
                lemma_filled_none(slots@);
            }
            self.results = slots;
            self.stage = ScanStage::Processing;
            ScanStep { updates, command: ScanCommand::Extract }
        } else {
            updates.push(ProgressUpdate::SetFileCounts(0, 0, self.files_to_delete));
            updates.push(ProgressUpdate::SetPhase(ScanPhase::Writing));
            self.stage = ScanStage::Touching;
            ScanStep { updates, command: ScanCommand::Touch }
        }
    }

    /// Takes the result for the file to process with this index. It is
    /// dropped, and nothing is counted, where the scan is cancelled, no
    /// extraction is under way, or the file already has its result;
    /// otherwise the result takes its slot and is counted as a success or a
    /// failure.
    pub fn on_file_processed(&mut self, index: usize, result: ProcessingResult) -> (r: Option<
        ProgressUpdate,
    >)
        ensures
            old(self).wf() ==> final(self).wf(),
            old(self).wf() ==> progress_step(
                *old(self),
                *final(self),
                match r {
                    Some(u) => seq![u],
                    None => Seq::empty(),
                },
            ),
            ({
                let taken = old(self).stage == ScanStage::Processing && !old(self).is_cancelled
                    && index < old(self).results@.len() && old(self).results@[index as int]
                    is None;
                &&& !taken ==> r is None && *final(self) == *old(self)
                &&& taken ==> {
                    &&& r == Some(
                        if result.success is Some {
                            ProgressUpdate::IncrementSuccess
                        } else {
                            ProgressUpdate::IncrementFailure
                        },
                    )
                    &&& *final(self) == (ScanService {
                        results: final(self).results,
                        reported: if old(self).reported < usize::MAX {
                            (old(self).reported + 1) as usize
                        } else {
                            old(self).reported
                        },
                        ..*old(self)
                    })
                    &&& final(self).results@ == old(self).results@.update(
                        index as int,
                        Some(result),
                    )
                }
            }),
    {
        if self.stage != ScanStage::Processing || self.is_cancelled || index >= self.results.len() {
            return None;
        }
        if self.results[index].is_some() {
            return None;
        }
        let update = if result.success.is_some() {
            ProgressUpdate::IncrementSuccess
        } else {
            ProgressUpdate::IncrementFailure
        };
        proof {
            lemma_filled_update(self.results@, index as int, result);
        }
        self.results[index] = Some(result);
        if self.reported < usize::MAX {
            self.reported = self.reported + 1;
        }
        proof {
            let posted = seq![update];
            assert(posted.len() == 1 && posted[0] == update);
        }
        Some(update)
    }

    /// Ends the extraction and begins the writing with the first chunk,
    /// which is written even where the scan was cancelled meanwhile: the
    /// flag is read when a chunk begins and acted on when it is written.
    pub fn on_extracted(&mut self) -> (r: ScanStep)
        requires
            old(self).wf(),
            old(self).stage == ScanStage::Processing,
        ensures
            final(self).wf(),
            progress_step(*old(self), *final(self), r.updates@),
            *final(self) == (ScanService {
                stage: ScanStage::Writing,
                written: 0,
                chunk_cancelled: old(self).is_cancelled,
                success_count: 0,
                failure_count: 0,
                ..*old(self)
            }),
            r.updates@ == seq![ProgressUpdate::SetPhase(ScanPhase::Writing)],
            r.command == (ScanCommand::Upsert { from: 0, to: final(self).write_end(0) as usize }),
    {
        self.stage = ScanStage::Writing;
        self.written = 0;
        self.success_count = 0;
        self.failure_count = 0;
        self.chunk_cancelled = self.is_cancelled;
        let mut updates: Vec<ProgressUpdate> = Vec::new();
        updates.push(ProgressUpdate::SetPhase(ScanPhase::Writing));
        let to = Self::end_of_chunk(0, self.batch_write_size, self.results.len());
        ScanStep { updates, command: ScanCommand::Upsert { from: 0, to } }
    }

    /// The records to upsert for the slots `from..to`: those of the
    /// successful results, in order.
    pub fn upsert_chunk(&self, from: usize, to: usize) -> (r: Vec<MediaFile>)
        requires
            from <= to <= self.results@.len(),
        ensures
            r@.map_values(|f: MediaFile| f@) == successes(self.results@, from as int, to as int),
    {
        let mut out: Vec<MediaFile> = Vec::new();
        let mut i: usize = from;
        assert(out@.map_values(|f: MediaFile| f@) =~= successes(
            self.results@,
            from as int,
            from as int,
        ));
        while i < to
            invariant
                from <= i <= to <= self.results@.len(),
                out@.map_values(|f: MediaFile| f@) == successes(
                    self.results@,
                    from as int,
                    i as int,
                ),
            decreases to - i,
        {
            match &self.results[i] {
                Some(res) => match &res.success {
                    Some(f) => {
                        let ghost before = out@.map_values(|f: MediaFile| f@);
                        out.push(f.duplicate());
                        assert(out@.map_values(|f: MediaFile| f@) =~= before.push(f@));
                    },
                    None => {},
                },
                None => {},
            }
            i = i + 1;
        }
        out
    }

    /// Takes the outcome of the chunk that was written. Its records count
    /// as successes where the write succeeded and as failures where it did
    /// not; its failed results count as failures; an empty slot counts as
    /// nothing. Where cancellation was seen when the chunk began the scan
    /// ends here, without touching or deleting anything. Otherwise the next
    /// chunk follows, or, after the last, the touch of the unchanged files.
    pub fn on_upserted(&mut self, ok: bool) -> (r: ScanStep)
        requires
            old(self).wf(),
            old(self).stage == ScanStage::Writing,
        ensures
            final(self).wf(),
            progress_step(*old(self), *final(self), r.updates@),
            ({
                let from = old(self).written as int;
                let to = old(self).write_end(from);
                let good = successes(old(self).results@, from, to).len();
                let bad = failures(old(self).results@, from, to);
                let counted = ScanService {
                    written: to as usize,
                    success_count: (old(self).success_count + (if ok {
                        good
                    } else {
                        0
                    })) as u64,
                    failure_count: (old(self).failure_count + bad + (if ok {
                        0
                    } else {
                        good
                    })) as u64,
                    ..*old(self)
                };
                &&& old(self).chunk_cancelled ==> {
                    &&& *final(self) == (ScanService {
                        stage: ScanStage::Idle,
                        is_scanning: false,
                        ..counted
                    })
                    &&& r.command == ScanCommand::Finish
                    &&& r.updates@ == seq![ProgressUpdate::Cancelled]
                }
                &&& !old(self).chunk_cancelled && to < old(self).results@.len() ==> {
                    &&& *final(self) == (ScanService {
                        chunk_cancelled: old(self).is_cancelled,
                        ..counted
                    })
                    &&& r.command == (ScanCommand::Upsert {
                        from: to as usize,
                        to: old(self).write_end(to) as usize,
                    })
                    &&& r.updates@.len() == 0
                }
                &&& !old(self).chunk_cancelled && to == old(self).results@.len() ==> {
                    &&& *final(self) == (ScanService { stage: ScanStage::Touching, ..counted })
                    &&& r.command == ScanCommand::Touch
                    &&& r.updates@.len() == 0
                }
            }),
    {
        let from: usize = self.written;
        let to: usize = Self::end_of_chunk(from, self.batch_write_size, self.results.len());
        let mut good: u64 = 0;
        let mut bad: u64 = 0;
        let mut i: usize = from;
        while i < to
            invariant
                from <= i <= to <= self.results@.len(),
                good == successes(self.results@, from as int, i as int).len(),
                bad == failures(self.results@, from as int, i as int),
                good + bad <= i - from,
            decreases to - i,
        {
            match &self.results[i] {
                Some(res) => {
                    if res.success.is_some() {
                        good = good + 1;
                    } else {
                        bad = bad + 1;
                    }
                },
                None => {},
            }
            i = i + 1;
        }
        if ok {
            self.success_count = self.success_count + good;
            self.failure_count = self.failure_count + bad;
        } else {
            self.failure_count = self.failure_count + bad + good;
        }
        self.written = to;
        if self.chunk_cancelled {
            self.stage = ScanStage::Touching;
            return self.finish(ProgressUpdate::Cancelled);
        }
        let updates: Vec<ProgressUpdate> = Vec::new();
        if to < self.results.len() {
            self.chunk_cancelled = self.is_cancelled;
            let next = Self::end_of_chunk(to, self.batch_write_size, self.results.len());
            ScanStep { updates, command: ScanCommand::Upsert { from: to, to: next } }
        } else {
            self.stage = ScanStage::Touching;
            ScanStep { updates, command: ScanCommand::Touch }
        }
    }

    /// Takes the end of the touch. A cancelled scan ends here, deleting
    /// nothing; otherwise the missing records are deleted next.
    pub fn on_touched(&mut self) -> (r: ScanStep)
        requires
            old(self).wf(),
            old(self).stage == ScanStage::Touching,
        ensures
            final(self).wf(),
            progress_step(*old(self), *final(self), r.updates@),
            old(self).is_cancelled ==> {
                &&& *final(self) == (ScanService {
                    stage: ScanStage::Idle,
                    is_scanning: false,
                    ..*old(self)
                })
                &&& r.command == ScanCommand::Finish
                &&& r.updates@ == seq![ProgressUpdate::Cancelled]
            },
            !old(self).is_cancelled ==> {
                &&& *final(self) == (ScanService { stage: ScanStage::Deleting, ..*old(self) })
                &&& r.command == ScanCommand::DeleteMissing
                &&& r.updates@ == seq![ProgressUpdate::SetPhase(ScanPhase::Deleting)]
            },
    {
        if self.is_cancelled {
            return self.finish(ProgressUpdate::Cancelled);
        }
        self.stage = ScanStage::Deleting;
        let mut updates: Vec<ProgressUpdate> = Vec::new();
        updates.push(ProgressUpdate::SetPhase(ScanPhase::Deleting));
        ScanStep { updates, command: ScanCommand::DeleteMissing }
    }

    /// Takes the end of the deletion: the scan is complete.
    pub fn on_deleted(&mut self) -> (r: ScanStep)
        requires
            old(self).wf(),
            old(self).stage == ScanStage::Deleting,
        ensures
            final(self).wf(),
            progress_step(*old(self), *final(self), r.updates@),
            *final(self) == (ScanService {
                stage: ScanStage::Idle,
                is_scanning: false,
                ..*old(self)
            }),
            r.command == ScanCommand::Finish,
            r.updates@ == seq![ProgressUpdate::Completed],
    {
        self.finish(ProgressUpdate::Completed)
    }
}

/// No more results are counted than there are files to add and to update.
pub proof fn lemma_counted_results_bounded(s: ScanService)
    requires
        s.wf(),
    ensures
        s.reported <= s.files_to_add + s.files_to_update,
        s.success_count + s.failure_count <= s.files_to_add + s.files_to_update,
{
}

/// The slots after one result arrives: it takes its slot where that is in
/// range and empty, and is dropped otherwise.
pub open spec fn deliver(
    slots: Seq<Option<ProcessingResult>>,
    index: int,
    result: ProcessingResult,
) -> Seq<Option<ProcessingResult>> {
    if 0 <= index < slots.len() && slots[index] is None {
        slots.update(index, Some(result))
    } else {
        slots
    }
}

/// The slots after the first `n` of the results arrived in order.
pub open spec fn deliver_all(
    slots: Seq<Option<ProcessingResult>>,
    arrivals: Seq<(int, ProcessingResult)>,
    n: int,
) -> Seq<Option<ProcessingResult>>
    decreases n,
{
    if n <= 0 {
        slots
    } else {
        deliver(deliver_all(slots, arrivals, n - 1), arrivals[n - 1].0, arrivals[n - 1].1)
    }
}

/// No two arrivals are for the same file.
pub open spec fn distinct_arrivals(arrivals: Seq<(int, ProcessingResult)>) -> bool {
    forall|a: int, b: int|
        0 <= a < arrivals.len() && 0 <= b < arrivals.len() && a != b ==> (#[trigger] arrivals[a]).0
            != (#[trigger] arrivals[b]).0
}

/// What the slots hold after results for distinct files arrived: each file
/// that a result arrived for holds that result, every other slot is empty.
pub proof fn lemma_deliver_all(
    slots: Seq<Option<ProcessingResult>>,
    arrivals: Seq<(int, ProcessingResult)>,
    n: int,
)
    requires
        forall|i: int| 0 <= i < slots.len() ==> slots[i] is None,
        distinct_arrivals(arrivals),
        0 <= n <= arrivals.len(),
    ensures
        deliver_all(slots, arrivals, n).len() == slots.len(),
        forall|k: int|
            0 <= k < n && 0 <= (#[trigger] arrivals[k]).0 < slots.len() ==> deliver_all(
                slots,
                arrivals,
                n,
            )[arrivals[k].0] == Some(arrivals[k].1),
        forall|i: int|
            0 <= i < slots.len() && (forall|k: int| 0 <= k < n ==> (#[trigger] arrivals[k]).0 != i)
                ==> (#[trigger] deliver_all(slots, arrivals, n)[i]) is None,
    decreases n,
{
    if n > 0 {
        lemma_deliver_all(slots, arrivals, n - 1);
        let before = deliver_all(slots, arrivals, n - 1);
        let last = arrivals[n - 1];
        assert forall|k: int|
            0 <= k < n && 0 <= (#[trigger] arrivals[k]).0 < slots.len() implies deliver_all(
            slots,
            arrivals,
            n,
        )[arrivals[k].0] == Some(arrivals[k].1) by {
            if k < n - 1 {
                assert(arrivals[k].0 != last.0);
            } else {
                assert(before[last.0] is None);
            }
        }
    }
}

/// The order in which results arrive does not matter: two runs in which
/// the same results arrive, each for a file of its own, fill the slots
/// alike, whatever the order of arrival. The records handed to the writer
/// are read off the slots in the order of the sorted paths, so a serial
/// and a parallel extraction lead to the same writes.
pub proof fn lemma_arrival_order_is_immaterial(
    slots: Seq<Option<ProcessingResult>>,
    first: Seq<(int, ProcessingResult)>,
    second: Seq<(int, ProcessingResult)>,
)
    requires
        forall|i: int| 0 <= i < slots.len() ==> slots[i] is None,
        distinct_arrivals(first),
        distinct_arrivals(second),
        forall|k: int| 0 <= k < first.len() ==> second.contains(#[trigger] first[k]),
        forall|k: int| 0 <= k < second.len() ==> first.contains(#[trigger] second[k]),
    ensures
        deliver_all(slots, first, first.len() as int) == deliver_all(
            slots,
            second,
            second.len() as int,
        ),
{
    let a = deliver_all(slots, first, first.len() as int);
    let b = deliver_all(slots, second, second.len() as int);
    lemma_deliver_all(slots, first, first.len() as int);
    lemma_deliver_all(slots, second, second.len() as int);
    assert forall|i: int| 0 <= i < slots.len() implies a[i] == b[i] by {
        if exists|k: int| 0 <= k < first.len() && (#[trigger] first[k]).0 == i {
            let k = choose|k: int| 0 <= k < first.len() && (#[trigger] first[k]).0 == i;
            assert(second.contains(first[k]));
            let j = choose|j: int| 0 <= j < second.len() && second[j] == first[k];
            assert(second[j].0 == i);
        } else {
            if exists|j: int| 0 <= j < second.len() && (#[trigger] second[j]).0 == i {
                let j = choose|j: int| 0 <= j < second.len() && (#[trigger] second[j]).0 == i;
                assert(first.contains(second[j]));
                let k = choose|k: int| 0 <= k < first.len() && first[k] == second[j];
                assert(first[k].0 == i);
            }
        }
    }
    assert(a =~= b);
}

/// The catalog after a scan that ran to its end at `now`: the processed
/// records upserted, the unchanged files touched, the missing records
/// deleted.
pub open spec fn completed_scan(
    cat: Catalog,
    written: Seq<MediaFileView>,
    skip: Seq<Seq<char>>,
    existing: Seq<Seq<char>>,
    now: i64,
) -> Catalog {
    crate::db::repository::without_missing(
        crate::db::repository::touched(
            crate::db::repository::upserted_all(cat, written, written.len() as int, now),
            skip,
            now,
        ),
        existing,
    )
}

/// At the end of a scan a record that was ever scanned is present only
/// where its file exists; and a file that exists is present where it was
/// processed with success or was catalogued before. (A file whose
/// extraction failed and that was never catalogued has no record.)
pub proof fn lemma_scan_mirrors_files(
    cat: Catalog,
    written: Seq<MediaFileView>,
    skip: Seq<Seq<char>>,
    existing: Seq<Seq<char>>,
    now: i64,
)
    requires
        crate::db::repository::unique_paths(cat),
    ensures
        crate::db::repository::unique_paths(completed_scan(cat, written, skip, existing, now)),
        forall|i: int|
            0 <= i < completed_scan(cat, written, skip, existing, now).len() && (
            #[trigger] completed_scan(cat, written, skip, existing, now)[i]).last_scanned is Some
                ==> existing.contains(
                completed_scan(cat, written, skip, existing, now)[i].file_path,
            ),
        forall|k: int|
            0 <= k < written.len() && existing.contains((#[trigger] written[k]).file_path)
                ==> crate::db::repository::paths_of(
                completed_scan(cat, written, skip, existing, now),
            ).contains(written[k].file_path),
        forall|i: int|
            0 <= i < cat.len() && existing.contains((#[trigger] cat[i]).file_path)
                ==> crate::db::repository::paths_of(
                completed_scan(cat, written, skip, existing, now),
            ).contains(cat[i].file_path),
{
    let up = crate::db::repository::upserted_all(cat, written, written.len() as int, now);
    crate::db::repository::lemma_upserted_all(cat, written, written.len() as int, now);
    let t = crate::db::repository::touched(up, skip, now);
    crate::db::repository::lemma_touched(up, skip, now);
    let fin = crate::db::repository::without_missing(t, existing);
    crate::db::repository::lemma_without_missing(t, existing);
    assert forall|p: Seq<char>|
        crate::db::repository::paths_of(up).contains(p) && existing.contains(
            p,
        ) implies crate::db::repository::paths_of(fin).contains(p) by {
        let at = choose|at: int|
            0 <= at < crate::db::repository::paths_of(up).len() && crate::db::repository::paths_of(
                up,
            )[at] == p;
        assert(t[at].file_path == p);
        assert(!crate::db::repository::is_missing(t[at], existing));
        assert(fin.contains(t[at]));
        let j = choose|j: int| 0 <= j < fin.len() && fin[j] == t[at];
        assert(crate::db::repository::paths_of(fin)[j] == p);
    }
    assert forall|i: int|
        0 <= i < cat.len() && existing.contains(
            (#[trigger] cat[i]).file_path,
        ) implies crate::db::repository::paths_of(fin).contains(cat[i].file_path) by {
        assert(up[i].file_path == cat[i].file_path);
        assert(crate::db::repository::paths_of(up)[i] == cat[i].file_path);
    }
}

/// At the end of a scan in which every existing file was processed with
/// success or found unchanged, every record that was ever scanned was
/// scanned at the instant of this scan.
pub proof fn lemma_scan_refreshes_records(
    cat: Catalog,
    written: Seq<MediaFileView>,
    skip: Seq<Seq<char>>,
    existing: Seq<Seq<char>>,
    now: i64,
)
    requires
        crate::db::repository::unique_paths(cat),
        forall|p: Seq<char>|
            existing.contains(p) ==> crate::db::repository::paths_of(written).contains(p)
                || skip.contains(p),
    ensures
        forall|i: int|
            0 <= i < completed_scan(cat, written, skip, existing, now).len() && (
            #[trigger] completed_scan(cat, written, skip, existing, now)[i]).last_scanned is Some
                ==> completed_scan(cat, written, skip, existing, now)[i].last_scanned == Some(
                now,
            ),
{
    let up = crate::db::repository::upserted_all(cat, written, written.len() as int, now);
    crate::db::repository::lemma_upserted_all(cat, written, written.len() as int, now);
    let t = crate::db::repository::touched(up, skip, now);
    crate::db::repository::lemma_touched(up, skip, now);
    let fin = crate::db::repository::without_missing(t, existing);
    crate::db::repository::lemma_without_missing(t, existing);
    assert(written.subrange(0, written.len() as int) == written);
    assert forall|i: int|
        0 <= i < fin.len() && (#[trigger] fin[i]).last_scanned is Some implies fin[i].last_scanned
        == Some(now) by {
        assert(t.contains(fin[i]));
        let j = choose|j: int| 0 <= j < t.len() && t[j] == fin[i];
        let p = t[j].file_path;
        assert(existing.contains(p));
        assert(up[j].file_path == p);
        if skip.contains(p) {
        } else {
            assert(crate::db::repository::paths_of(written).contains(p));
        }
    }
}

/// At the end of any scan, whatever failed in it, a record whose file was
/// processed with success or found unchanged was scanned at the instant of
/// this scan; every other record that is left is as it was before the scan.
pub proof fn lemma_scan_stamps_what_it_reads(
    cat: Catalog,
    written: Seq<MediaFileView>,
    skip: Seq<Seq<char>>,
    existing: Seq<Seq<char>>,
    now: i64,
)
    requires
        crate::db::repository::unique_paths(cat),
    ensures
        forall|i: int|
            0 <= i < completed_scan(cat, written, skip, existing, now).len() && (
            crate::db::repository::paths_of(written).contains(
                (#[trigger] completed_scan(cat, written, skip, existing, now)[i]).file_path,
            ) || skip.contains(completed_scan(cat, written, skip, existing, now)[i].file_path))
                ==> completed_scan(cat, written, skip, existing, now)[i].last_scanned == Some(
                now,
            ),
        forall|i: int|
            0 <= i < completed_scan(cat, written, skip, existing, now).len()
                && !crate::db::repository::paths_of(written).contains(
                (#[trigger] completed_scan(cat, written, skip, existing, now)[i]).file_path,
            ) && !skip.contains(completed_scan(cat, written, skip, existing, now)[i].file_path)
                ==> cat.contains(completed_scan(cat, written, skip, existing, now)[i]),
{
    let up = crate::db::repository::upserted_all(cat, written, written.len() as int, now);
    crate::db::repository::lemma_upserted_all(cat, written, written.len() as int, now);
    let t = crate::db::repository::touched(up, skip, now);
    crate::db::repository::lemma_touched(up, skip, now);
    let fin = crate::db::repository::without_missing(t, existing);
    crate::db::repository::lemma_without_missing(t, existing);
    assert(written.subrange(0, written.len() as int) == written);
    assert forall|i: int| 0 <= i < fin.len() implies ({
        let p = (#[trigger] fin[i]).file_path;
        &&& crate::db::repository::paths_of(written).contains(p) || skip.contains(p)
            ==> fin[i].last_scanned == Some(now)
        &&& !crate::db::repository::paths_of(written).contains(p) && !skip.contains(p)
            ==> cat.contains(fin[i])
    }) by {
        assert(t.contains(fin[i]));
        let j = choose|j: int| 0 <= j < t.len() && t[j] == fin[i];
        let p = t[j].file_path;
        assert(up[j].file_path == p);
        if !skip.contains(p) && !crate::db::repository::paths_of(written).contains(p) {
            assert(t[j] == up[j]);
            assert(j < cat.len());
            assert(up[j] == cat[j]);
        }
    }
}

/// A record that was scanned before and whose file is not there has no
/// record after a scan that ran to its end: its path is in the catalog no
/// more.
pub proof fn lemma_scan_drops_records_without_a_file(
    cat: Catalog,
    written: Seq<MediaFileView>,
    skip: Seq<Seq<char>>,
    existing: Seq<Seq<char>>,
    now: i64,
)
    requires
        crate::db::repository::unique_paths(cat),
    ensures
        forall|i: int|
            0 <= i < cat.len() && (#[trigger] cat[i]).last_scanned is Some && !existing.contains(
                cat[i].file_path,
            ) ==> !crate::db::repository::paths_of(
                completed_scan(cat, written, skip, existing, now),
            ).contains(cat[i].file_path),
{
    let up = crate::db::repository::upserted_all(cat, written, written.len() as int, now);
    crate::db::repository::lemma_upserted_all(cat, written, written.len() as int, now);
    let t = crate::db::repository::touched(up, skip, now);
    crate::db::repository::lemma_touched(up, skip, now);
    let fin = crate::db::repository::without_missing(t, existing);
    crate::db::repository::lemma_without_missing(t, existing);
    assert(written.subrange(0, written.len() as int) == written);
    assert forall|i: int|
        0 <= i < cat.len() && (#[trigger] cat[i]).last_scanned is Some && !existing.contains(
            cat[i].file_path,
        ) implies !crate::db::repository::paths_of(fin).contains(cat[i].file_path) by {
        let p = cat[i].file_path;
        assert(up[i].file_path == p);
        assert(t[i].file_path == p);
        assert(t[i].last_scanned is Some);
        if crate::db::repository::paths_of(fin).contains(p) {
            let j = choose|j: int|
                0 <= j < crate::db::repository::paths_of(fin).len()
                    && crate::db::repository::paths_of(fin)[j] == p;
            assert(fin[j].file_path == p);
            assert(t.contains(fin[j]));
            let k = choose|k: int| 0 <= k < t.len() && t[k] == fin[j];
            assert(t[k].file_path == t[i].file_path);
            assert(k == i);
            assert(!crate::db::repository::is_missing(fin[j], existing));
        }
    }
}

/// A scan that is cancelled deletes nothing: after the chunks that were
/// written before the cancellation took effect, every record that was in
/// the catalog is still there, under its path and identifier; the records
/// that were written are present, scanned at `now`; and every other record,
/// the unchanged files among them, is as it was.
pub proof fn lemma_cancelled_scan_keeps_records(
    cat: Catalog,
    written: Seq<MediaFileView>,
    now: i64,
)
    requires
        crate::db::repository::unique_paths(cat),
    ensures
        ({
            let after = crate::db::repository::upserted_all(
                cat,
                written,
                written.len() as int,
                now,
            );
            &&& after.len() >= cat.len()
            &&& forall|i: int|
                0 <= i < cat.len() ==> (#[trigger] after[i]).file_path == cat[i].file_path
                    && after[i].id == cat[i].id
            &&& forall|i: int|
                0 <= i < cat.len() && !crate::db::repository::paths_of(written).contains(
                    cat[i].file_path,
                ) ==> #[trigger] after[i] == cat[i]
            &&& forall|k: int|
                0 <= k < written.len() ==> crate::db::repository::paths_of(after).contains(
                    (#[trigger] written[k]).file_path,
                )
            &&& forall|i: int|
                0 <= i < after.len() && crate::db::repository::paths_of(written).contains(
                    (#[trigger] after[i]).file_path,
                ) ==> after[i].last_scanned == Some(now)
        }),
{
    crate::db::repository::lemma_upserted_all(cat, written, written.len() as int, now);
    assert(written.subrange(0, written.len() as int) == written);
}

/// Whether the counters of a frame's state stay within the files to add and
/// to update.
pub open spec fn within_budget(st: crate::websocket::scan_state::ScanState) -> bool {
    st.success_count + st.failure_count <= st.files_to_add + st.files_to_update
}

/// Whether a frame, if one went out, counts no more results than there are
/// files to add and to update.
pub open spec fn frame_within_budget(
    frame: Option<crate::websocket::broadcast::ScanProgressMessageView>,
) -> bool {
    frame matches Some(f) ==> f.success_count + f.failure_count <= f.files_to_add
        + f.files_to_update
}

/// Whether the engine has not begun to extract: no result is counted yet.
pub open spec fn before_extraction(stage: ScanStage) -> bool {
    stage == ScanStage::Idle || stage == ScanStage::Collecting || stage == ScanStage::Counting
        || stage == ScanStage::CountingMissing
}

/// Whether the state of a manager goes with the engine: before extraction
/// it counts nothing; from then on it counts as many results as the engine
/// took, and shows the engine's files to add and to update.
pub open spec fn tracks(s: ScanService, st: crate::websocket::scan_state::ScanState) -> bool {
    if before_extraction(s.stage) {
        st.success_count == 0 && st.failure_count == 0
    } else {
        &&& st.success_count + st.failure_count == s.reported
        &&& s.stage == ScanStage::Processing || s.reported > 0 ==> st.files_to_add
            == s.files_to_add && st.files_to_update == s.files_to_update
    }
}

/// Whether an update leaves the counters and the file counts alone and ends
/// nothing: a total, or a phase of a running scan.
pub open spec fn is_quiet(u: ProgressUpdate) -> bool {
    match u {
        ProgressUpdate::SetTotal(_) => true,
        ProgressUpdate::SetPhase(p) => p.is_active(),
        _ => false,
    }
}

/// What one step of the engine means for the progress frames: the updates
/// it posts, and how the engine's own counts move with them. A step ends
/// the scan; or starts one; or posts only totals and phases, counting
/// nothing; or announces the file counts as extraction begins; or counts
/// one result.
pub open spec fn progress_step(
    before: ScanService,
    after: ScanService,
    updates: Seq<ProgressUpdate>,
) -> bool {
    ||| {
        &&& updates.len() == 1
        &&& updates[0] == ProgressUpdate::Completed || updates[0] == ProgressUpdate::Error
            || updates[0] == ProgressUpdate::Cancelled
        &&& after.stage == ScanStage::Idle
    }
    ||| {
        &&& before.stage == ScanStage::Idle
        &&& after.stage == ScanStage::Collecting
        &&& updates == seq![
            ProgressUpdate::Started,
            ProgressUpdate::SetPhase(ScanPhase::Collecting),
        ]
    }
    ||| {
        &&& updates.len() <= 2
        &&& forall|k: int| 0 <= k < updates.len() ==> is_quiet(#[trigger] updates[k])
        &&& if before_extraction(before.stage) {
            before_extraction(after.stage) || (after.reported == 0 && after.stage
                != ScanStage::Processing)
        } else {
            &&& !before_extraction(after.stage)
            &&& after.stage == ScanStage::Processing ==> before.stage == ScanStage::Processing
            &&& after.reported == before.reported
            &&& after.files_to_add == before.files_to_add
            &&& after.files_to_update == before.files_to_update
        }
    }
    ||| {
        &&& before_extraction(before.stage)
        &&& !before_extraction(after.stage)
        &&& after.reported == 0
        &&& 2 <= updates.len() <= 3
        &&& updates[0] == ProgressUpdate::SetFileCounts(
            after.files_to_add,
            after.files_to_update,
            after.files_to_delete,
        )
        &&& forall|k: int| 1 <= k < updates.len() ==> is_quiet(#[trigger] updates[k])
    }
    ||| {
        &&& before.stage == ScanStage::Processing
        &&& after.stage == ScanStage::Processing
        &&& updates.len() == 1
        &&& updates[0] == ProgressUpdate::IncrementSuccess || updates[0]
            == ProgressUpdate::IncrementFailure
        &&& after.reported == before.reported + 1
        &&& after.files_to_add == before.files_to_add
        &&& after.files_to_update == before.files_to_update
    }
}

/// Whether every frame that a manager sends on these updates, taken in
/// order, counts no more results than there are files to add and to update.
pub open spec fn frames_within_budget(
    m: crate::websocket::scan_state::ScanStateManager,
    updates: Seq<ProgressUpdate>,
    now: i64,
) -> bool {
    forall|k: int|
        0 <= k < updates.len() ==> frame_within_budget(
            crate::websocket::scan_state::message_after(
                #[trigger] manager_after_all(m, updates, k, now),
                updates[k],
                now,
            ),
        )
}

/// An idle manager goes with an idle engine: this is where a scan begins,
/// and where every scan ends.
pub proof fn lemma_idle_manager_tracks_idle_engine(s: ScanService)
    requires
        s.stage == ScanStage::Idle,
    ensures
        tracks(s, crate::websocket::scan_state::idle_state()),
        within_budget(crate::websocket::scan_state::idle_state()),
{
}

/// What a frame's state counts and what it shows of the files to add and
/// to update.
pub open spec fn counts_of(st: crate::websocket::scan_state::ScanState) -> (u64, u64, u64, u64) {
    (st.success_count, st.failure_count, st.files_to_add, st.files_to_update)
}

/// What one update does to the counts of a manager, and what the frame
/// shows that goes out for it.
proof fn lemma_counts_after_update(
    m: crate::websocket::scan_state::ScanStateManager,
    u: ProgressUpdate,
    now: i64,
)
    ensures
        ({
            let shown = crate::websocket::scan_state::updated(m.state, u, now);
            let next = crate::websocket::scan_state::manager_after(m, u, now).state;
            let c = counts_of(m.state);
            &&& within_budget(shown) ==> frame_within_budget(
                crate::websocket::scan_state::message_after(m, u, now),
            )
            &&& is_quiet(u) ==> counts_of(shown) == c && counts_of(next) == c
            &&& u == ProgressUpdate::Completed || u == ProgressUpdate::Error || u
                == ProgressUpdate::Cancelled ==> counts_of(shown) == c && counts_of(next) == (
                0u64,
                0u64,
                0u64,
                0u64,
            )
            &&& u == ProgressUpdate::Started ==> counts_of(shown) == (0u64, 0u64, c.2, c.3)
                && counts_of(next) == counts_of(shown)
            &&& u matches ProgressUpdate::SetFileCounts(a, b, d) ==> counts_of(shown) == (
                c.0,
                c.1,
                a,
                b,
            ) && counts_of(next) == counts_of(shown)
            &&& u == ProgressUpdate::IncrementSuccess ==> counts_of(shown) == (
                crate::websocket::scan_state::bumped(c.0),
                c.1,
                c.2,
                c.3,
            ) && counts_of(next) == counts_of(shown)
            &&& u == ProgressUpdate::IncrementFailure ==> counts_of(shown) == (
                c.0,
                crate::websocket::scan_state::bumped(c.1),
                c.2,
                c.3,
            ) && counts_of(next) == counts_of(shown)
        }),
{
}

/// No frame counts more results than there are files to add and to update:
/// where a manager goes with the engine and is fed the updates of a step in
/// order, each frame it sends has `success + failure <= add + update`, and
/// the manager goes with the engine after the step.
pub proof fn lemma_frames_stay_within_budget(
    before: ScanService,
    after: ScanService,
    updates: Seq<ProgressUpdate>,
    m: crate::websocket::scan_state::ScanStateManager,
    now: i64,
)
    requires
        before.wf(),
        after.wf(),
        progress_step(before, after, updates),
        tracks(before, m.state),
    ensures
        within_budget(m.state),
        frames_within_budget(m, updates, now),
        tracks(after, manager_after_all(m, updates, updates.len() as int, now).state),
        within_budget(manager_after_all(m, updates, updates.len() as int, now).state),
{
    reveal_with_fuel(manager_after_all, 4);
    let m0 = manager_after_all(m, updates, 0, now);
    let m1 = manager_after_all(m, updates, 1, now);
    let m2 = manager_after_all(m, updates, 2, now);
    let m3 = manager_after_all(m, updates, 3, now);
    assert(m0 == m);
    assert(within_budget(m.state));
    assert(updates.len() <= 3);
    if updates.len() >= 1 {
        assert(m1 == crate::websocket::scan_state::manager_after(m0, updates[0], now));
        lemma_counts_after_update(m0, updates[0], now);
    }
    if updates.len() >= 2 {
        assert(m2 == crate::websocket::scan_state::manager_after(m1, updates[1], now));
        lemma_counts_after_update(m1, updates[1], now);
    }
    if updates.len() >= 3 {
        assert(m3 == crate::websocket::scan_state::manager_after(m2, updates[2], now));
        lemma_counts_after_update(m2, updates[2], now);
    }
    let last = manager_after_all(m, updates, updates.len() as int, now);
    assert(last == if updates.len() == 0 {
        m0
    } else if updates.len() == 1 {
        m1
    } else if updates.len() == 2 {
        m2
    } else {
        m3
    });
    assert forall|k: int| 0 <= k < updates.len() implies frame_within_budget(
        crate::websocket::scan_state::message_after(
            #[trigger] manager_after_all(m, updates, k, now),
            updates[k],
            now,
        ),
    ) by {
        if k == 0 {
            assert(manager_after_all(m, updates, k, now) == m0);
            assert(within_budget(crate::websocket::scan_state::updated(m0.state, updates[0], now)));
        } else if k == 1 {
            assert(manager_after_all(m, updates, k, now) == m1);
            assert(within_budget(crate::websocket::scan_state::updated(m1.state, updates[1], now)));
        } else {
            assert(k == 2);
            assert(manager_after_all(m, updates, k, now) == m2);
            assert(within_budget(crate::websocket::scan_state::updated(m2.state, updates[2], now)));
        }
    }
}

/// The progress updates of a scan that finds no file.
pub open spec fn empty_scan_updates() -> Seq<ProgressUpdate> {
    seq![
        ProgressUpdate::Started,
        ProgressUpdate::SetPhase(ScanPhase::Collecting),
        ProgressUpdate::SetTotal(0),
        ProgressUpdate::SetPhase(ScanPhase::Deleting),
        ProgressUpdate::Completed,
    ]
}

/// The state manager after the first `n` of the updates, all at `now`.
pub open spec fn manager_after_all(
    m: crate::websocket::scan_state::ScanStateManager,
    updates: Seq<ProgressUpdate>,
    n: int,
    now: i64,
) -> crate::websocket::scan_state::ScanStateManager
    decreases n,
{
    if n <= 0 {
        m
    } else {
        crate::websocket::scan_state::manager_after(
            manager_after_all(m, updates, n - 1, now),
            updates[n - 1],
            now,
        )
    }
}

/// A scan of an empty directory completes with all counters zero: the
/// last message that goes out from an idle manager shows the status
/// `completed`, nothing scanning, and no file counted in any way; and the
/// manager is idle again.
pub proof fn lemma_empty_scan_reports_zero(interval: u64, now: i64)
    ensures
        ({
            let idle = crate::websocket::scan_state::ScanStateManager {
                state: crate::websocket::scan_state::idle_state(),
                last_progress_reported: 0,
                broadcast_interval: interval,
            };
            let before_end = manager_after_all(idle, empty_scan_updates(), 4, now);
            let last = crate::websocket::scan_state::message_after(
                before_end,
                ProgressUpdate::Completed,
                now,
            );
            &&& last is Some
            &&& last.unwrap().status == "completed"@
            &&& !last.unwrap().scanning
            &&& last.unwrap().total_files == 0
            &&& last.unwrap().success_count == 0
            &&& last.unwrap().failure_count == 0
            &&& last.unwrap().files_to_add == 0
            &&& last.unwrap().files_to_update == 0
            &&& last.unwrap().files_to_delete == 0
            &&& manager_after_all(idle, empty_scan_updates(), 5, now).state
                == crate::websocket::scan_state::idle_state()
        }),
{
    let idle = crate::websocket::scan_state::ScanStateManager {
        state: crate::websocket::scan_state::idle_state(),
        last_progress_reported: 0,
        broadcast_interval: interval,
    };
    let u = empty_scan_updates();
    let m0 = manager_after_all(idle, u, 0, now);
    let m1 = manager_after_all(idle, u, 1, now);
    let m2 = manager_after_all(idle, u, 2, now);
    let m3 = manager_after_all(idle, u, 3, now);
    let m4 = manager_after_all(idle, u, 4, now);
    let m5 = manager_after_all(idle, u, 5, now);
    assert(m0 == idle);
    assert(m1.state.success_count == 0 && m1.state.total_files == 0);
    assert(m2.state.success_count == 0 && m2.state.files_to_add == 0);
    assert(m3.state.total_files == 0 && m3.state.failure_count == 0);
    assert(m4.state.total_files == 0 && m4.state.files_to_delete == 0);
    assert(m5.state == crate::websocket::scan_state::idle_state());
}

/// The records of two adjoining chunks of slots are the records of the
/// chunk that spans both: the writer, chunk after chunk, hands over the
/// successful results in the order of the slots.
pub proof fn lemma_successes_in_chunks(
    results: Seq<Option<ProcessingResult>>,
    from: int,
    mid: int,
    to: int,
)
    requires
        0 <= from <= mid <= to <= results.len(),
    ensures
        successes(results, from, mid) + successes(results, mid, to) == successes(
            results,
            from,
            to,
        ),
    decreases to - mid,
{
    if to > mid {
        lemma_successes_in_chunks(results, from, mid, to - 1);
        let head = successes(results, from, mid);
        let rest = successes(results, mid, to - 1);
        match results[to - 1] {
            Some(r) => match r.success {
                Some(f) => {
                    assert(head + rest.push(f@) =~= (head + rest).push(f@));
                },
                None => {},
            },
            None => {},
        }
    } else {
        assert(successes(results, mid, to) =~= Seq::<MediaFileView>::empty());
        assert(successes(results, from, mid) + Seq::<MediaFileView>::empty() =~= successes(
            results,
            from,
            mid,
        ));
    }
}

} // verus!
