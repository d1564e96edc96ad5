//! The answers of the system endpoints.

use vstd::prelude::*;
use crate::text::text_of;
use crate::websocket::broadcast::ScanProgressMessage;

verus! {

/// Response for rescan trigger.
#[derive(Debug, Clone)]
pub struct RescanResponse {
    pub success: bool,
    pub message: String,
}

/// Response for scan progress.
#[derive(Debug, Clone)]
pub struct ScanProgressResponse {
    pub scanning: bool,
    pub phase: Option<String>,
    pub total_files: u64,
    pub success_count: u64,
    pub failure_count: u64,
    pub progress_percentage: String,
    pub files_to_add: u64,
    pub files_to_update: u64,
    pub files_to_delete: u64,
    pub start_time: Option<String>,
}

/// Response for cancel operation.
#[derive(Debug, Clone)]
pub struct CancelResponse {
    pub success: bool,
    pub message: String,
}

/// System status response. The cache size is in bytes.
#[derive(Debug, Clone)]
pub struct SystemStatus {
    pub status: String,
    pub total_files: i64,
    pub image_count: i64,
    pub video_count: i64,
    pub cache_size_bytes: u64,
    pub last_scan_time: Option<String>,
}

/// The answer to a rescan request: the scan was started.
pub fn trigger_rescan() -> (r: RescanResponse)
    ensures
        r.success,
        r.message@ == "Scan started"@,
{
    RescanResponse { success: true, message: String::from_str("Scan started") }
}

/// The answer to a progress query: the fields of the current message, the
/// status left out.
pub fn get_scan_progress(progress: ScanProgressMessage) -> (r: ScanProgressResponse)
    ensures
        r.scanning == progress.scanning,
        text_of(r.phase) == text_of(progress.phase),
        r.total_files == progress.total_files,
        r.success_count == progress.success_count,
        r.failure_count == progress.failure_count,
        r.progress_percentage@ == progress.progress_percentage@,
        r.files_to_add == progress.files_to_add,
        r.files_to_update == progress.files_to_update,
        r.files_to_delete == progress.files_to_delete,
        text_of(r.start_time) == text_of(progress.start_time),
{
    ScanProgressResponse {
        scanning: progress.scanning,
        phase: progress.phase,
        total_files: progress.total_files,
        success_count: progress.success_count,
        failure_count: progress.failure_count,
        progress_percentage: progress.progress_percentage,
        files_to_add: progress.files_to_add,
        files_to_update: progress.files_to_update,
        files_to_delete: progress.files_to_delete,
        start_time: progress.start_time,
    }
}

/// The answer to a cancel request, given whether a scan was running.
pub fn cancel_scan(cancelled: bool) -> (r: CancelResponse)
    ensures
        r.success == cancelled,
        r.message@ == (if cancelled {
            "Scan cancelled"@
        } else {
            "No scan in progress"@
        }),
{
    CancelResponse {
        success: cancelled,
        message: if cancelled {
            String::from_str("Scan cancelled")
        } else {
            String::from_str("No scan in progress")
        },
    }
}

/// The status answer from the catalog's counts; a count that could not be
/// read shows as 0.
pub fn get_status(
    total_files: Option<i64>,
    image_count: Option<i64>,
    video_count: Option<i64>,
    cache_size_bytes: Option<u64>,
    last_scan_time: Option<String>,
) -> (r: SystemStatus)
    ensures
        r.status@ == "running"@,
        r.total_files == total_files.unwrap_or(0),
        r.image_count == image_count.unwrap_or(0),
        r.video_count == video_count.unwrap_or(0),
        r.cache_size_bytes == cache_size_bytes.unwrap_or(0),
        r.last_scan_time == last_scan_time,
{
    SystemStatus {
        status: String::from_str("running"),
        total_files: total_files.unwrap_or(0),
        image_count: image_count.unwrap_or(0),
        video_count: video_count.unwrap_or(0),
        cache_size_bytes: cache_size_bytes.unwrap_or(0),
        last_scan_time,
    }
}

} // verus!
