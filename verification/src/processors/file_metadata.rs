//! File metadata that is common to all media types: size, creation time
//! and modification time, from what the file system told.

use vstd::prelude::*;
use crate::extraction::time::{year_at, year_of};
use crate::processors::processor_trait::{blank_metadata, MediaMetadata, MediaMetadataView};

verus! {

/// What the file system tells of a file. Times are whole seconds after the
/// Unix epoch; a time that the platform does not give, or that lies before
/// the epoch, is absent.
#[derive(Debug, Clone, Copy, PartialEq, Eq, Structural)]
pub struct FileStat {
    pub len: u64,
    pub created: Option<u64>,
    pub modified: Option<u64>,
}

/// A file time as an instant of the catalog: absent where the calendar
/// cannot hold it.
pub open spec fn instant_of(secs: u64) -> Option<i64> {
    if secs <= i64::MAX && year_at(secs as int) is Some {
        Some(secs as i64)
    } else {
        None
    }
}

/// A file size as the catalog stores it: the same 64 bits read as a signed
/// number.
pub open spec fn stored_size(len: u64) -> i64 {
    if len <= i64::MAX {
        len as i64
    } else {
        (len - 0x1_0000_0000_0000_0000) as i64
    }
}

/// The metadata that the file system gives: nothing for a file that could
/// not be examined.
pub open spec fn file_metadata_of(stat: Option<FileStat>) -> MediaMetadataView {
    match stat {
        Some(s) => MediaMetadataView {
            file_size: Some(stored_size(s.len)),
            create_time: match s.created {
                Some(t) => instant_of(t),
                None => None,
            },
            modify_time: match s.modified {
                Some(t) => instant_of(t),
                None => None,
            },
            ..blank_metadata()
        },
        None => blank_metadata(),
    }
}

/// Convert a file time, in seconds after the epoch, to an instant of the
/// catalog.
pub fn system_time_to_naive_datetime(secs: u64) -> (r: Option<i64>)
    ensures
        r == instant_of(secs),
{
    if secs > 9223372036854775807 {
        return None;
    }
    let t = secs as i64;
    match year_of(t) {
        Some(_) => Some(t),
        None => None,
    }
}

/// Extract file metadata that is common to all file types: file size,
/// creation time and modification time.
pub fn extract_file_metadata(stat: Option<FileStat>) -> (r: MediaMetadata)
    ensures
        r@ == file_metadata_of(stat),
{
    let mut metadata = MediaMetadata::blank();
    match stat {
        Some(s) => {
            metadata.file_size = Some(
                if s.len <= 9223372036854775807 {
                    s.len as i64
                } else {
                    ((s.len - 9223372036854775808) as i64) - 9223372036854775807 - 1
                },
            );
            metadata.create_time = match s.created {
                Some(t) => system_time_to_naive_datetime(t),
                None => None,
            };
            metadata.modify_time = match s.modified {
                Some(t) => system_time_to_naive_datetime(t),
                None => None,
            };
        },
        None => {},
    }
    metadata
}

} // verus!
