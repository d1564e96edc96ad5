//! The file endpoints: list queries, pagination, thumbnail requests and the
//! plan for serving an original, whole or as a byte range.

use vstd::prelude::*;
use crate::config::{thumbnail_size_of, Config};
use crate::db::models::MediaFile;
use crate::processors::processor_trait::{lower_extension, lowercase_extension};
use crate::text::{
    chars_of, decimal, decimal_string, find_char, first_index, has_prefix, lemma_first_index,
    parse_u64, parsed_u64, starts_with, str_eq, string_of, text_of, trim, trimmed,
};

verus! {

/// The size label for a size name: the name itself where it is one of
/// small, medium, large, full; medium for any other.
pub open spec fn size_label_of(size: Seq<char>) -> Seq<char> {
    if size == "small"@ {
        "small"@
    } else if size == "large"@ {
        "large"@
    } else if size == "full"@ {
        "full"@
    } else {
        "medium"@
    }
}

/// Get size label from size string. This determines the cache key and
/// which thumbnail size to generate.
pub fn get_size_label(size_str: &str) -> (r: &'static str)
    ensures
        r@ == size_label_of(size_str@),
{
    if str_eq(size_str, "small") {
        "small"
    } else if str_eq(size_str, "large") {
        "large"
    } else if str_eq(size_str, "full") {
        "full"
    } else {
        "medium"
    }
}

/// Query parameters for file list.
#[derive(Debug, Clone)]
pub struct FileQueryParams {
    pub path: Option<String>,
    pub page: Option<i32>,
    pub size: Option<i32>,
    pub sort_by: Option<String>,
    pub order: Option<String>,
    pub filter_type: Option<String>,
    pub camera_model: Option<String>,
    pub date: Option<String>,
}

/// A list query with the defaults filled in.
#[derive(Debug, Clone)]
pub struct ListQuery {
    pub path: Option<String>,
    pub filter_type: Option<String>,
    pub camera_model: Option<String>,
    pub date: Option<String>,
    pub sort_by: String,
    pub order: String,
    pub page: i32,
    pub size: i32,
}

/// The first page.
pub const DEFAULT_PAGE: i32 = 0;

/// The page size where the query gives none.
pub const DEFAULT_PAGE_SIZE: i32 = 50;

impl FileQueryParams {
    /// The query with its defaults: page 0, 50 per page, sorted by
    /// `exifTimestamp`, descending.
    pub fn resolve(self) -> (r: ListQuery)
        ensures
            r.path == self.path,
            r.filter_type == self.filter_type,
            r.camera_model == self.camera_model,
            r.date == self.date,
            r.page == self.page.unwrap_or(DEFAULT_PAGE),
            r.size == self.size.unwrap_or(DEFAULT_PAGE_SIZE),
            r.sort_by@ == (match self.sort_by {
                Some(s) => s@,
                None => "exifTimestamp"@,
            }),
            r.order@ == (match self.order {
                Some(s) => s@,
                None => "desc"@,
            }),
    {
        ListQuery {
            path: self.path,
            filter_type: self.filter_type,
            camera_model: self.camera_model,
            date: self.date,
            sort_by: match self.sort_by {
                Some(s) => s,
                None => String::from_str("exifTimestamp"),
            },
            order: match self.order {
                Some(s) => s,
                None => String::from_str("desc"),
            },
            page: self.page.unwrap_or(DEFAULT_PAGE),
            size: self.size.unwrap_or(DEFAULT_PAGE_SIZE),
        }
    }
}

/// Pagination response.
#[derive(Debug, Clone)]
pub struct PaginatedResponse<T> {
    pub items: Vec<T>,
    pub total: i64,
    pub page: i32,
    pub size: i32,
    pub total_pages: i32,
}

/// Date with count response.
#[derive(Debug, Clone)]
pub struct DateResponse {
    pub date: String,
    pub count: i64,
}

/// Neighbor response for navigation.
#[derive(Debug, Clone)]
pub struct NeighborResponse {
    pub previous: Option<MediaFile>,
    pub next: Option<MediaFile>,
}

/// Thumbnail size as the query gives it.
#[derive(Debug, Clone)]
pub struct ThumbnailSize {
    pub size: Option<String>,
}

/// `num / den` rounded up, for a positive `den`.
pub open spec fn ceil_div(num: int, den: int) -> int
    recommends
        den > 0,
{
    -((-num) / den)
}

/// The number of pages that `total` items fill at `size` per page: the
/// quotient rounded up, kept within the range of `i32`. A page size of 0
/// gives no pages for no items, and the largest or smallest number
/// otherwise.
pub open spec fn page_count(total: i64, size: i32) -> int {
    let ceil = if size > 0 {
        ceil_div(total as int, size as int)
    } else {
        ceil_div(-(total as int), -(size as int))
    };
    if size == 0 {
        if total > 0 {
            i32::MAX as int
        } else if total < 0 {
            i32::MIN as int
        } else {
            0
        }
    } else if ceil > i32::MAX {
        i32::MAX as int
    } else if ceil < i32::MIN {
        i32::MIN as int
    } else {
        ceil
    }
}

impl<T> PaginatedResponse<T> {
    /// One page of a listing, with the number of pages worked out.
    pub fn new(items: Vec<T>, total: i64, page: i32, size: i32) -> (r: PaginatedResponse<T>)
        ensures
            r.items == items,
            r.total == total,
            r.page == page,
            r.size == size,
            r.total_pages == page_count(total, size),
    {
        PaginatedResponse { items, total, page, size, total_pages: total_pages(total, size) }
    }
}

/// [`ceil_div`] on machine integers.
pub fn div_up(num: i128, den: i128) -> (r: i128)
    requires
        den > 0,
        -0x8000_0000_0000_0000 <= num <= 0x8000_0000_0000_0000,
        den <= 0x8000_0000,
    ensures
        r == ceil_div(num as int, den as int),
{
    if num >= 0 {
        let q: i128 = num / den;
        let rem: i128 = num % den;
        proof {
            vstd::arithmetic::div_mod::lemma_fundamental_div_mod(-(num as int), den as int);
            let e = (-(num as int)) / (den as int);
            let m = (-(num as int)) % (den as int);
            assert(0 <= m < den);
            assert(-num == den * e + m);
            assert(num == den * q + rem) by (nonlinear_arith)
                requires
                    q == num / den,
                    rem == num % den,
                    den > 0,
            ;
            assert(den * (q + e) == -(rem + m)) by (nonlinear_arith)
                requires
                    num == den * q + rem,
                    -num == den * e + m,
            ;
            if rem == 0 {
                assert(q + e == 0 && m == 0) by (nonlinear_arith)
                    requires
                        den * (q + e) == -(rem + m),
                        rem == 0,
                        0 <= m < den,
                        den > 0,
                ;
            } else {
                assert(q + e == -1) by (nonlinear_arith)
                    requires
                        den * (q + e) == -(rem + m),
                        0 < rem < den,
                        0 <= m < den,
                        den > 0,
                ;
            }
        }
        if rem == 0 {
            q
        } else {
            q + 1
        }
    } else {
        -((-num) / den)
    }
}

/// [`page_count`] on machine integers.
pub fn total_pages(total: i64, size: i32) -> (r: i32)
    ensures
        r == page_count(total, size),
{
    if size == 0 {
        return if total > 0 {
            2147483647
        } else if total < 0 {
            -2147483648
        } else {
            0
        };
    }
    let ceil: i128 = if size > 0 {
        div_up(total as i128, size as i128)
    } else {
        div_up(-(total as i128), -(size as i128))
    };
    if ceil > 2147483647 {
        2147483647
    } else if ceil < -2147483648 {
        -2147483648
    } else {
        ceil as i32
    }
}

/// What a thumbnail request asks for, worked out from the size name.
#[derive(Debug, Clone, Copy)]
pub struct ThumbnailRequest {
    /// The label under which the thumbnail is cached.
    pub size_label: &'static str,
    /// The target size in pixels; 0 for the full size.
    pub target_size: u32,
    /// Whether the size is the large one, whose target is a height.
    pub fit_to_height: bool,
}

/// The `Cache-Control` header of thumbnail responses.
pub const THUMBNAIL_CACHE_CONTROL: &'static str = "public, max-age=86400";

/// The content type of generated thumbnails.
pub const THUMBNAIL_CONTENT_TYPE: &'static str = "image/jpeg";

/// Works a thumbnail request out: the size name defaults to medium, the
/// label and the target size follow from it.
pub fn thumbnail_request(size: &ThumbnailSize, config: &Config) -> (r: ThumbnailRequest)
    ensures
        r.size_label@ == size_label_of(requested_size(size.size)),
        r.target_size == thumbnail_size_of(
            config.thumbnail_small,
            config.thumbnail_medium,
            config.thumbnail_large,
            requested_size(size.size),
        ),
        r.fit_to_height == (requested_size(size.size) == "large"@),
{
    let name: &str = match &size.size {
        Some(s) => s.as_str(),
        None => "medium",
    };
    ThumbnailRequest {
        size_label: get_size_label(name),
        target_size: config.get_thumbnail_size(name),
        fit_to_height: str_eq(name, "large"),
    }
}

/// The size name of a request: `medium` where the query gives none.
pub open spec fn requested_size(size: Option<String>) -> Seq<char> {
    match size {
        Some(s) => s@,
        None => "medium"@,
    }
}

/// The entity tag of a thumbnail: the record id and the size label, joined
/// by a dash, in double quotes.
pub open spec fn etag_of(id: Seq<char>, size_label: Seq<char>) -> Seq<char> {
    seq!['"'] + id + seq!['-'] + size_label + seq!['"']
}

/// The `ETag` header of a thumbnail response.
pub fn etag(id: &str, size_label: &str) -> (r: String)
    ensures
        r@ == etag_of(id@, size_label@),
{
    let mut out: Vec<char> = Vec::new();
    out.push('"');
    let mut a = chars_of(id);
    out.append(&mut a);
    out.push('-');
    let mut b = chars_of(size_label);
    out.append(&mut b);
    out.push('"');
    assert(out@ == etag_of(id@, size_label@));
    string_of(out.as_slice())
}

/// Why a `Range` header cannot be served.
#[derive(Debug, Clone, Copy, PartialEq, Eq, Structural)]
pub enum RangeError {
    /// The header is not of the form `bytes=start-end`.
    Malformed,
    /// The range lies outside the file, or ends before it starts.
    Unsatisfiable,
}

/// A range of bytes of a file, both ends included.
#[derive(Debug, Clone, Copy, PartialEq, Eq, Structural)]
pub struct ByteRange {
    pub start: u64,
    pub end: u64,
}

impl ByteRange {
    /// The number of bytes in the range.
    pub open spec fn len(&self) -> int {
        self.end - self.start + 1
    }

    /// The number of bytes in the range.
    pub fn length(&self) -> (r: u64)
        requires
            self.start <= self.end,
            self.end < u64::MAX,
        ensures
            r == self.len(),
    {
        self.end - self.start + 1
    }
}

/// The range that a range specification asks of a file of `file_size`
/// bytes. The specification is `start-end` with exactly one dash; either
/// number may be missing, the start then being 0 and the end the last byte.
/// A number that cannot be read makes the specification malformed. An end
/// beyond the file is clamped to its last byte; a start beyond the file, or
/// beyond the end, cannot be satisfied.
pub open spec fn range_of_spec(spec: Seq<char>, file_size: u64) -> Result<ByteRange, RangeError> {
    let dash = first_index(spec, '-');
    let first = spec.subrange(0, dash);
    let second = spec.subrange(dash + 1, spec.len() as int);
    if dash >= spec.len() || first_index(second, '-') < second.len() {
        Err(RangeError::Malformed)
    } else if first.len() > 0 && parsed_u64(first) is None {
        Err(RangeError::Malformed)
    } else if second.len() > 0 && parsed_u64(second) is None {
        Err(RangeError::Malformed)
    } else if file_size == 0 {
        Err(RangeError::Unsatisfiable)
    } else {
        let start = if first.len() > 0 {
            parsed_u64(first).unwrap()
        } else {
            0
        };
        let asked = if second.len() > 0 {
            parsed_u64(second).unwrap()
        } else {
            (file_size - 1) as u64
        };
        let end = if asked > file_size - 1 {
            (file_size - 1) as u64
        } else {
            asked
        };
        if start >= file_size || start > end {
            Err(RangeError::Unsatisfiable)
        } else {
            Ok(ByteRange { start, end })
        }
    }
}

/// The first range specification of a header value: what follows `bytes=`
/// up to the first comma, trimmed. `None` where the value does not begin
/// with `bytes=`.
pub open spec fn first_range_spec(header: Seq<char>) -> Option<Seq<char>> {
    if starts_with(header, "bytes="@) {
        let rest = header.subrange(6, header.len() as int);
        Some(trimmed(rest.subrange(0, first_index(rest, ','))))
    } else {
        None
    }
}

/// The range that a `Range` header asks of a file.
pub open spec fn range_of_header(header: Seq<char>, file_size: u64) -> Result<
    ByteRange,
    RangeError,
> {
    match first_range_spec(header) {
        Some(spec) => range_of_spec(spec, file_size),
        None => Err(RangeError::Malformed),
    }
}

/// Reads one range specification, `start-end`, against a file size.
pub fn parse_range_spec(spec: &str, file_size: u64) -> (r: Result<ByteRange, RangeError>)
    ensures
        r == range_of_spec(spec@, file_size),
        r matches Ok(range) ==> range.start <= range.end < file_size,
{
    let v = chars_of(spec);
    let dash = find_char(v.as_slice(), '-');
    if dash >= v.len() {
        return Err(RangeError::Malformed);
    }
    let first = vstd::slice::slice_subrange(v.as_slice(), 0, dash);
    let second = vstd::slice::slice_subrange(v.as_slice(), dash + 1, v.len());
    if find_char(second, '-') < second.len() {
        return Err(RangeError::Malformed);
    }
    let start_given = if first.len() > 0 {
        parse_u64(string_of(first).as_str())
    } else {
        Some(0)
    };
    let start: u64 = match start_given {
        Some(n) => n,
        None => {
            return Err(RangeError::Malformed);
        },
    };
    let end_given = if second.len() > 0 {
        parse_u64(string_of(second).as_str())
    } else {
        None
    };
    if second.len() > 0 && end_given.is_none() {
        return Err(RangeError::Malformed);
    }
    if file_size == 0 {
        return Err(RangeError::Unsatisfiable);
    }
    let last: u64 = file_size - 1;
    let asked: u64 = match end_given {
        Some(n) => n,
        None => last,
    };
    let end: u64 = if asked > last {
        last
    } else {
        asked
    };
    if start >= file_size || start > end {
        Err(RangeError::Unsatisfiable)
    } else {
        Ok(ByteRange { start, end })
    }
}

/// Parses a `Range` header of the form `bytes=start-end` against the size of
/// the file. Only the first range of a list is read.
pub fn parse_range(header: &str, file_size: u64) -> (r: Result<ByteRange, RangeError>)
    ensures
        r == range_of_header(header@, file_size),
        r matches Ok(range) ==> range.start <= range.end < file_size,
{
    let v = chars_of(header);
    if !has_prefix(v.as_slice(), "bytes=") {
        return Err(RangeError::Malformed);
    }
    proof {
        reveal_strlit("bytes=");
    }
    let rest = vstd::slice::slice_subrange(v.as_slice(), 6, v.len());
    let comma = find_char(rest, ',');
    let part = string_of(vstd::slice::slice_subrange(rest, 0, comma));
    let spec = trim(part.as_str());
    parse_range_spec(spec, file_size)
}

/// Files above this size are always streamed: 50 MiB.
pub const STREAM_THRESHOLD: u64 = 52428800;

/// How an original is served.
#[derive(Debug, Clone, Copy, PartialEq, Eq, Structural)]
pub enum OriginalPlan {
    /// The file is empty: 404.
    Empty,
    /// The range cannot be served: 416.
    RangeNotSatisfiable,
    /// Part of the file: 206, streamed from `range.start`.
    Partial { range: ByteRange, total: u64 },
    /// The whole file: 200, streamed where `stream` is set, else read at
    /// once.
    Full { total: u64, stream: bool },
}

/// The plan for a file of `file_size` bytes and the `Range` header of the
/// request, if it has one.
pub open spec fn original_plan_of(file_size: u64, range: Option<Seq<char>>) -> OriginalPlan {
    if file_size == 0 {
        OriginalPlan::Empty
    } else {
        match range {
            Some(header) => match range_of_header(header, file_size) {
                Ok(r) => OriginalPlan::Partial { range: r, total: file_size },
                Err(_) => OriginalPlan::RangeNotSatisfiable,
            },
            None => OriginalPlan::Full { total: file_size, stream: file_size > STREAM_THRESHOLD },
        }
    }
}

/// Decides how an original is served.
pub fn plan_original(file_size: u64, range: Option<&str>) -> (r: OriginalPlan)
    ensures
        r == original_plan_of(
            file_size,
            match range {
                Some(h) => Some(h@),
                None => None,
            },
        ),
{
    if file_size == 0 {
        return OriginalPlan::Empty;
    }
    match range {
        Some(header) => match parse_range(header, file_size) {
            Ok(r) => OriginalPlan::Partial { range: r, total: file_size },
            Err(_) => OriginalPlan::RangeNotSatisfiable,
        },
        None => OriginalPlan::Full { total: file_size, stream: file_size > STREAM_THRESHOLD },
    }
}

impl OriginalPlan {
    /// The HTTP status of the response.
    pub open spec fn status(&self) -> int {
        match self {
            OriginalPlan::Empty => 404,
            OriginalPlan::RangeNotSatisfiable => 416,
            OriginalPlan::Partial { .. } => 206,
            OriginalPlan::Full { .. } => 200,
        }
    }

    /// The number of bytes in the body of the response.
    pub open spec fn body_len(&self) -> int {
        match self {
            OriginalPlan::Partial { range, .. } => range.len(),
            OriginalPlan::Full { total, .. } => *total as int,
            _ => 0,
        }
    }

    /// The HTTP status of the response.
    pub fn status_code(&self) -> (r: u16)
        ensures
            r == self.status(),
    {
        match self {
            OriginalPlan::Empty => 404,
            OriginalPlan::RangeNotSatisfiable => 416,
            OriginalPlan::Partial { .. } => 206,
            OriginalPlan::Full { .. } => 200,
        }
    }
}

/// The `Content-Range` header of a partial response.
pub open spec fn content_range_of(range: ByteRange, total: u64) -> Seq<char> {
    "bytes "@ + decimal(range.start as nat) + seq!['-'] + decimal(range.end as nat) + seq!['/']
        + decimal(total as nat)
}

/// The `Content-Range` header of a partial response:
/// `bytes start-end/total`.
pub fn content_range(range: ByteRange, total: u64) -> (r: String)
    ensures
        r@ == content_range_of(range, total),
{
    let mut out = String::from_str("bytes ");
    out.append(decimal_string(range.start).as_str());
    out.append("-");
    out.append(decimal_string(range.end).as_str());
    out.append("/");
    out.append(decimal_string(total).as_str());
    proof {
        reveal_strlit("-");
        reveal_strlit("/");
        assert("-"@ == seq!['-']);
        assert("/"@ == seq!['/']);
    }
    out
}

/// The MIME type of an original by its lower-cased extension.
pub open spec fn original_mime_of(ext: Seq<char>) -> Seq<char> {
    if ext == "mp4"@ {
        "video/mp4"@
    } else if ext == "mov"@ {
        "video/quicktime"@
    } else if ext == "avi"@ {
        "video/x-msvideo"@
    } else if ext == "mkv"@ {
        "video/x-matroska"@
    } else if ext == "webm"@ {
        "video/webm"@
    } else if ext == "jpg"@ || ext == "jpeg"@ {
        "image/jpeg"@
    } else if ext == "png"@ {
        "image/png"@
    } else {
        "application/octet-stream"@
    }
}

/// The content type of an original: the stored MIME type, or one inferred
/// from the extension of the path where none is stored.
pub open spec fn content_type_of(stored: Option<Seq<char>>, path: Seq<char>) -> Seq<char> {
    match stored {
        Some(m) => m,
        None => match lower_extension(path) {
            Some(e) => original_mime_of(e),
            None => original_mime_of(Seq::empty()),
        },
    }
}

/// The content type of an original.
pub fn original_content_type(stored: Option<&String>, path: &str) -> (r: String)
    ensures
        r@ == content_type_of(
            match stored {
                Some(m) => Some(m@),
                None => None,
            },
            path@,
        ),
{
    match stored {
        Some(m) => m.clone(),
        None => {
            let ext = match lowercase_extension(path) {
                Some(e) => e,
                None => String::new(),
            };
            let e = ext.as_str();
            if str_eq(e, "mp4") {
                String::from_str("video/mp4")
            } else if str_eq(e, "mov") {
                String::from_str("video/quicktime")
            } else if str_eq(e, "avi") {
                String::from_str("video/x-msvideo")
            } else if str_eq(e, "mkv") {
                String::from_str("video/x-matroska")
            } else if str_eq(e, "webm") {
                String::from_str("video/webm")
            } else if str_eq(e, "jpg") || str_eq(e, "jpeg") {
                String::from_str("image/jpeg")
            } else if str_eq(e, "png") {
                String::from_str("image/png")
            } else {
                String::from_str("application/octet-stream")
            }
        },
    }
}

/// A satisfiable range lies within the file and its length is the number
/// of bytes from start to end; a partial response is never empty.
pub proof fn lemma_range_within_file(header: Seq<char>, file_size: u64)
    ensures
        range_of_header(header, file_size) matches Ok(range) ==> range.start <= range.end
            < file_size && 1 <= range.len() <= file_size,
        original_plan_of(file_size, Some(header)).status() == 206 ==> 1 <= original_plan_of(
            file_size,
            Some(header),
        ).body_len() <= file_size,
        original_plan_of(file_size, Some(header)).status() != 200,
{
}

/// A range whose start lies at or beyond the end of the file, or beyond its
/// own end, is answered with 416.
pub proof fn lemma_range_beyond_file(first: Seq<char>, second: Seq<char>, file_size: u64)
    requires
        file_size > 0,
        first_index(first, '-') == first.len(),
        first_index(second, '-') == second.len(),
        parsed_u64(first) is Some,
        parsed_u64(second) is Some,
        parsed_u64(first).unwrap() >= file_size || parsed_u64(first).unwrap() > parsed_u64(
            second,
        ).unwrap(),
    ensures
        range_of_spec(first + seq!['-'] + second, file_size) == Err::<ByteRange, RangeError>(
            RangeError::Unsatisfiable,
        ),
{
    let spec = first + seq!['-'] + second;
    lemma_first_index(first, '-');
    crate::text::lemma_first_index_is(spec, '-', first.len() as int);
    assert(spec.subrange(0, first.len() as int) == first);
    assert(spec.subrange(first.len() as int + 1, spec.len() as int) == second);
    assert(first.len() > 0) by {
        if first.len() == 0 {
            assert(parsed_u64(first) is None);
        }
    }
    assert(second.len() > 0) by {
        if second.len() == 0 {
            assert(parsed_u64(second) is None);
        }
    }
}

} // verus!
