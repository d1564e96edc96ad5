use latte_album::api::directories::DirectoryQueryParams;
use latte_album::api::files::{
    content_range, etag, get_size_label, original_content_type, parse_range, parse_range_spec,
    plan_original, thumbnail_request, total_pages, ByteRange, DateResponse, FileQueryParams,
    NeighborResponse, OriginalPlan, PaginatedResponse, RangeError, ThumbnailSize,
    STREAM_THRESHOLD, THUMBNAIL_CACHE_CONTROL, THUMBNAIL_CONTENT_TYPE,
};
use latte_album::api::system::{cancel_scan, get_scan_progress, get_status, trigger_rescan};
use latte_album::config::Config;
use latte_album::db::models::MediaFile;
use latte_album::db::repository::MediaFileRepository;
use latte_album::services::scan_service::ScanService;
use latte_album::websocket::scan_state::ScanStateManager;
use latte_album::db::statements::{
    chunk_bounds, count_query, find_all_query, missing_paths, path_chunks, sort_column,
    touch_chunks, upsert_chunks, ListFilter, FIELDS_PER_FILE, MAX_PARAMS,
};
use latte_album::text::{
    decimal_string, find_char, has_prefix, merge_sorted, parse_u64, percentage_string,
    signed_decimal_string, sort_texts, text_le, PathSet,
};

#[test]
fn size_labels() {
    assert_eq!(get_size_label("small"), "small");
    assert_eq!(get_size_label("medium"), "medium");
    assert_eq!(get_size_label("large"), "large");
    assert_eq!(get_size_label("full"), "full");
    assert_eq!(get_size_label("huge"), "medium");
    assert_eq!(get_size_label(""), "medium");
}

#[test]
fn thumbnail_requests() {
    let config = Config::default();
    let r = thumbnail_request(&ThumbnailSize { size: None }, &config);
    assert_eq!((r.size_label, r.target_size, r.fit_to_height), ("medium", 600, false));
    let r = thumbnail_request(&ThumbnailSize { size: Some("large".to_string()) }, &config);
    assert_eq!((r.size_label, r.target_size, r.fit_to_height), ("large", 900, true));
    let r = thumbnail_request(&ThumbnailSize { size: Some("full".to_string()) }, &config);
    assert_eq!((r.size_label, r.target_size, r.fit_to_height), ("full", 0, false));
    let r = thumbnail_request(&ThumbnailSize { size: Some("small".to_string()) }, &config);
    assert_eq!((r.size_label, r.target_size), ("small", 300));
    let r = thumbnail_request(&ThumbnailSize { size: Some("bogus".to_string()) }, &config);
    assert_eq!((r.size_label, r.target_size), ("medium", 600));
    assert_eq!(etag("abc", "small"), "\"abc-small\"");
    assert_eq!(THUMBNAIL_CACHE_CONTROL, "public, max-age=86400");
    assert_eq!(THUMBNAIL_CONTENT_TYPE, "image/jpeg");
}

#[test]
fn list_query_defaults() {
    let q = FileQueryParams {
        path: None,
        page: None,
        size: None,
        sort_by: None,
        order: None,
        filter_type: None,
        camera_model: None,
        date: None,
    }
    .resolve();
    assert_eq!((q.page, q.size), (0, 50));
    assert_eq!(q.sort_by, "exifTimestamp");
    assert_eq!(q.order, "desc");
    let q = FileQueryParams {
        path: Some("2023".to_string()),
        page: Some(3),
        size: Some(20),
        sort_by: Some("fileName".to_string()),
        order: Some("asc".to_string()),
        filter_type: Some("video".to_string()),
        camera_model: Some("X".to_string()),
        date: Some("2023-06-01".to_string()),
    }
    .resolve();
    assert_eq!((q.page, q.size), (3, 20));
    assert_eq!(q.sort_by, "fileName");
    assert_eq!(q.order, "asc");
    assert_eq!(q.path, Some("2023".to_string()));
    assert_eq!(q.filter_type, Some("video".to_string()));
    assert_eq!(q.date, Some("2023-06-01".to_string()));
    let d = DirectoryQueryParams { path: None };
    assert!(d.path.is_none());
}

#[test]
fn pagination() {
    assert_eq!(total_pages(0, 50), 0);
    assert_eq!(total_pages(1, 50), 1);
    assert_eq!(total_pages(50, 50), 1);
    assert_eq!(total_pages(51, 50), 2);
    assert_eq!(total_pages(10, 3), 4);
    assert_eq!(total_pages(10, -3), -3);
    assert_eq!(total_pages(-10, 3), -3);
    assert_eq!(total_pages(-10, -3), 4);
    assert_eq!(total_pages(5, 0), i32::MAX);
    assert_eq!(total_pages(0, 0), 0);
    assert_eq!(total_pages(-5, 0), i32::MIN);
    assert_eq!(total_pages(i64::MAX, 1), i32::MAX);
    assert_eq!(total_pages(i64::MIN, 1), i32::MIN);
    let page = PaginatedResponse::new(vec![1u8, 2, 3], 103, 2, 50);
    assert_eq!(page.total_pages, 3);
    assert_eq!((page.total, page.page, page.size), (103, 2, 50));
    assert_eq!(page.items, vec![1, 2, 3]);
    let d = DateResponse { date: "2023-06-01".to_string(), count: 1 };
    assert_eq!(d.count, 1);
    let n = NeighborResponse { previous: None, next: None };
    assert!(n.previous.is_none() && n.next.is_none());
}

#[test]
fn byte_ranges() {
    assert_eq!(parse_range("bytes=0-0", 10), Ok(ByteRange { start: 0, end: 0 }));
    assert_eq!(parse_range("bytes=1000-1999", 10_485_760), Ok(ByteRange { start: 1000, end: 1999 }));
    assert_eq!(parse_range("bytes=5-", 10), Ok(ByteRange { start: 5, end: 9 }));
    assert_eq!(parse_range("bytes=-5", 10), Ok(ByteRange { start: 0, end: 5 }));
    assert_eq!(parse_range("bytes=-", 10), Ok(ByteRange { start: 0, end: 9 }));
    assert_eq!(parse_range("bytes=2-100", 10), Ok(ByteRange { start: 2, end: 9 }));
    assert_eq!(parse_range("bytes=9-9", 10), Ok(ByteRange { start: 9, end: 9 }));
    assert_eq!(parse_range("bytes= 2-3 , 5-6", 10), Ok(ByteRange { start: 2, end: 3 }));
    // White space of every kind is taken off both ends of the first range.
    assert_eq!(
        parse_range("bytes=\t\u{a0}\u{3000}2-3\u{2003}\u{85}\r\n,7-8", 10),
        Ok(ByteRange { start: 2, end: 3 })
    );
    // A zero-width space is no white space, and none is taken from within.
    assert_eq!(parse_range("bytes=\u{200b}2-3", 10), Err(RangeError::Malformed));
    assert_eq!(parse_range("bytes=2 -3", 10), Err(RangeError::Malformed));
    // Beyond the file, and start after end.
    assert_eq!(parse_range("bytes=10-", 10), Err(RangeError::Unsatisfiable));
    assert_eq!(parse_range("bytes=10-20", 10), Err(RangeError::Unsatisfiable));
    assert_eq!(parse_range("bytes=5-4", 10), Err(RangeError::Unsatisfiable));
    assert_eq!(parse_range("bytes=0-0", 0), Err(RangeError::Unsatisfiable));
    // Malformed headers.
    assert_eq!(parse_range("items=0-5", 10), Err(RangeError::Malformed));
    assert_eq!(parse_range("bytes=", 10), Err(RangeError::Malformed));
    assert_eq!(parse_range("bytes=5", 10), Err(RangeError::Malformed));
    assert_eq!(parse_range("bytes=1-2-3", 10), Err(RangeError::Malformed));
    assert_eq!(parse_range("bytes=a-b", 10), Err(RangeError::Malformed));
    assert_eq!(parse_range("bytes=1-b", 10), Err(RangeError::Malformed));
    assert_eq!(parse_range("bytes=1 - 2", 10), Err(RangeError::Malformed));
    assert_eq!(parse_range("Bytes=0-1", 10), Err(RangeError::Malformed));
    assert_eq!(parse_range("bytes=99999999999999999999-", 10), Err(RangeError::Malformed));
    assert_eq!(parse_range("", 10), Err(RangeError::Malformed));
    assert_eq!(parse_range_spec("3-4", 10), Ok(ByteRange { start: 3, end: 4 }));
    assert_eq!(parse_range_spec("+3-+4", 10), Ok(ByteRange { start: 3, end: 4 }));
    assert_eq!(ByteRange { start: 1000, end: 1999 }.length(), 1000);
    assert_eq!(ByteRange { start: 0, end: 0 }.length(), 1);
}

#[test]
fn serving_an_original() {
    assert_eq!(plan_original(0, None), OriginalPlan::Empty);
    assert_eq!(plan_original(0, Some("bytes=0-0")), OriginalPlan::Empty);
    assert_eq!(plan_original(0, None).status_code(), 404);
    let one = plan_original(10, Some("bytes=0-0"));
    assert_eq!(one, OriginalPlan::Partial { range: ByteRange { start: 0, end: 0 }, total: 10 });
    assert_eq!(one.status_code(), 206);
    assert_eq!(plan_original(10, Some("bytes=10-11")).status_code(), 416);
    assert_eq!(plan_original(10, Some("bytes=7-3")).status_code(), 416);
    assert_eq!(plan_original(10, Some("nonsense")), OriginalPlan::RangeNotSatisfiable);
    assert_eq!(plan_original(10, None), OriginalPlan::Full { total: 10, stream: false });
    assert_eq!(plan_original(10, None).status_code(), 200);
    assert_eq!(
        plan_original(STREAM_THRESHOLD, None),
        OriginalPlan::Full { total: 52_428_800, stream: false }
    );
    assert_eq!(
        plan_original(STREAM_THRESHOLD + 1, None),
        OriginalPlan::Full { total: 52_428_801, stream: true }
    );
    match plan_original(10_485_760, Some("bytes=1000-1999")) {
        OriginalPlan::Partial { range, total } => {
            assert_eq!(content_range(range, total), "bytes 1000-1999/10485760");
            assert_eq!(range.length(), 1000);
        }
        other => panic!("expected a partial response, got {:?}", other),
    }
    assert_eq!(original_content_type(Some(&"x/y".to_string()), "/a.mp4"), "x/y");
    assert_eq!(original_content_type(None, "/a.MP4"), "video/mp4");
    assert_eq!(original_content_type(None, "/a.mov"), "video/quicktime");
    assert_eq!(original_content_type(None, "/a.avi"), "video/x-msvideo");
    assert_eq!(original_content_type(None, "/a.mkv"), "video/x-matroska");
    assert_eq!(original_content_type(None, "/a.webm"), "video/webm");
    assert_eq!(original_content_type(None, "/a.jpeg"), "image/jpeg");
    assert_eq!(original_content_type(None, "/a.png"), "image/png");
    assert_eq!(original_content_type(None, "/a.heic"), "application/octet-stream");
    assert_eq!(original_content_type(None, "/a"), "application/octet-stream");
}

#[test]
fn chunks_stay_under_the_parameter_ceiling() {
    let chunks = path_chunks(10_000);
    assert_eq!(chunks, vec![(0, 10_000)]);
    let chunks = path_chunks(100_000);
    assert_eq!(chunks, vec![(0, 32766), (32766, 65532), (65532, 98298), (98298, 100_000)]);
    assert!(chunks.iter().all(|(a, b)| b - a <= MAX_PARAMS));
    let chunks = upsert_chunks(10_000);
    assert_eq!(chunks.len(), 8);
    assert_eq!(chunks[0], (0, 1424));
    assert_eq!(chunks[7], (9968, 10_000));
    assert!(chunks.iter().all(|(a, b)| (b - a) * FIELDS_PER_FILE <= MAX_PARAMS));
    let chunks = touch_chunks(32766);
    assert_eq!(chunks, vec![(0, 32765), (32765, 32766)]);
    assert_eq!(chunk_bounds(0, 5), vec![]);
    assert_eq!(chunk_bounds(5, 5), vec![(0, 5)]);
    assert_eq!(chunk_bounds(6, 5), vec![(0, 5), (5, 6)]);
    assert_eq!(chunk_bounds(3, usize::MAX), vec![(0, 3)]);
    assert_eq!(
        missing_paths(
            &vec!["a".to_string(), "b".to_string(), "c".to_string()],
            &vec!["b".to_string(), "x".to_string()]
        ),
        vec!["a".to_string(), "c".to_string()]
    );
}

#[test]
fn listing_statements() {
    let none = ListFilter { path: None, file_type: None, camera_model: None, date_prefix: None };
    let q = find_all_query(&none, "exifTimestamp", "desc", 0, 50);
    assert_eq!(
        q.sql,
        "SELECT * FROM media_files WHERE 1=1 ORDER BY CASE WHEN exif_timestamp IS NOT NULL THEN 0 ELSE 1 END, exif_timestamp DESC LIMIT 50 OFFSET 0"
    );
    assert!(q.params.is_empty());
    let all = ListFilter {
        path: Some("2023".to_string()),
        file_type: Some("image".to_string()),
        camera_model: Some("EOS".to_string()),
        date_prefix: Some("2023-06-01".to_string()),
    };
    let q = find_all_query(&all, "createTime", "asc", 2, 25);
    assert_eq!(
        q.sql,
        "SELECT * FROM media_files WHERE 1=1 AND file_path LIKE ? AND file_type = ? AND camera_model = ? AND (exif_timestamp LIKE ? OR create_time LIKE ? OR modify_time LIKE ?) ORDER BY CASE WHEN create_time IS NOT NULL THEN 0 ELSE 1 END, create_time ASC LIMIT 25 OFFSET 50"
    );
    assert_eq!(q.params, vec!["%2023%", "image", "EOS", "2023-06-01%", "2023-06-01%", "2023-06-01%"]);
    let typed_all = ListFilter { file_type: Some("all".to_string()), ..none.clone() };
    assert!(find_all_query(&typed_all, "x", "x", -1, 7).sql.ends_with(" LIMIT 7 OFFSET -7"));
    assert!(find_all_query(&typed_all, "x", "x", 0, 50).params.is_empty());
    let q = count_query(&all);
    assert_eq!(q.sql, "SELECT COUNT(*) FROM media_files WHERE 1=1 AND file_path LIKE ? AND file_type = ?");
    assert_eq!(q.params, vec!["%2023%", "image"]);
    assert_eq!(count_query(&none).sql, "SELECT COUNT(*) FROM media_files WHERE 1=1");
    assert_eq!(sort_column("exifTimestamp"), "exif_timestamp");
    assert_eq!(sort_column("createTime"), "create_time");
    assert_eq!(sort_column("modifyTime"), "modify_time");
    assert_eq!(sort_column("fileName"), "file_name");
    assert_eq!(sort_column("id; DROP TABLE"), "exif_timestamp");
    assert_eq!(signed_decimal_string(0), "0");
    assert_eq!(signed_decimal_string(-42), "-42");
    assert_eq!(signed_decimal_string(i64::MIN), "-9223372036854775808");
    assert_eq!(signed_decimal_string(i64::MAX), "9223372036854775807");
}

#[test]
fn numbers_as_text() {
    assert_eq!(decimal_string(0), "0");
    assert_eq!(decimal_string(7), "7");
    assert_eq!(decimal_string(10), "10");
    assert_eq!(decimal_string(u64::MAX), "18446744073709551615");
    assert_eq!(parse_u64("0"), Some(0));
    assert_eq!(parse_u64("007"), Some(7));
    assert_eq!(parse_u64("+7"), Some(7));
    assert_eq!(parse_u64("18446744073709551615"), Some(u64::MAX));
    assert_eq!(parse_u64("18446744073709551616"), None);
    assert_eq!(parse_u64(""), None);
    assert_eq!(parse_u64("+"), None);
    assert_eq!(parse_u64("-1"), None);
    assert_eq!(parse_u64(" 1"), None);
    assert_eq!(parse_u64("1 "), None);
    assert_eq!(parse_u64("1_000"), None);
    assert_eq!(parse_u64("\u{0661}"), None);
    assert_eq!(percentage_string(1, 0, 8), "12.50");
    assert_eq!(percentage_string(1, 0, 200), "0.50");
    assert_eq!(percentage_string(1, 0, 2000), "0.05");
    assert_eq!(percentage_string(1, 0, 20000), "0.00");
    assert_eq!(percentage_string(3, 0, 20000), "0.02");
    assert_eq!(percentage_string(0, 0, 0), "0.00");
    let chars: Vec<char> = "a-b-c".chars().collect();
    assert_eq!(find_char(&chars, '-'), 1);
    assert_eq!(find_char(&chars, 'x'), 5);
    assert!(has_prefix(&chars, "a-"));
    assert!(has_prefix(&chars, ""));
    assert!(!has_prefix(&chars, "a-b-c-d"));
    assert!(!has_prefix(&chars, "b"));
    assert!(text_le("", "a"));
    assert!(text_le("a", "a"));
    assert!(text_le("a", "ab"));
    assert!(!text_le("ab", "a"));
    assert!(text_le("Z", "a"));
    assert!(!text_le("b", "a"));
}

fn strings(items: &[&str]) -> Vec<String> {
    items.iter().map(|s| s.to_string()).collect()
}

#[test]
fn sorting_and_bisection() {
    assert_eq!(sort_texts(strings(&[])), strings(&[]));
    assert_eq!(sort_texts(strings(&["b"])), strings(&["b"]));
    assert_eq!(
        sort_texts(strings(&["b", "a", "c", "a", "", "ab", "B"])),
        strings(&["", "B", "a", "a", "ab", "b", "c"])
    );
    let many: Vec<String> = (0..1000).map(|i| format!("/p/{:04}.jpg", (i * 7919) % 1000)).collect();
    let sorted = sort_texts(many.clone());
    let mut expected = many.clone();
    expected.sort();
    assert_eq!(sorted, expected);
    assert_eq!(
        merge_sorted(strings(&["a", "c", "e"]), strings(&["b", "c", "d", "z"])),
        strings(&["a", "b", "c", "c", "d", "e", "z"])
    );
    assert_eq!(merge_sorted(strings(&[]), strings(&["x"])), strings(&["x"]));
    let set = PathSet::new(&many);
    assert_eq!(set.sorted, expected);
    assert!(set.contains("/p/0000.jpg"));
    assert!(set.contains("/p/0999.jpg"));
    assert!(set.contains("/p/0500.jpg"));
    assert!(!set.contains("/p/1000.jpg"));
    assert!(!set.contains(""));
    assert!(!set.contains("/p/0500.jpg "));
    assert!(!PathSet::new(&Vec::new()).contains("a"));
}

fn query(page: Option<i32>, size: Option<i32>, filter_type: Option<&str>) -> FileQueryParams {
    FileQueryParams {
        path: None,
        page,
        size,
        sort_by: None,
        order: None,
        filter_type: filter_type.map(str::to_string),
        camera_model: None,
        date: None,
    }
}

fn list(repo: &MediaFileRepository, params: FileQueryParams) -> PaginatedResponse<MediaFile> {
    let q = params.resolve();
    let filter = ListFilter {
        path: q.path.clone(),
        file_type: q.filter_type.clone(),
        camera_model: q.camera_model.clone(),
        date_prefix: q.date.clone(),
    };
    let items = repo.find_all(&filter, &q.sort_by, &q.order, q.page, q.size);
    let total = repo.count(&ListFilter { camera_model: None, date_prefix: None, ..filter }) as i64;
    PaginatedResponse::new(items, total, q.page, q.size)
}

#[test]
fn test_list_files_empty() {
    let repo = MediaFileRepository::new();
    let body = list(&repo, query(None, None, None));
    assert_eq!(body.items.len(), 0);
    assert_eq!(body.total, 0);
    assert_eq!(body.total_pages, 0);
}

#[test]
fn test_list_files_with_pagination() {
    let repo = MediaFileRepository::new();
    let body = list(&repo, query(Some(0), Some(10), None));
    assert_eq!(body.page, 0);
    assert_eq!(body.size, 10);
}

#[test]
fn test_get_file_details_not_found() {
    let repo = MediaFileRepository::new();
    assert!(repo.find_by_id("non-existent-id").is_none());
}

#[test]
fn test_get_dates_empty() {
    let repo = MediaFileRepository::new();
    let none = ListFilter { path: None, file_type: None, camera_model: None, date_prefix: None };
    assert_eq!(repo.find_dates_with_files(&none).len(), 0);
}

#[test]
fn test_list_files_filter_by_type() {
    let mut repo = MediaFileRepository::new();
    repo.upsert(&MediaFile::new("/p/a.jpg".to_string(), "a.jpg".to_string(), "image".to_string()), 1);
    repo.upsert(&MediaFile::new("/p/b.mp4".to_string(), "b.mp4".to_string(), "video".to_string()), 1);
    let body = list(&repo, query(None, None, Some("image")));
    assert_eq!(body.items.len(), 1);
    assert_eq!(body.items[0].file_name, "a.jpg");
    assert_eq!(body.total, 1);
    assert_eq!(list(&repo, query(None, None, Some("all"))).total, 2);
}

#[test]
fn test_get_system_status() {
    let body = get_status(Some(0), Some(0), Some(0), Some(0), None);
    assert_eq!(body.status, "running");
    assert!(body.image_count >= 0);
    assert!(body.video_count >= 0);
}

#[test]
fn test_trigger_rescan() {
    assert!(trigger_rescan().success);
}

#[test]
fn test_get_scan_progress_idle() {
    let manager = ScanStateManager::new();
    let message = manager.to_progress_message();
    // Status should be "idle" when not scanning
    assert_eq!(message.status, "idle");
    assert_eq!(message.total_files, 0);
    let body = get_scan_progress(message);
    assert!(!body.scanning);
    assert_eq!(body.total_files, 0);
    assert_eq!(body.progress_percentage, "0.00");
}

#[test]
fn test_cancel_scan_not_scanning() {
    let mut engine = ScanService::new(&Config::default());
    let cancelled = engine.cancel();
    assert!(!cancelled);
    let body = cancel_scan(cancelled);
    assert!(!body.success);
    assert_eq!(body.message, "No scan in progress");
}
