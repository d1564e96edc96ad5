use latte_album::db::models::MediaFile;
use latte_album::db::pool::{database_url, DatabaseError};
use latte_album::db::repository::{
    contains_infix, contains_text, record_passes, sort_key, stands_before, MediaFileRepository,
    SortKey,
};
use latte_album::db::statements::ListFilter;

const NOW: i64 = 1_700_500_000;

fn create_test_media_file(file_name: &str) -> MediaFile {
    create_test_media_file_with(file_name, "image", None)
}

fn create_test_media_file_with(file_name: &str, file_type: &str, exif: Option<i64>) -> MediaFile {
    let timestamp = exif.unwrap_or(1_700_000_000);
    let mut file = MediaFile::new(
        format!("/test/photos/{}", file_name),
        file_name.to_string(),
        file_type.to_string(),
    );
    file.mime_type = Some(if file_type == "video" { "video/mp4" } else { "image/jpeg" }.to_string());
    file.file_size = Some(1024);
    file.width = Some(1920);
    file.height = Some(1080);
    file.exif_timestamp = Some(timestamp);
    file.exif_timezone_offset = Some("+08:00".to_string());
    file.create_time = Some(timestamp);
    file.modify_time = Some(timestamp);
    file.camera_make = Some("TestCamera".to_string());
    file.camera_model = Some("TestModel".to_string());
    file.iso = Some(100);
    if file_type == "video" {
        file.duration_ms = Some(10_000);
        file.video_codec = Some("H264".to_string());
    }
    file
}

fn paths(names: &[&str]) -> Vec<String> {
    names.iter().map(|n| format!("/test/photos/{}", n)).collect()
}

#[test]
fn test_batch_upsert() {
    let mut repo = MediaFileRepository::new();
    let files = vec![
        create_test_media_file("test1.jpg"),
        create_test_media_file("test2.jpg"),
        create_test_media_file("test3.jpg"),
    ];

    repo.batch_upsert(&files, NOW);

    assert_eq!(repo.len(), 3);
    assert!(!repo.is_empty());
    for (record, file) in repo.records.iter().zip(files.iter()) {
        assert_eq!(record.id, file.id);
        assert_eq!(record.file_path, file.file_path);
        assert_eq!(record.last_scanned, Some(NOW));
        assert_eq!(record.iso, Some(100));
    }
}

#[test]
fn test_find_by_id() {
    let mut repo = MediaFileRepository::new();
    let file = create_test_media_file("test.jpg");
    let file_id = file.id.clone();

    repo.batch_upsert(&vec![file], NOW);

    let result = repo.find_by_id(&file_id);
    assert!(result.is_some());
    assert_eq!(result.unwrap().file_name, "test.jpg");
}

#[test]
fn test_find_by_id_not_found() {
    let repo = MediaFileRepository::new();
    let result = repo.find_by_id("non-existent-id");
    assert!(result.is_none());
    assert!(repo.is_empty());
}

#[test]
fn test_delete_missing() {
    let mut repo = MediaFileRepository::new();
    let files = vec![
        create_test_media_file("test1.jpg"),
        create_test_media_file("test2.jpg"),
        create_test_media_file("test3.jpg"),
    ];
    repo.batch_upsert(&files, NOW);

    // Delete one file from the "filesystem"
    let existing_paths =
        vec!["/test/photos/test1.jpg".to_string(), "/test/photos/test2.jpg".to_string()];

    assert_eq!(repo.count_missing(&existing_paths), 1);
    assert_eq!(repo.delete_missing(&existing_paths), 1);

    // Verify test3.jpg was deleted
    let result = repo.find_by_id(&files[2].id);
    assert!(result.is_none());

    // Verify test1.jpg and test2.jpg still exist
    let result = repo.find_by_id(&files[0].id);
    assert!(result.is_some());
    assert!(repo.find_by_id(&files[1].id).is_some());
    assert_eq!(repo.len(), 2);
}

#[test]
fn upsert_replaces_by_path_and_keeps_the_id() {
    let mut repo = MediaFileRepository::new();
    let first = create_test_media_file("a.jpg");
    let first_id = first.id.clone();
    repo.upsert(&first, NOW);
    let mut again = create_test_media_file("a.jpg");
    again.width = Some(640);
    assert_ne!(again.id, first_id);
    repo.upsert(&again, NOW + 10);
    assert_eq!(repo.len(), 1);
    let stored = repo.find_by_path("/test/photos/a.jpg").unwrap();
    assert_eq!(stored.id, first_id);
    assert_eq!(stored.width, Some(640));
    assert_eq!(stored.last_scanned, Some(NOW + 10));
    assert!(repo.find_by_path("/test/photos/b.jpg").is_none());
    assert_eq!(repo.position_of_path("/test/photos/a.jpg"), 0);
    assert_eq!(repo.position_of_path("/test/photos/zzz.jpg"), 1);
}

#[test]
fn delete_missing_spares_records_never_scanned() {
    let mut repo = MediaFileRepository::new();
    repo.batch_upsert(&vec![create_test_media_file("old.jpg")], NOW);
    // A record inserted without a scan time.
    repo.records.push(create_test_media_file("fresh.jpg"));
    assert_eq!(repo.records[1].last_scanned, None);
    assert_eq!(repo.count_missing(&Vec::new()), 1);
    assert_eq!(repo.delete_missing(&Vec::new()), 1);
    assert_eq!(repo.len(), 1);
    assert_eq!(repo.records[0].file_name, "fresh.jpg");
}

#[test]
fn touch_marks_only_the_given_paths() {
    let mut repo = MediaFileRepository::new();
    repo.batch_upsert(
        &vec![
            create_test_media_file("a.jpg"),
            create_test_media_file("b.jpg"),
            create_test_media_file("c.jpg"),
        ],
        NOW,
    );
    let touched = repo.batch_touch(&paths(&["a.jpg", "c.jpg", "missing.jpg"]), NOW + 5);
    assert_eq!(touched, 2);
    assert_eq!(repo.records[0].last_scanned, Some(NOW + 5));
    assert_eq!(repo.records[1].last_scanned, Some(NOW));
    assert_eq!(repo.records[2].last_scanned, Some(NOW + 5));
    assert_eq!(repo.batch_touch(&Vec::new(), NOW + 9), 0);
}

#[test]
fn batch_find_returns_the_known_paths_in_catalog_order() {
    let mut repo = MediaFileRepository::new();
    repo.batch_upsert(
        &vec![
            create_test_media_file("a.jpg"),
            create_test_media_file("b.jpg"),
            create_test_media_file("c.jpg"),
        ],
        NOW,
    );
    let found = repo.batch_find_by_paths_batch(&paths(&["c.jpg", "x.jpg", "a.jpg"]));
    let names: Vec<&str> = found.iter().map(|f| f.file_name.as_str()).collect();
    assert_eq!(names, vec!["a.jpg", "c.jpg"]);
    assert!(contains_text(&paths(&["a.jpg"]), "/test/photos/a.jpg"));
    assert!(!contains_text(&paths(&["a.jpg"]), "/test/photos/b.jpg"));
}

#[test]
fn handles_ten_thousand_paths() {
    let mut repo = MediaFileRepository::new();
    repo.batch_upsert(&vec![create_test_media_file("p5.jpg"), create_test_media_file("gone.jpg")], NOW);
    let many: Vec<String> = (0..10_000).map(|i| format!("/test/photos/p{}.jpg", i)).collect();
    assert_eq!(repo.batch_find_by_paths_batch(&many).len(), 1);
    assert_eq!(repo.count_missing(&many), 1);
    assert_eq!(repo.delete_missing(&many), 1);
    assert_eq!(repo.len(), 1);
}

#[test]
fn neighbours_by_effective_sort_time() {
    let mut repo = MediaFileRepository::new();
    let day = 86_400;
    let a = create_test_media_file_with("a.jpg", "image", Some(1_685_613_600));
    let b = create_test_media_file_with("b.jpg", "image", Some(1_685_613_600 + day));
    let c = create_test_media_file_with("c.jpg", "image", Some(1_685_613_600 + 2 * day));
    repo.batch_upsert(&vec![b.duplicate(), c.duplicate(), a.duplicate()], NOW);
    let now = NOW;
    let next = repo.find_neighbors_at(1_685_613_600, false, now).unwrap();
    assert_eq!(next.file_name, "b.jpg");
    let back = repo.find_neighbors_at(next.exif_timestamp.unwrap(), true, now).unwrap();
    assert_eq!(back.id, a.id);
    assert!(repo.find_neighbors_at(1_685_613_600, true, now).is_none());
    assert!(repo.find_neighbors_at(1_685_613_600 + 2 * day, false, now).is_none());
    assert_eq!(
        repo.find_neighbors_at(1_685_613_600 + 2 * day, true, now).unwrap().file_name,
        "b.jpg"
    );
    // With the clock of the machine the same records are valid.
    assert_eq!(repo.find_neighbors(1_685_613_600, false).unwrap().file_name, "b.jpg");
}

#[test]
fn neighbours_skip_records_without_a_sort_time() {
    let mut repo = MediaFileRepository::new();
    let mut blank = MediaFile::new("/x".to_string(), "x".to_string(), "image".to_string());
    blank.exif_timestamp = None;
    repo.upsert(&blank, NOW);
    assert!(repo.find_neighbors_at(0, false, NOW).is_none());
    assert!(repo.find_neighbors_at(i64::MAX, true, NOW).is_none());
}

#[test]
fn delete_by_id_and_thumbnail_status() {
    let mut repo = MediaFileRepository::new();
    let a = create_test_media_file("a.jpg");
    let b = create_test_media_file("b.jpg");
    repo.batch_upsert(&vec![a.duplicate(), b.duplicate()], NOW);
    repo.update_thumbnail_status(&a.id, true);
    assert!(repo.find_by_id(&a.id).unwrap().thumbnail_generated);
    assert!(!repo.find_by_id(&b.id).unwrap().thumbnail_generated);
    assert!(repo.delete_by_id(&a.id));
    assert!(!repo.delete_by_id(&a.id));
    assert_eq!(repo.len(), 1);
    assert_eq!(repo.records[0].id, b.id);
}

#[test]
fn database_errors_and_url() {
    assert_eq!(
        DatabaseError::ConnectionError("refused".to_string()).message(),
        "Database connection error: refused"
    );
    assert_eq!(
        DatabaseError::MigrationError("bad".to_string()).message(),
        "Migration error: bad"
    );
    assert_eq!(DatabaseError::IoError("full".to_string()).message(), "IO error: full");
    assert_eq!(database_url("/data/album.db"), "file:/data/album.db");
}

fn no_filter() -> ListFilter {
    ListFilter { path: None, file_type: None, camera_model: None, date_prefix: None }
}

fn names(files: &[MediaFile]) -> Vec<&str> {
    files.iter().map(|f| f.file_name.as_str()).collect()
}

#[test]
fn test_find_all_pagination() {
    let mut repo = MediaFileRepository::new();

    // Insert 10 files
    let files: Vec<_> = (0..10).map(|i| create_test_media_file(&format!("test{}.jpg", i))).collect();
    repo.batch_upsert(&files, NOW);

    // Get first page
    let result = repo.find_all(&no_filter(), "exif_timestamp", "desc", 0, 5);
    assert_eq!(result.len(), 5);
    assert_eq!(names(&result), vec!["test0.jpg", "test1.jpg", "test2.jpg", "test3.jpg", "test4.jpg"]);

    // Get second page
    let result = repo.find_all(&no_filter(), "exif_timestamp", "desc", 1, 5);
    assert_eq!(result.len(), 5);
    assert_eq!(names(&result), vec!["test5.jpg", "test6.jpg", "test7.jpg", "test8.jpg", "test9.jpg"]);

    assert_eq!(repo.find_all(&no_filter(), "exif_timestamp", "desc", 2, 5).len(), 0);
    assert_eq!(repo.find_all(&no_filter(), "exif_timestamp", "desc", 3, 3).len(), 1);
    assert_eq!(repo.find_all(&no_filter(), "exif_timestamp", "desc", 0, -1).len(), 10);
    assert_eq!(repo.find_all(&no_filter(), "exif_timestamp", "desc", -1, 4).len(), 4);
    assert_eq!(repo.find_all(&no_filter(), "exif_timestamp", "desc", 0, 0).len(), 0);
    assert_eq!(repo.find_all(&no_filter(), "exif_timestamp", "desc", i32::MAX, i32::MAX).len(), 0);
}

#[test]
fn test_find_all_filters() {
    let mut repo = MediaFileRepository::new();

    // Insert test files with different types
    let files = vec![
        create_test_media_file_with("test1.jpg", "image", None),
        create_test_media_file_with("test2.png", "image", None),
        create_test_media_file_with("test3.mp4", "video", None),
    ];
    repo.batch_upsert(&files, NOW);

    // Filter by image type
    let images = ListFilter { file_type: Some("image".to_string()), ..no_filter() };
    let result = repo.find_all(&images, "exif_timestamp", "desc", 0, 50);
    assert_eq!(result.len(), 2);
    assert_eq!(repo.count(&images), 2);

    // Filter by video type
    let videos = ListFilter { file_type: Some("video".to_string()), ..no_filter() };
    let result = repo.find_all(&videos, "exif_timestamp", "desc", 0, 50);
    assert_eq!(result.len(), 1);
    assert_eq!(result[0].file_name, "test3.mp4");

    let all = ListFilter { file_type: Some("all".to_string()), ..no_filter() };
    assert_eq!(repo.count(&all), 3);
    let by_path = ListFilter { path: Some("test2".to_string()), ..no_filter() };
    assert_eq!(names(&repo.find_all(&by_path, "x", "asc", 0, 50)), vec!["test2.png"]);
    let by_camera = ListFilter { camera_model: Some("TestModel".to_string()), ..no_filter() };
    assert_eq!(repo.find_all(&by_camera, "x", "asc", 0, 50).len(), 3);
    let other_camera = ListFilter { camera_model: Some("Other".to_string()), ..no_filter() };
    assert_eq!(repo.find_all(&other_camera, "x", "asc", 0, 50).len(), 0);
    let by_date = ListFilter { date_prefix: Some("2023-11-14".to_string()), ..no_filter() };
    assert_eq!(repo.find_all(&by_date, "x", "asc", 0, 50).len(), 3);
    let other_date = ListFilter { date_prefix: Some("2023-11-15".to_string()), ..no_filter() };
    assert_eq!(repo.find_all(&other_date, "x", "asc", 0, 50).len(), 0);
    assert!(record_passes(&files[0], &no_filter()));
}

#[test]
fn test_find_dates_with_files() {
    let mut repo = MediaFileRepository::new();

    // Insert files with different dates
    let files = vec![
        create_test_media_file_with("photo1.jpg", "image", Some(1700000000)),
        create_test_media_file_with("photo2.jpg", "image", Some(1700088000)),
        create_test_media_file_with("photo3.jpg", "image", Some(1700174400)),
    ];
    repo.batch_upsert(&files, NOW);

    let dates = repo.find_dates_with_files(&no_filter());

    // Should return 3 dates (all files on different days)
    assert_eq!(dates.len(), 3);
    let listed: Vec<(&str, i64)> = dates.iter().map(|d| (d.date.as_str(), d.count)).collect();
    assert_eq!(listed, vec![("2023-11-16", 1), ("2023-11-15", 1), ("2023-11-14", 1)]);
}

#[test]
fn dates_fall_back_from_exif_to_create_to_modify() {
    let mut repo = MediaFileRepository::new();
    let mut a = create_test_media_file("a.jpg");
    a.exif_timestamp = None;
    a.create_time = Some(1_600_000_000);
    let mut b = create_test_media_file("b.jpg");
    b.exif_timestamp = None;
    b.create_time = None;
    b.modify_time = Some(1_500_000_000);
    let mut c = create_test_media_file("c.jpg");
    c.exif_timestamp = None;
    c.create_time = None;
    c.modify_time = None;
    let d = create_test_media_file_with("d.mp4", "video", Some(1_600_000_100));
    repo.batch_upsert(&vec![a, b, c, d], NOW);
    let dates = repo.find_dates_with_files(&no_filter());
    let listed: Vec<&str> = dates.iter().map(|d| d.date.as_str()).collect();
    assert_eq!(listed, vec!["2020-09-13", "2017-07-14"]);
    let videos = ListFilter { file_type: Some("video".to_string()), ..no_filter() };
    assert_eq!(repo.find_dates_with_files(&videos).len(), 1);
    assert!(MediaFileRepository::new().find_dates_with_files(&no_filter()).is_empty());
}

#[test]
fn listing_order_puts_missing_times_last() {
    let mut repo = MediaFileRepository::new();
    let mut none = create_test_media_file("none.jpg");
    none.exif_timestamp = None;
    let early = create_test_media_file_with("early.jpg", "image", Some(100));
    let late = create_test_media_file_with("late.jpg", "image", Some(300));
    let tie = create_test_media_file_with("tie.jpg", "image", Some(300));
    repo.batch_upsert(&vec![none, late, early, tie], NOW);
    assert_eq!(
        names(&repo.find_all(&no_filter(), "exifTimestamp", "desc", 0, 50)),
        vec!["late.jpg", "tie.jpg", "early.jpg", "none.jpg"]
    );
    assert_eq!(
        names(&repo.find_all(&no_filter(), "exifTimestamp", "asc", 0, 50)),
        vec!["early.jpg", "late.jpg", "tie.jpg", "none.jpg"]
    );
    assert_eq!(
        names(&repo.find_all(&no_filter(), "fileName", "asc", 0, 50)),
        vec!["early.jpg", "late.jpg", "none.jpg", "tie.jpg"]
    );
    assert_eq!(
        names(&repo.find_all(&no_filter(), "fileName", "desc", 0, 2)),
        vec!["tie.jpg", "none.jpg"]
    );
    assert_eq!(sort_key("createTime"), SortKey::CreateTime);
    assert_eq!(sort_key("modifyTime"), SortKey::ModifyTime);
    assert_eq!(sort_key("fileName"), SortKey::FileName);
    assert_eq!(sort_key("anything"), SortKey::ExifTimestamp);
    let a = create_test_media_file_with("a.jpg", "image", Some(1));
    let b = create_test_media_file_with("b.jpg", "image", Some(2));
    assert!(stands_before(&a, &b, SortKey::ExifTimestamp, true));
    assert!(!stands_before(&a, &b, SortKey::ExifTimestamp, false));
    assert!(!stands_before(&a, &a, SortKey::FileName, true));
    assert!(stands_before(&b, &a, SortKey::FileName, false));
}

#[test]
fn substring_search() {
    assert!(contains_infix("/photos/2023/a.jpg", "2023"));
    assert!(contains_infix("/photos/2023/a.jpg", "/photos"));
    assert!(contains_infix("/photos/2023/a.jpg", "a.jpg"));
    assert!(contains_infix("/photos/2023/a.jpg", ""));
    assert!(contains_infix("", ""));
    assert!(!contains_infix("", "a"));
    assert!(!contains_infix("/photos/2023/a.jpg", "2024"));
    assert!(!contains_infix("abc", "abcd"));
    assert!(!contains_infix("aab", "abb"));
    assert!(contains_infix("aaab", "aab"));
}
