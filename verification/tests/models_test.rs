use latte_album::db::models::{FileType, MediaFile};

fn secs(y: i32, m: u32, d: u32, h: u32, mi: u32, s: u32) -> i64 {
    chrono::NaiveDate::from_ymd_opt(y, m, d)
        .unwrap()
        .and_hms_opt(h, mi, s)
        .unwrap()
        .and_utc()
        .timestamp()
}

#[test]
fn test_media_file_new() {
    let file = MediaFile::new(
        "/photos/vacation.jpg".to_string(),
        "vacation.jpg".to_string(),
        "image".to_string(),
    );

    assert_eq!(file.file_path, "/photos/vacation.jpg");
    assert_eq!(file.file_name, "vacation.jpg");
    assert_eq!(file.file_type, "image");
    assert!(!file.id.is_empty());
    assert!(!file.thumbnail_generated);
    assert!(file.mime_type.is_none());
    assert!(file.width.is_none());
    assert!(file.height.is_none());
}

#[test]
fn test_media_file_get_effective_sort_time_with_exif() {
    let exif_time = secs(2024, 6, 15, 10, 30, 0);
    let create_time = secs(2024, 6, 16, 0, 0, 0);
    let modify_time = secs(2024, 6, 17, 0, 0, 0);

    let mut file = MediaFile::new("/test.jpg".to_string(), "test.jpg".to_string(), "image".to_string());
    file.exif_timestamp = Some(exif_time);
    file.create_time = Some(create_time);
    file.modify_time = Some(modify_time);

    let result = file.get_effective_sort_time();
    assert_eq!(result, Some(exif_time));
}

#[test]
fn test_media_file_get_effective_sort_time_without_exif() {
    let create_time = secs(2024, 6, 16, 0, 0, 0);
    let modify_time = secs(2024, 6, 17, 0, 0, 0);

    let mut file = MediaFile::new("/test.jpg".to_string(), "test.jpg".to_string(), "image".to_string());
    file.exif_timestamp = None;
    file.create_time = Some(create_time);
    file.modify_time = Some(modify_time);

    let result = file.get_effective_sort_time();
    assert_eq!(result, Some(create_time));
}

#[test]
fn test_media_file_get_effective_sort_time_only_modify() {
    let modify_time = secs(2024, 6, 17, 0, 0, 0);

    let mut file = MediaFile::new("/test.jpg".to_string(), "test.jpg".to_string(), "image".to_string());
    file.exif_timestamp = None;
    file.create_time = None;
    file.modify_time = Some(modify_time);

    let result = file.get_effective_sort_time();
    assert_eq!(result, Some(modify_time));
}

#[test]
fn test_media_file_get_effective_sort_time_none() {
    let file = MediaFile::new("/test.jpg".to_string(), "test.jpg".to_string(), "image".to_string());

    let result = file.get_effective_sort_time();
    assert!(result.is_none());
}

#[test]
fn test_media_file_get_effective_sort_time_invalid_exif() {
    let old_exif = secs(1800, 1, 1, 0, 0, 0);
    let create_time = secs(2024, 6, 16, 0, 0, 0);

    let mut file = MediaFile::new("/test.jpg".to_string(), "test.jpg".to_string(), "image".to_string());
    file.exif_timestamp = Some(old_exif);
    file.create_time = Some(create_time);
    file.modify_time = None;

    let result = file.get_effective_sort_time();
    assert_eq!(result, Some(create_time));
}

#[test]
fn test_file_type_from_string() {
    assert_eq!(FileType::from("image".to_string()), FileType::Image);
    assert_eq!(FileType::from("video".to_string()), FileType::Video);
    assert_eq!(FileType::from("IMAGE".to_string()), FileType::Image);
    assert_eq!(FileType::from("VIDEO".to_string()), FileType::Video);
    assert_eq!(FileType::from("unknown".to_string()), FileType::Image);
}

#[test]
fn test_file_type_from_str() {
    assert_eq!(FileType::from("image"), FileType::Image);
    assert_eq!(FileType::from("video"), FileType::Video);
    assert_eq!(FileType::from("IMAGE"), FileType::Image);
    assert_eq!(FileType::from("VIDEO"), FileType::Video);
    assert_eq!(FileType::from("unknown"), FileType::Image);
}

#[test]
fn new_records_get_distinct_ids_of_36_characters() {
    let a = MediaFile::new("/a.jpg".to_string(), "a.jpg".to_string(), "image".to_string());
    let b = MediaFile::new("/a.jpg".to_string(), "a.jpg".to_string(), "image".to_string());
    assert_eq!(a.id.chars().count(), 36);
    assert_ne!(a.id, b.id);
}

#[test]
fn sort_time_at_a_fixed_instant() {
    let now = secs(2024, 7, 1, 0, 0, 0);
    let mut file = MediaFile::with_id(
        "id".to_string(),
        "/a.jpg".to_string(),
        "a.jpg".to_string(),
        "image".to_string(),
    );
    file.exif_timestamp = Some(secs(2026, 1, 1, 0, 0, 0));
    file.create_time = Some(secs(2024, 8, 1, 0, 0, 0));
    file.modify_time = Some(secs(2024, 6, 1, 0, 0, 0));
    // EXIF year is beyond next year, the creation time lies in the future.
    assert_eq!(file.get_effective_sort_time_at(now), Some(secs(2024, 6, 1, 0, 0, 0)));
    file.exif_timestamp = Some(secs(2025, 12, 31, 23, 59, 59));
    assert_eq!(file.get_effective_sort_time_at(now), Some(secs(2025, 12, 31, 23, 59, 59)));
    file.exif_timestamp = Some(secs(1900, 1, 1, 0, 0, 0));
    assert_eq!(file.get_effective_sort_time_at(now), Some(secs(1900, 1, 1, 0, 0, 0)));
    file.exif_timestamp = Some(secs(1899, 12, 31, 23, 59, 59));
    file.create_time = Some(now);
    assert_eq!(file.get_effective_sort_time_at(now), Some(now));
    assert_eq!(file.duplicate().file_path, "/a.jpg");
    assert_eq!(FileType::Video.as_str(), "video");
    assert_eq!(FileType::Image.as_str(), "image");
}
