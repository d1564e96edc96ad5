use latte_album::text::{chars_of, extension, file_name, find_last, join_path, str_eq};
use latte_album::utils::{format_file_size, get_file_extension, is_image_file, is_video_file};

#[test]
fn test_format_file_size() {
    assert_eq!(format_file_size(500), "500 B");
    assert_eq!(format_file_size(2048), "2.00 KB");
    assert_eq!(format_file_size(1048576), "1.00 MB");
    assert_eq!(format_file_size(1073741824), "1.00 GB");
}

#[test]
fn test_format_file_size_edge_cases() {
    assert_eq!(format_file_size(0), "0 B");
    assert_eq!(format_file_size(1023), "1023 B");
    assert_eq!(format_file_size(1024), "1.00 KB");
    assert_eq!(format_file_size(2048), "2.00 KB");
    assert_eq!(format_file_size(1024 * 1024), "1.00 MB");
    assert_eq!(format_file_size(1024 * 1024 * 1024), "1.00 GB");
}

#[test]
fn test_get_file_extension() {
    assert_eq!(get_file_extension("photo.jpg"), Some("jpg".to_string()));
    assert_eq!(get_file_extension("/path/to/photo.JPG"), Some("jpg".to_string()));
    assert_eq!(get_file_extension("photo"), None);
    assert_eq!(get_file_extension("/path/to.noextension"), Some("noextension".to_string()));
    assert_eq!(get_file_extension("photo.tar.gz"), Some("gz".to_string()));
    assert_eq!(get_file_extension("C:\\Users\\photo.JPG"), Some("jpg".to_string()));
}

#[test]
fn test_is_video_file() {
    assert!(is_video_file("video.mp4"));
    assert!(is_video_file("video.MOV"));
    assert!(is_video_file("video.AVI"));
    assert!(is_video_file("video.mkv"));
    assert!(is_video_file("video.wmv"));
    assert!(is_video_file("video.flv"));
    assert!(is_video_file("video.webm"));
    assert!(!is_video_file("photo.jpg"));
    assert!(!is_video_file("document.pdf"));
    assert!(!is_video_file("video"));
}

#[test]
fn test_is_image_file() {
    assert!(is_image_file("photo.jpg"));
    assert!(is_image_file("photo.HEIC"));
    assert!(is_image_file("photo.JPEG"));
    assert!(is_image_file("photo.png"));
    assert!(is_image_file("photo.gif"));
    assert!(is_image_file("photo.bmp"));
    assert!(is_image_file("photo.webp"));
    assert!(is_image_file("photo.tiff"));
    assert!(!is_image_file("video.mp4"));
    assert!(!is_image_file("document.pdf"));
    assert!(!is_image_file("photo"));
}

#[test]
fn test_combined_utils_usage() {
    let test_cases = vec![
        ("video.mp4", true, false),
        ("photo.jpg", false, true),
        ("document.pdf", false, false),
    ];

    for (path, expected_video, expected_image) in test_cases {
        assert_eq!(is_video_file(path), expected_video, "is_video_file({})", path);
        assert_eq!(is_image_file(path), expected_image, "is_image_file({})", path);
    }
}

#[test]
fn format_file_size_rounds_ties_to_even() {
    assert_eq!(format_file_size(1152), "1.12 KB");
    assert_eq!(format_file_size(1408), "1.38 KB");
    assert_eq!(format_file_size(1664), "1.62 KB");
    assert_eq!(format_file_size(1536), "1.50 KB");
    assert_eq!(format_file_size(u64::MAX), "17179869184.00 GB");
    assert_eq!(format_file_size(9007199254740993), "8388608.00 GB");
}

#[test]
fn file_names_and_extensions_of_paths() {
    assert_eq!(file_name("/photos/a.jpg"), Some("a.jpg".to_string()));
    assert_eq!(file_name("a.jpg"), Some("a.jpg".to_string()));
    assert_eq!(file_name("/photos/.hidden"), Some(".hidden".to_string()));
    assert_eq!(file_name("/photos/"), None);
    assert_eq!(file_name("/"), None);
    assert_eq!(file_name(""), None);
    assert_eq!(file_name("/photos/.."), None);
    assert_eq!(file_name("/photos/."), None);
    assert_eq!(file_name("..."), Some("...".to_string()));
    assert_eq!(extension("/photos/a.jpg"), Some("jpg".to_string()));
    assert_eq!(extension("/photos/a.tar.GZ"), Some("GZ".to_string()));
    assert_eq!(extension("/photos/a."), Some("".to_string()));
    assert_eq!(extension("/photos/a"), None);
    assert_eq!(extension("/photos/.hidden"), None);
    assert_eq!(extension("/photos/.hidden.png"), Some("png".to_string()));
    assert_eq!(extension("/photos.d/a"), None);
    assert_eq!(extension("/photos/.."), None);
    assert_eq!(extension(""), None);
    assert_eq!(join_path("/var/cache", "id_small"), "/var/cache/id_small");
    assert_eq!(join_path("", ""), "/");
    assert_eq!(chars_of("a\u{e9}z"), vec!['a', '\u{e9}', 'z']);
    assert_eq!(chars_of(""), Vec::<char>::new());
    assert!(str_eq("abc", "abc") && !str_eq("abc", "abd") && !str_eq("abc", "ab") && str_eq("", ""));
    assert_eq!(find_last(&['a', '.', 'b', '.', 'c'], '.'), 3);
    assert_eq!(find_last(&['a', 'b'], '.'), 2);
    assert_eq!(find_last(&[], '.'), 0);
}
