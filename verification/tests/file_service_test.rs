use latte_album::config::Config;
use latte_album::db::models::MediaFile;
use latte_album::processors::heif_processor::HeifImageProcessor;
use latte_album::processors::image_processor::StandardImageProcessor;
use latte_album::processors::processor_trait::{Processor, ProcessorRegistry};
use latte_album::processors::video_processor::VideoProcessor;
use latte_album::services::cache_service::{
    cache_key, in_either_tier, CacheLookup, CacheService,
};
use latte_album::services::file_service::{
    fallback_mime_type, guess_mime_type, guess_mime_type_from_path, is_browser_native_format,
    keeps_original, needs_file_name, size_label_for_width, FileFacts, FileService,
    ThumbnailSource,
};
use latte_album::services::scheduler::Scheduler;

fn new_cache() -> CacheService {
    let config = Config::default();
    CacheService::new("/var/cache/latte", config.cache_max_capacity, config.cache_ttl_seconds)
}

fn hit(cache: &CacheService, id: &str, size: &str) -> Option<Vec<u8>> {
    match cache.get_thumbnail(id, size) {
        CacheLookup::Hit(data) => Some(data),
        CacheLookup::ReadDisk(_) => None,
    }
}

fn registry() -> ProcessorRegistry {
    let mut r = ProcessorRegistry::new();
    r.register(Processor::Heif(HeifImageProcessor::new()));
    r.register(Processor::StandardImage(StandardImageProcessor::new()));
    r.register(Processor::Video(VideoProcessor::new(None)));
    r
}

fn record(name: &str, file_type: &str) -> MediaFile {
    MediaFile::new(format!("/photos/{}", name), name.to_string(), file_type.to_string())
}

#[test]
fn test_cache_service_operations() {
    let mut cache = new_cache();

    // Test put and get
    let test_data: &[u8] = b"test thumbnail data";
    let path = cache.put_thumbnail("test-file-id", "small", test_data);
    assert_eq!(path, "/var/cache/latte/test-file-id_small");

    let retrieved = hit(&cache, "test-file-id", "small");
    assert!(retrieved.is_some());
    assert_eq!(retrieved.unwrap(), test_data);

    // Test cache miss
    let missed = hit(&cache, "other-file-id", "small");
    assert!(missed.is_none());

    // Test delete
    let files = cache.delete_thumbnail("test-file-id", Some("small"));
    assert_eq!(files, vec!["/var/cache/latte/test-file-id_small".to_string()]);
    let after_delete = hit(&cache, "test-file-id", "small");
    assert!(after_delete.is_none());
}

#[test]
fn test_cache_clear() {
    let mut cache = new_cache();

    // Add some data
    cache.put_thumbnail("file1", "small", b"data1");
    cache.put_thumbnail("file2", "small", b"data2");

    // Clear all
    assert_eq!(cache.clear_all(), "/var/cache/latte");

    // Verify cleared
    let result1 = hit(&cache, "file1", "small");
    let result2 = hit(&cache, "file2", "small");
    assert!(result1.is_none());
    assert!(result2.is_none());
}

#[test]
fn test_cache_size_calculation() {
    let cache = new_cache();
    // Initial size should be >= 0
    let size = cache.get_cache_size(&Vec::new());
    assert_eq!(size, 0);
    // Size should increase
    let new_size = cache.get_cache_size(&vec![1000]);
    assert!(new_size >= size);
    assert_eq!(cache.get_cache_size(&vec![1000, 24, 1_000_000]), 1_001_024);
    assert_eq!(cache.get_cache_size(&vec![u64::MAX, 5]), u64::MAX);
    assert_eq!(cache.get_disk_cache_dir(), "/var/cache/latte");
}

#[test]
fn the_second_get_gives_the_bytes_of_the_first() {
    let mut cache = CacheService::new_with_defaults("cache");
    let bytes: Vec<u8> = (0..200).map(|i| (i * 7) as u8).collect();
    cache.put_thumbnail_bytes("id", "medium", bytes.clone());
    let first = hit(&cache, "id", "medium").unwrap();
    let second = hit(&cache, "id", "medium").unwrap();
    assert_eq!(first, bytes);
    assert_eq!(second, first);
    // A later put replaces the bytes.
    cache.put_thumbnail("id", "medium", b"new");
    assert_eq!(hit(&cache, "id", "medium").unwrap(), b"new");
    // Other sizes are other entries.
    assert!(hit(&cache, "id", "large").is_none());
    match cache.get_thumbnail("id", "large") {
        CacheLookup::ReadDisk(path) => assert_eq!(path, "cache/id_large"),
        CacheLookup::Hit(_) => panic!("nothing was put for the large size"),
    }
    assert_eq!(cache.get_thumbnail_disk_path("id", "full"), "cache/id_full");
    assert_eq!(cache_key("a", "b"), "a_b");
    assert_eq!(cache_key("", ""), "_");
}

#[test]
fn a_disk_hit_is_promoted_into_memory() {
    let mut cache = new_cache();
    assert!(!cache.has_thumbnail("id", "small", false));
    assert!(cache.has_thumbnail("id", "small", true));
    assert_eq!(cache.promote("id", "small", None), None);
    assert!(hit(&cache, "id", "small").is_none());
    assert_eq!(cache.promote("id", "small", Some(vec![1, 2, 3])), Some(vec![1, 2, 3]));
    assert_eq!(hit(&cache, "id", "small"), Some(vec![1, 2, 3]));
    assert!(cache.has_thumbnail("id", "small", false));
}

#[test]
fn delete_without_a_size_drops_every_size() {
    let mut cache = new_cache();
    for size in ["small", "medium", "large", "full"] {
        cache.put_thumbnail("id", size, size.as_bytes());
    }
    cache.put_thumbnail("other", "small", b"x");
    let files = cache.delete_thumbnail("id", None);
    assert_eq!(
        files,
        vec![
            "/var/cache/latte/id_small".to_string(),
            "/var/cache/latte/id_medium".to_string(),
            "/var/cache/latte/id_large".to_string(),
            "/var/cache/latte/id_full".to_string(),
        ]
    );
    for size in ["small", "medium", "large", "full"] {
        assert!(hit(&cache, "id", size).is_none());
    }
    assert_eq!(hit(&cache, "other", "small"), Some(b"x".to_vec()));
}

#[test]
fn mime_types_by_name() {
    assert_eq!(guess_mime_type("a.JPG"), "image/jpeg");
    assert_eq!(guess_mime_type("a.jpeg"), "image/jpeg");
    assert_eq!(guess_mime_type("a.png"), "image/png");
    assert_eq!(guess_mime_type("a.gif"), "image/gif");
    assert_eq!(guess_mime_type("a.webp"), "image/webp");
    assert_eq!(guess_mime_type("a.heic"), "image/heic");
    assert_eq!(guess_mime_type("a.heif"), "image/heic");
    assert_eq!(guess_mime_type("a.mp4"), "video/mp4");
    assert_eq!(guess_mime_type("a.mov"), "video/quicktime");
    assert_eq!(guess_mime_type("a.avi"), "video/x-msvideo");
    assert_eq!(guess_mime_type("a.mkv"), "video/x-matroska");
    assert_eq!(guess_mime_type("a.tiff"), "application/octet-stream");
    assert_eq!(guess_mime_type("png"), "image/png");
    assert_eq!(guess_mime_type("a.tar.gz"), "application/octet-stream");
    assert_eq!(guess_mime_type_from_path("a.avif"), "image/avif");
    assert_eq!(guess_mime_type_from_path("a.svg"), "image/svg+xml");
    assert_eq!(guess_mime_type_from_path("a.tif"), "image/tiff");
    assert_eq!(guess_mime_type_from_path("a.TIFF"), "image/tiff");
    assert_eq!(guess_mime_type_from_path("a.bmp"), "image/bmp");
    assert_eq!(guess_mime_type_from_path("a.heif"), "image/heic");
    assert_eq!(guess_mime_type_from_path("a.jpg"), "image/jpeg");
    assert_eq!(guess_mime_type_from_path("a.mp4"), "application/octet-stream");
    for native in ["a.jpg", "a.jpeg", "a.PNG", "a.gif", "a.webp", "a.avif", "a.svg", "svg"] {
        assert!(is_browser_native_format(native), "{}", native);
    }
    for other in ["a.heic", "a.tiff", "a.bmp", "a.mp4", "a"] {
        assert!(!is_browser_native_format(other), "{}", other);
    }
    assert_eq!(size_label_for_width(0), "full");
    assert_eq!(size_label_for_width(1), "small");
    assert_eq!(size_label_for_width(300), "small");
    assert_eq!(size_label_for_width(301), "medium");
    assert_eq!(size_label_for_width(450), "medium");
    assert_eq!(size_label_for_width(451), "large");
}

#[test]
fn fallback_goes_by_the_magic_bytes() {
    assert_eq!(fallback_mime_type(&[0xFF, 0xD8, 0xFF]), Some("image/jpeg".to_string()));
    assert_eq!(fallback_mime_type(b"\x89PNG\r\n\x1a\n...."), Some("image/png".to_string()));
    assert_eq!(fallback_mime_type(b"\x89PNG\r\n\x1a"), None);
    assert_eq!(fallback_mime_type(&[0xFF]), None);
    assert_eq!(fallback_mime_type(b"GIF89a"), None);
    assert_eq!(fallback_mime_type(&[]), None);
}

#[test]
fn where_a_thumbnail_comes_from() {
    let service = FileService::new(new_cache(), registry());
    let png = record("a.png", "image");
    let heic = record("b.heic", "image");
    let raw = record("c.raw", "image");
    let mp4 = record("d.mp4", "video");

    let facts = service.facts_for(Some(&png), true);
    assert_eq!(
        facts,
        FileFacts { record_found: true, path_exists: true, browser_native: true, has_processor: true, is_image: true }
    );
    // The full size of a browser-native format is passed through, and
    // nothing else is tried for it.
    assert_eq!(service.get_thumbnail(0, facts), vec![ThumbnailSource::Passthrough]);
    assert_eq!(
        service.get_thumbnail(600, facts),
        vec![ThumbnailSource::Generate, ThumbnailSource::Fallback]
    );
    let facts = service.facts_for(Some(&heic), true);
    assert!(!facts.browser_native);
    assert_eq!(service.get_thumbnail(0, facts), vec![ThumbnailSource::Generate]);
    let facts = service.facts_for(Some(&raw), true);
    assert!(!facts.has_processor);
    assert_eq!(service.get_thumbnail(300, facts), vec![ThumbnailSource::Fallback]);
    assert_eq!(service.get_thumbnail(0, facts), vec![]);
    let facts = service.facts_for(Some(&mp4), true);
    assert_eq!(service.get_thumbnail(300, facts), vec![ThumbnailSource::Generate]);
    assert_eq!(service.get_thumbnail(300, service.facts_for(Some(&png), false)), vec![]);
    assert_eq!(service.get_thumbnail(300, service.facts_for(None, true)), vec![]);
}

#[test]
fn full_size_of_a_png_is_passed_through_and_cached() {
    let mut service = FileService::new(new_cache(), registry());
    let source: Vec<u8> = b"\x89PNG\r\n\x1a\n-the-original-bytes-".to_vec();
    assert!(service.lookup("id-1", "full", "holiday.png").is_err());
    assert_eq!(
        service.lookup("id-1", "full", "holiday.png").unwrap_err(),
        "/var/cache/latte/id-1_full"
    );
    assert!(service.on_disk_read("id-1", "full", "holiday.png", None).is_none());
    let (served, write_to) = service
        .serve("id-1", "full", ThumbnailSource::Passthrough, "holiday.png", source.clone())
        .unwrap();
    assert_eq!(served.mime_type, "image/png");
    assert_eq!(served.data, source);
    assert_eq!(served.data.len(), source.len());
    assert!(served.cache);
    assert_eq!(write_to, Some("/var/cache/latte/id-1_full".to_string()));
    // The second request is answered from memory with the same bytes.
    let again = service.lookup("id-1", "full", "holiday.png").unwrap();
    assert_eq!(again.data, source);
    assert!(!again.cache);
    assert_eq!(again.mime_type, "image/png");
    // So is a request that finds the bytes in the disk tier.
    let from_disk = service.on_disk_read("id-1", "full", "holiday.png", Some(source.clone())).unwrap();
    assert_eq!(from_disk.data, source);
    assert_eq!(from_disk.mime_type, "image/png");
    assert_eq!(service.lookup("pic.png", "small", "pic.png").map(|t| t.mime_type).ok(), None);
}

#[test]
fn a_cached_full_size_image_keeps_its_content_type() {
    // The record id is a UUID: it tells nothing of the type.
    let id = "3f2b8c1e-7d4a-4e2b-9a51-0c6f1d2e3a4b";
    let mut service = FileService::new(new_cache(), registry());
    let jpeg: Vec<u8> = vec![0xFF, 0xD8, 0xFF, 0xE0, 1, 2, 3];
    let (first, _) =
        service.serve(id, "full", ThumbnailSource::Passthrough, "IMG_0001.JPG", jpeg.clone()).unwrap();
    assert_eq!(first.mime_type, "image/jpeg");
    assert!(first.cache);
    let second = service.lookup(id, "full", "IMG_0001.JPG").unwrap();
    assert_eq!(second.data, first.data);
    assert_eq!(second.mime_type, first.mime_type);

    // A generated full-size JPEG of a format that browsers do not show.
    let (first, write_to) =
        service.serve("h", "full", ThumbnailSource::Generate, "a.heic", jpeg.clone()).unwrap();
    assert_eq!(first.mime_type, "image/jpeg");
    assert!(first.cache);
    assert_eq!(write_to, Some("/var/cache/latte/h_full".to_string()));
    let second = service.lookup("h", "full", "a.heic").unwrap();
    assert_eq!(second.data, jpeg);
    assert_eq!(second.mime_type, "image/jpeg");

    // What the cache would not serve again as it was served is not served:
    // a generated full size of a browser-native file, a passthrough of
    // another size or of a file that browsers do not show.
    assert!(service.serve("g", "full", ThumbnailSource::Generate, "b.png", jpeg.clone()).is_none());
    assert!(service.lookup("g", "full", "b.png").is_err());
    assert!(service
        .serve("p", "small", ThumbnailSource::Passthrough, "b.png", jpeg.clone())
        .is_none());
    assert!(service.lookup("p", "small", "b.png").is_err());
    assert!(service
        .serve("q", "full", ThumbnailSource::Passthrough, "b.heic", jpeg.clone())
        .is_none());
    assert!(service.lookup("q", "full", "b.heic").is_err());

    // Every browser-native format is served under a type of its own.
    let (first, _) =
        service.serve("a", "full", ThumbnailSource::Passthrough, "x.avif", vec![7]).unwrap();
    assert_eq!(first.mime_type, "image/avif");
    assert_eq!(service.lookup("a", "full", "x.avif").unwrap().mime_type, "image/avif");
    let (first, _) =
        service.serve("s", "full", ThumbnailSource::Passthrough, "x.svg", vec![7]).unwrap();
    assert_eq!(first.mime_type, "image/svg+xml");

    assert!(needs_file_name("full"));
    assert!(!needs_file_name("small"));
    assert!(keeps_original("full", "x.WebP"));
    assert!(!keeps_original("full", "x.heic"));
    assert!(!keeps_original("large", "x.webp"));
}

#[test]
fn generated_thumbnails_are_jpeg_and_fallbacks_are_not_cached() {
    let mut service = FileService::new(new_cache(), registry());
    let (served, write_to) = service
        .serve("id", "medium", ThumbnailSource::Generate, "a.heic", vec![0xFF, 0xD8, 1])
        .unwrap();
    assert_eq!(served.mime_type, "image/jpeg");
    assert!(served.cache);
    assert!(write_to.is_some());
    let cached = service.lookup("id", "medium", "a.heic").unwrap();
    assert_eq!(cached.data, vec![0xFF, 0xD8, 1]);
    assert_eq!(cached.mime_type, "image/jpeg");

    let (served, write_to) = service
        .serve("id2", "small", ThumbnailSource::Fallback, "a.png", b"\x89PNG\r\n\x1a\nrest".to_vec())
        .unwrap();
    assert_eq!(served.mime_type, "image/png");
    assert!(!served.cache);
    assert_eq!(write_to, None);
    assert!(service.lookup("id2", "small", "a.png").is_err());
    assert!(service.serve("id2", "small", ThumbnailSource::Fallback, "a.png", b"GIF89a".to_vec()).is_none());
    assert!(service.generate_fallback_thumbnail(b"junk".to_vec()).is_none());
    assert_eq!(
        service.generate_fallback_thumbnail(vec![0xFF, 0xD8]).unwrap().mime_type,
        "image/jpeg"
    );
    let promoted = service.on_disk_read("id3", "full", "c.gif", Some(vec![9])).unwrap();
    assert_eq!(promoted.data, vec![9]);
    assert_eq!(promoted.mime_type, "image/gif");
    assert_eq!(service.lookup("id3", "full", "c.gif").unwrap().data, vec![9]);
    let cached = service.cached_thumbnail("full", "photo.webp", vec![1]);
    assert_eq!(cached.mime_type, "image/webp");
    let cached = service.cached_thumbnail("large", "photo.webp", vec![1]);
    assert_eq!(cached.mime_type, "image/jpeg");
    let cached = service.cached_thumbnail("full", "clip.mp4", vec![1]);
    assert_eq!(cached.mime_type, "image/jpeg");
}

#[test]
fn content_type_of_an_original() {
    let service = FileService::new(new_cache(), registry());
    let mut rec = record("clip.MOV", "video");
    assert_eq!(service.get_original_file(&rec), "video/quicktime");
    rec.mime_type = Some("video/x-custom".to_string());
    assert_eq!(service.get_original_file(&rec), "video/x-custom");
}

#[test]
fn test_scheduler_new() {
    let scheduler = Scheduler::new("0 0 2 * * ?");
    assert_eq!(scheduler.cron_expr, "0 0 2 * * ?");
    assert!(!scheduler.running);
}

#[test]
fn test_scheduler_start_stop() {
    let mut scheduler = Scheduler::new("0 0 2 * * ?");
    scheduler.start();
    assert!(scheduler.running);
    scheduler.stop();
    assert!(!scheduler.running);
}

#[test]
fn test_scheduler_with_different_cron() {
    let mut scheduler = Scheduler::new("0 */6 * * *");
    scheduler.start();
    scheduler.stop();
    assert_eq!(scheduler.cron_expr, "0 */6 * * *");
}

#[test]
fn a_thumbnail_is_cached_where_either_tier_has_it() {
    assert!(in_either_tier(&Some(vec![1u8, 2, 3]), false));
    assert!(in_either_tier(&Some(Vec::new()), true));
    assert!(in_either_tier(&None, true));
    assert!(!in_either_tier(&None, false));
}
