use latte_album::config::{
    get_env, get_env_path, get_env_u16, get_env_u32, get_env_u64, get_env_usize, Config,
    ConfigError,
};

fn vars(pairs: &[(&str, &str)]) -> Vec<(String, String)> {
    pairs.iter().map(|(k, v)| (k.to_string(), v.to_string())).collect()
}

#[test]
fn test_default_values() {
    assert_eq!(Config::default().host, "0.0.0.0");
    assert_eq!(Config::default().port, 8080);
    assert_eq!(Config::default().thumbnail_small, 300);
    assert_eq!(Config::default().thumbnail_medium, 600);
    assert_eq!(Config::default().thumbnail_large, 900);
}

#[test]
fn test_get_thumbnail_size() {
    let config = Config {
        thumbnail_small: 300,
        thumbnail_medium: 600,
        thumbnail_large: 900,
        ..Default::default()
    };

    assert_eq!(config.get_thumbnail_size("small"), 300);
    assert_eq!(config.get_thumbnail_size("medium"), 600);
    assert_eq!(config.get_thumbnail_size("large"), 900);
    assert_eq!(config.get_thumbnail_size("full"), 0);
    assert_eq!(config.get_thumbnail_size("unknown"), 600);
}

#[test]
fn test_config_error_display() {
    let error = ConfigError::MissingEnvVar("TEST_VAR".to_string());
    assert_eq!(error.message(), "Missing environment variable: TEST_VAR");

    let error = ConfigError::InvalidValue("TEST_VAR".to_string(), "invalid".to_string());
    assert_eq!(error.message(), "Invalid value for TEST_VAR: invalid");
}

#[test]
fn test_config_full_default() {
    let config = Config::default();

    assert_eq!(config.host, "0.0.0.0");
    assert_eq!(config.port, 8080);
    assert_eq!(config.base_path, "./photos");
    assert_eq!(config.db_path, "./data/album.db");
    assert_eq!(config.cache_dir, "./cache");
    assert_eq!(config.static_dir, "./static/dist");
    assert_eq!(config.thumbnail_small, 300);
    assert_eq!(config.thumbnail_medium, 600);
    assert_eq!(config.thumbnail_large, 900);
    assert_eq!(config.thumbnail_quality, 80);
    assert_eq!(config.scan_worker_count, None);
    assert_eq!(config.scan_cron, "0 0 2 * * ?");
    assert_eq!(config.scan_batch_size, 50);
    assert_eq!(config.ffmpeg_path, "/usr/bin/ffmpeg");
    assert_eq!(config.video_thumbnail_offset_ms, 1000);
    assert_eq!(config.video_thumbnail_duration_ms, 100);
    assert_eq!(config.cache_max_capacity, 1000);
    assert_eq!(config.cache_ttl_seconds, 3600);
    assert_eq!(config.db_batch_check_size, 500);
    assert_eq!(config.db_batch_write_size, 100);
    assert_eq!(config.ws_progress_broadcast_interval, 10);
    assert_eq!(config.api_default_page_size, 50);
    assert_eq!(config.transcoding_threads, 4);
}

#[test]
fn test_transcoding_threads_config() {
    let config = Config::from_env(&vars(&[("TRANSCODING_THREADS", "8")])).unwrap();
    assert_eq!(config.transcoding_threads, 8);
}

#[test]
fn config_io_error_message() {
    let error = ConfigError::IoError("denied".to_string());
    assert_eq!(error.message(), "IO error: denied");
}

#[test]
fn from_env_with_nothing_set_gives_defaults() {
    let config = Config::from_env(&Vec::new()).unwrap();
    let default = Config::default();
    assert_eq!(config.host, default.host);
    assert_eq!(config.port, default.port);
    assert_eq!(config.base_path, default.base_path);
    assert_eq!(config.scan_worker_count, None);
    assert_eq!(config.cache_ttl_seconds, 3600);
    assert_eq!(config.db_batch_check_size, 500);
}

#[test]
fn from_env_reads_every_key() {
    let config = Config::from_env(&vars(&[
        ("HOST", "127.0.0.1"),
        ("PORT", "9000"),
        ("BASE_PATH", "/media"),
        ("DB_PATH", "/var/album.db"),
        ("CACHE_DIR", "/var/cache"),
        ("STATIC_DIR", "/srv/static"),
        ("THUMBNAIL_SMALL", "100"),
        ("THUMBNAIL_MEDIUM", "200"),
        ("THUMBNAIL_LARGE", "400"),
        ("SCAN_CONCURRENCY", "6"),
        ("SCAN_CRON", "0 0 * * * ?"),
        ("SCAN_BATCH_SIZE", "25"),
        ("VIDEO_FFMPEG_PATH", "/opt/ffmpeg"),
        ("CACHE_MAX_CAPACITY", "10"),
        ("CACHE_TTL_SECONDS", "60"),
        ("DB_BATCH_CHECK_SIZE", "7"),
        ("DB_BATCH_WRITE_SIZE", "9"),
        ("WS_PROGRESS_INTERVAL", "3"),
        ("API_DEFAULT_PAGE_SIZE", "20"),
        ("TRANSCODING_THREADS", "2"),
    ]))
    .unwrap();
    assert_eq!(config.host, "127.0.0.1");
    assert_eq!(config.port, 9000);
    assert_eq!(config.base_path, "/media");
    assert_eq!(config.db_path, "/var/album.db");
    assert_eq!(config.cache_dir, "/var/cache");
    assert_eq!(config.static_dir, "/srv/static");
    assert_eq!(config.thumbnail_small, 100);
    assert_eq!(config.thumbnail_medium, 200);
    assert_eq!(config.thumbnail_large, 400);
    assert_eq!(config.scan_worker_count, Some(6));
    assert_eq!(config.scan_cron, "0 0 * * * ?");
    assert_eq!(config.scan_batch_size, 25);
    assert_eq!(config.ffmpeg_path, "/opt/ffmpeg");
    assert_eq!(config.cache_max_capacity, 10);
    assert_eq!(config.cache_ttl_seconds, 60);
    assert_eq!(config.db_batch_check_size, 7);
    assert_eq!(config.db_batch_write_size, 9);
    assert_eq!(config.ws_progress_broadcast_interval, 3);
    assert_eq!(config.api_default_page_size, 20);
    assert_eq!(config.transcoding_threads, 2);
    assert_eq!(config.thumbnail_quality, 80);
}

#[test]
fn numbers_fall_back_to_the_default() {
    let v = vars(&[("A", "0"), ("B", "abc"), ("C", ""), ("D", "70000"), ("E", "+12"), ("F", "-1")]);
    assert!(matches!(get_env_u16(&v, "A", 7), Ok(7)));
    assert!(matches!(get_env_u16(&v, "B", 7), Ok(7)));
    assert!(matches!(get_env_u16(&v, "C", 7), Ok(7)));
    assert!(matches!(get_env_u16(&v, "D", 7), Ok(7)));
    assert!(matches!(get_env_u16(&v, "E", 7), Ok(12)));
    assert!(matches!(get_env_u16(&v, "F", 7), Ok(7)));
    assert!(matches!(get_env_u16(&v, "MISSING", 7), Ok(7)));
    assert!(matches!(get_env_u32(&v, "D", 7), Ok(70000)));
    assert!(matches!(get_env_u64(&v, "D", 7), Ok(70000)));
    assert!(matches!(get_env_usize(&v, "D", 7), Ok(70000)));
    assert!(matches!(get_env_u64(&v, "A", 9), Ok(9)));
}

#[test]
fn the_first_pair_with_a_key_wins() {
    let v = vars(&[("K", "first"), ("K", "second"), ("EMPTY", "")]);
    assert_eq!(get_env(&v, "K", "d").unwrap(), "first");
    assert_eq!(get_env(&v, "EMPTY", "d").unwrap(), "d");
    assert_eq!(get_env(&v, "NONE", "d").unwrap(), "d");
    assert_eq!(get_env_path(&v, "K", "/tmp").unwrap(), "first");
    assert_eq!(get_env_path(&v, "NONE", "/tmp").unwrap(), "/tmp");
}
