//! The configuration, read from environment-style key/value pairs.

use vstd::prelude::*;
use crate::text::{parse_u64, parsed_u64, str_eq};

verus! {

/// Configuration errors.
#[derive(Debug, Clone)]
pub enum ConfigError {
    /// A variable that must be set is not; holds its name.
    MissingEnvVar(String),
    /// A variable holds a value that cannot be used: name and value.
    InvalidValue(String, String),
    /// Reading the environment failed; holds the reason.
    IoError(String),
}

impl ConfigError {
    /// The error as a line of text.
    pub open spec fn text(&self) -> Seq<char> {
        match self {
            ConfigError::MissingEnvVar(name) => "Missing environment variable: "@ + name@,
            ConfigError::InvalidValue(name, value) => "Invalid value for "@ + name@ + ": "@
                + value@,
            ConfigError::IoError(reason) => "IO error: "@ + reason@,
        }
    }

    /// The error as a line of text.
    pub fn message(&self) -> (r: String)
        ensures
            r@ == self.text(),
    {
        match self {
            ConfigError::MissingEnvVar(name) => String::from_str(
                "Missing environment variable: ",
            ).concat(name.as_str()),
            ConfigError::InvalidValue(name, value) => String::from_str("Invalid value for ").concat(
                name.as_str(),
            ).concat(": ").concat(value.as_str()),
            ConfigError::IoError(reason) => String::from_str("IO error: ").concat(reason.as_str()),
        }
    }
}

/// The settings of the server. Paths are held as text; the JPEG quality is
/// a percentage; the video offsets are in milliseconds.
#[derive(Debug, Clone)]
pub struct Config {
    /// Server bind address.
    pub host: String,
    /// Server port.
    pub port: u16,
    /// Base directory for photo/video files.
    pub base_path: String,
    /// Catalog database file path.
    pub db_path: String,
    /// Thumbnail cache directory.
    pub cache_dir: String,
    /// Frontend static files directory.
    pub static_dir: String,
    /// Small thumbnail size in pixels.
    pub thumbnail_small: u32,
    /// Medium thumbnail size in pixels.
    pub thumbnail_medium: u32,
    /// Large thumbnail size in pixels.
    pub thumbnail_large: u32,
    /// JPEG encoding quality, 1 to 100.
    pub thumbnail_quality: u8,
    /// Extraction concurrency; `None` means twice the number of CPU cores.
    pub scan_worker_count: Option<usize>,
    /// Cron expression for scheduled scans.
    pub scan_cron: String,
    /// Batch size for database operations during scan.
    pub scan_batch_size: usize,
    /// Path to the FFmpeg executable.
    pub ffmpeg_path: String,
    /// Video thumbnail capture offset in milliseconds.
    pub video_thumbnail_offset_ms: u64,
    /// Video thumbnail capture duration in milliseconds.
    pub video_thumbnail_duration_ms: u64,
    /// Maximum number of items in the memory cache.
    pub cache_max_capacity: usize,
    /// Cache time-to-live in seconds.
    pub cache_ttl_seconds: u64,
    /// Batch size for checking existing files in the catalog.
    pub db_batch_check_size: usize,
    /// Batch size for writing results to the catalog.
    pub db_batch_write_size: usize,
    /// Progress broadcast interval: a message every N files.
    pub ws_progress_broadcast_interval: u64,
    /// Default page size for list responses.
    pub api_default_page_size: usize,
    /// Number of threads in the transcoding pool.
    pub transcoding_threads: usize,
}

/// The value of the first pair with this key, if any.
pub open spec fn env_lookup(vars: Seq<(String, String)>, key: Seq<char>) -> Option<Seq<char>>
    decreases vars.len(),
{
    if vars.len() == 0 {
        None
    } else if vars[0].0@ == key {
        Some(vars[0].1@)
    } else {
        env_lookup(vars.subrange(1, vars.len() as int), key)
    }
}

/// The value of a variable, or the default where it is unset or empty.
pub open spec fn env_text(vars: Seq<(String, String)>, key: Seq<char>, default: Seq<char>) -> Seq<
    char,
> {
    match env_lookup(vars, key) {
        Some(v) => if v.len() == 0 {
            default
        } else {
            v
        },
        None => default,
    }
}

/// The number that a variable holds, or the default where it is unset, is
/// not a number, is 0, or exceeds `max`.
pub open spec fn env_number(vars: Seq<(String, String)>, key: Seq<char>, default: u64, max: u64) -> u64 {
    match parsed_u64(env_text(vars, key, Seq::empty())) {
        Some(v) => if v == 0 || v > max {
            default
        } else {
            v
        },
        None => default,
    }
}

/// Looks a variable up; the default where it is unset or empty.
pub fn get_env(vars: &Vec<(String, String)>, key: &str, default: &str) -> (r: Result<
    String,
    ConfigError,
>)
    ensures
        r matches Ok(v) && v@ == env_text(vars@, key@, default@),
{
    let mut i: usize = 0;
    assert(vars@.subrange(0, vars@.len() as int) == vars@);
    while i < vars.len()
        invariant
            i <= vars.len(),
            env_lookup(vars@, key@) == env_lookup(vars@.subrange(i as int, vars@.len() as int), key@),
        decreases vars.len() - i,
    {
        let ghost rest = vars@.subrange(i as int, vars@.len() as int);
        assert(rest[0] == vars@[i as int]);
        assert(rest.subrange(1, rest.len() as int) == vars@.subrange(i + 1, vars@.len() as int));
        if str_eq(vars[i].0.as_str(), key) {
            if vars[i].1.as_str().is_empty() {
                return Ok(String::from_str(default));
            }
            return Ok(vars[i].1.clone());
        }
        i = i + 1;
    }
    assert(vars@.subrange(i as int, vars@.len() as int).len() == 0);
    Ok(String::from_str(default))
}

/// A path setting: the text of the variable, or the default.
pub fn get_env_path(vars: &Vec<(String, String)>, key: &str, default: &str) -> (r: Result<
    String,
    ConfigError,
>)
    ensures
        r matches Ok(v) && v@ == env_text(vars@, key@, default@),
{
    get_env(vars, key, default)
}

/// A 64-bit setting: the number in the variable, the default where it is
/// unset, unreadable or 0.
pub fn get_env_u64(vars: &Vec<(String, String)>, key: &str, default: u64) -> (r: Result<
    u64,
    ConfigError,
>)
    ensures
        r == Ok::<u64, ConfigError>(env_number(vars@, key@, default, u64::MAX)),
{
    let value = match get_env(vars, key, "") {
        Ok(v) => v,
        Err(e) => {
            return Err(e);
        },
    };
    proof {
        reveal_strlit("");
        assert(""@ == Seq::<char>::empty());
    }
    match parse_u64(value.as_str()) {
        Some(v) => if v == 0 {
            Ok(default)
        } else {
            Ok(v)
        },
        None => Ok(default),
    }
}

fn get_env_bounded(vars: &Vec<(String, String)>, key: &str, default: u64, max: u64) -> (r: u64)
    ensures
        r == env_number(vars@, key@, default, max),
{
    let value = match get_env(vars, key, "") {
        Ok(v) => v,
        Err(_) => {
            return default;
        },
    };
    proof {
        reveal_strlit("");
        assert(""@ == Seq::<char>::empty());
    }
    match parse_u64(value.as_str()) {
        Some(v) => if v == 0 || v > max {
            default
        } else {
            v
        },
        None => default,
    }
}

/// A 16-bit setting: the number in the variable, the default where it is
/// unset, unreadable, 0 or too large.
pub fn get_env_u16(vars: &Vec<(String, String)>, key: &str, default: u16) -> (r: Result<
    u16,
    ConfigError,
>)
    ensures
        r == Ok::<u16, ConfigError>(
            env_number(vars@, key@, default as u64, u16::MAX as u64) as u16,
        ),
{
    Ok(get_env_bounded(vars, key, default as u64, 65535) as u16)
}

/// A 32-bit setting: the number in the variable, the default where it is
/// unset, unreadable, 0 or too large.
pub fn get_env_u32(vars: &Vec<(String, String)>, key: &str, default: u32) -> (r: Result<
    u32,
    ConfigError,
>)
    ensures
        r == Ok::<u32, ConfigError>(
            env_number(vars@, key@, default as u64, u32::MAX as u64) as u32,
        ),
{
    Ok(get_env_bounded(vars, key, default as u64, 4294967295) as u32)
}

/// A size setting: the number in the variable, the default where it is
/// unset, unreadable, 0 or too large for the machine.
pub fn get_env_usize(vars: &Vec<(String, String)>, key: &str, default: usize) -> (r: Result<
    usize,
    ConfigError,
>)
    ensures
        r == Ok::<usize, ConfigError>(
            env_number(vars@, key@, default as u64, usize::MAX as u64) as usize,
        ),
{
    Ok(get_env_bounded(vars, key, default as u64, usize::MAX as u64) as usize)
}

/// The thumbnail size that a size name asks for: 0 for `full`, the medium
/// size for an unknown name.
pub open spec fn thumbnail_size_of(small: u32, medium: u32, large: u32, size: Seq<char>) -> u32 {
    if size == "small"@ {
        small
    } else if size == "medium"@ {
        medium
    } else if size == "large"@ {
        large
    } else if size == "full"@ {
        0
    } else {
        medium
    }
}

impl Config {
    /// Whether every setting has its default value.
    pub open spec fn is_default(&self) -> bool {
        &&& self.host@ == "0.0.0.0"@
        &&& self.port == 8080
        &&& self.base_path@ == "./photos"@
        &&& self.db_path@ == "./data/album.db"@
        &&& self.cache_dir@ == "./cache"@
        &&& self.static_dir@ == "./static/dist"@
        &&& self.thumbnail_small == 300
        &&& self.thumbnail_medium == 600
        &&& self.thumbnail_large == 900
        &&& self.thumbnail_quality == 80
        &&& self.scan_worker_count is None
        &&& self.scan_cron@ == "0 0 2 * * ?"@
        &&& self.scan_batch_size == 50
        &&& self.ffmpeg_path@ == "/usr/bin/ffmpeg"@
        &&& self.video_thumbnail_offset_ms == 1000
        &&& self.video_thumbnail_duration_ms == 100
        &&& self.cache_max_capacity == 1000
        &&& self.cache_ttl_seconds == 3600
        &&& self.db_batch_check_size == 500
        &&& self.db_batch_write_size == 100
        &&& self.ws_progress_broadcast_interval == 10
        &&& self.api_default_page_size == 50
        &&& self.transcoding_threads == 4
    }

    /// Whether the settings are the ones that these variables give. The
    /// quality and the video offsets are not read here: they keep their
    /// defaults.
    pub open spec fn reads(&self, vars: Seq<(String, String)>) -> bool {
        &&& self.host@ == env_text(vars, "HOST"@, "0.0.0.0"@)
        &&& self.port == env_number(vars, "PORT"@, 8080, u16::MAX as u64)
        &&& self.base_path@ == env_text(vars, "BASE_PATH"@, "./photos"@)
        &&& self.db_path@ == env_text(vars, "DB_PATH"@, "./data/album.db"@)
        &&& self.cache_dir@ == env_text(vars, "CACHE_DIR"@, "./cache"@)
        &&& self.static_dir@ == env_text(vars, "STATIC_DIR"@, "./static/dist"@)
        &&& self.thumbnail_small == env_number(vars, "THUMBNAIL_SMALL"@, 300, u32::MAX as u64)
        &&& self.thumbnail_medium == env_number(vars, "THUMBNAIL_MEDIUM"@, 600, u32::MAX as u64)
        &&& self.thumbnail_large == env_number(vars, "THUMBNAIL_LARGE"@, 900, u32::MAX as u64)
        &&& self.thumbnail_quality == 80
        &&& self.scan_worker_count == (if env_number(
            vars,
            "SCAN_CONCURRENCY"@,
            0,
            usize::MAX as u64,
        ) == 0 {
            None::<usize>
        } else {
            Some(env_number(vars, "SCAN_CONCURRENCY"@, 0, usize::MAX as u64) as usize)
        })
        &&& self.scan_cron@ == env_text(vars, "SCAN_CRON"@, "0 0 2 * * ?"@)
        &&& self.scan_batch_size == env_number(vars, "SCAN_BATCH_SIZE"@, 50, usize::MAX as u64)
        &&& self.ffmpeg_path@ == env_text(vars, "VIDEO_FFMPEG_PATH"@, "/usr/bin/ffmpeg"@)
        &&& self.video_thumbnail_offset_ms == 1000
        &&& self.video_thumbnail_duration_ms == 100
        &&& self.cache_max_capacity == env_number(
            vars,
            "CACHE_MAX_CAPACITY"@,
            1000,
            usize::MAX as u64,
        )
        &&& self.cache_ttl_seconds == env_number(vars, "CACHE_TTL_SECONDS"@, 3600, u64::MAX)
        &&& self.db_batch_check_size == env_number(
            vars,
            "DB_BATCH_CHECK_SIZE"@,
            500,
            usize::MAX as u64,
        )
        &&& self.db_batch_write_size == env_number(
            vars,
            "DB_BATCH_WRITE_SIZE"@,
            100,
            usize::MAX as u64,
        )
        &&& self.ws_progress_broadcast_interval == env_number(
            vars,
            "WS_PROGRESS_INTERVAL"@,
            10,
            u64::MAX,
        )
        &&& self.api_default_page_size == env_number(
            vars,
            "API_DEFAULT_PAGE_SIZE"@,
            50,
            usize::MAX as u64,
        )
        &&& self.transcoding_threads == env_number(
            vars,
            "TRANSCODING_THREADS"@,
            4,
            usize::MAX as u64,
        )
    }

    /// Load configuration from the variables of the environment, given as
    /// pairs of name and value. An unset, empty, unreadable or zero value
    /// gives the default. The JPEG quality and the two video offsets, which
    /// the environment gives as fractions, are left at their defaults for
    /// the caller to set.
    pub fn from_env(vars: &Vec<(String, String)>) -> (r: Result<Config, ConfigError>)
        ensures
            r matches Ok(c) && c.reads(vars@),
    {
        let host = get_env(vars, "HOST", "0.0.0.0")?;
        let port = get_env_u16(vars, "PORT", 8080)?;
        let base_path = get_env_path(vars, "BASE_PATH", "./photos")?;
        let db_path = get_env_path(vars, "DB_PATH", "./data/album.db")?;
        let cache_dir = get_env_path(vars, "CACHE_DIR", "./cache")?;
        let static_dir = get_env_path(vars, "STATIC_DIR", "./static/dist")?;
        let thumbnail_small = get_env_u32(vars, "THUMBNAIL_SMALL", 300)?;
        let thumbnail_medium = get_env_u32(vars, "THUMBNAIL_MEDIUM", 600)?;
        let thumbnail_large = get_env_u32(vars, "THUMBNAIL_LARGE", 900)?;
        let workers = get_env_usize(vars, "SCAN_CONCURRENCY", 0)?;
        let scan_worker_count = if workers == 0 {
            None
        } else {
            Some(workers)
        };
        let scan_cron = get_env(vars, "SCAN_CRON", "0 0 2 * * ?")?;
        let scan_batch_size = get_env_usize(vars, "SCAN_BATCH_SIZE", 50)?;
        let ffmpeg_path = get_env_path(vars, "VIDEO_FFMPEG_PATH", "/usr/bin/ffmpeg")?;
        let cache_max_capacity = get_env_usize(vars, "CACHE_MAX_CAPACITY", 1000)?;
        let cache_ttl_seconds = get_env_u64(vars, "CACHE_TTL_SECONDS", 3600)?;
        let db_batch_check_size = get_env_usize(vars, "DB_BATCH_CHECK_SIZE", 500)?;
        let db_batch_write_size = get_env_usize(vars, "DB_BATCH_WRITE_SIZE", 100)?;
        let ws_progress_broadcast_interval = get_env_u64(vars, "WS_PROGRESS_INTERVAL", 10)?;
        let api_default_page_size = get_env_usize(vars, "API_DEFAULT_PAGE_SIZE", 50)?;
        let transcoding_threads = get_env_usize(vars, "TRANSCODING_THREADS", 4)?;
        Ok(
            Config {
                host,
                port,
                base_path,
                db_path,
                cache_dir,
                static_dir,
                thumbnail_small,
                thumbnail_medium,
                thumbnail_large,
                thumbnail_quality: 80,
                scan_worker_count,
                scan_cron,
                scan_batch_size,
                ffmpeg_path,
                video_thumbnail_offset_ms: 1000,
                video_thumbnail_duration_ms: 100,
                cache_max_capacity,
                cache_ttl_seconds,
                db_batch_check_size,
                db_batch_write_size,
                ws_progress_broadcast_interval,
                api_default_page_size,
                transcoding_threads,
            },
        )
    }

    /// Get thumbnail size dimension. Returns 0 for "full" size to indicate
    /// no resizing, and the medium size for an unknown name.
    pub fn get_thumbnail_size(&self, size: &str) -> (r: u32)
        ensures
            r == thumbnail_size_of(
                self.thumbnail_small,
                self.thumbnail_medium,
                self.thumbnail_large,
                size@,
            ),
    {
        if str_eq(size, "small") {
            self.thumbnail_small
        } else if str_eq(size, "medium") {
            self.thumbnail_medium
        } else if str_eq(size, "large") {
            self.thumbnail_large
        } else if str_eq(size, "full") {
            0
        } else {
            self.thumbnail_medium
        }
    }
}

impl Default for Config {
    fn default() -> (r: Config)
        ensures
            r.is_default(),
    {
        Config {
            host: String::from_str("0.0.0.0"),
            port: 8080,
            base_path: String::from_str("./photos"),
            db_path: String::from_str("./data/album.db"),
            cache_dir: String::from_str("./cache"),
            static_dir: String::from_str("./static/dist"),
            thumbnail_small: 300,
            thumbnail_medium: 600,
            thumbnail_large: 900,
            thumbnail_quality: 80,
            scan_worker_count: None,
            scan_cron: String::from_str("0 0 2 * * ?"),
            scan_batch_size: 50,
            ffmpeg_path: String::from_str("/usr/bin/ffmpeg"),
            video_thumbnail_offset_ms: 1000,
            video_thumbnail_duration_ms: 100,
            cache_max_capacity: 1000,
            cache_ttl_seconds: 3600,
            db_batch_check_size: 500,
            db_batch_write_size: 100,
            ws_progress_broadcast_interval: 10,
            api_default_page_size: 50,
            transcoding_threads: 4,
        }
    }
}

/// With no variable set every setting has its default.
pub proof fn lemma_empty_environment_gives_defaults(c: Config)
    requires
        c.reads(Seq::empty()),
    ensures
        c.is_default(),
{
    assert(parsed_u64(Seq::<char>::empty()) is None);
}

} // verus!
