//! The thumbnail cache: a memory tier held in a `moka` cache, and the names
//! under which the disk tier keeps its files. Reading and writing the files
//! is the caller's work.

use vstd::prelude::*;
use crate::text::{chars_of, string_of};

verus! {

/// `moka::sync::Cache`, the concurrent cache that holds the memory tier. It
/// is carried as it is; nothing is known of what is inside but through
/// [`cache_entries`].
#[verifier::external_type_specification]
#[verifier::external_body]
#[verifier::reject_recursive_types(K)]
#[verifier::reject_recursive_types(V)]
#[verifier::reject_recursive_types(S)]
pub struct ExCache<K, V, S>(moka::sync::Cache<K, V, S>);

/// `bytes::Bytes`, the shared byte buffer that the memory tier holds its
/// values in.
#[verifier::external_type_specification]
#[verifier::external_body]
pub struct ExBytes(bytes::Bytes);

/// What was put into a cache and not invalidated since: for each key the
/// bytes inserted last. The cache may hold less, as entries expire and are
/// evicted; it never holds anything else.
pub uninterp spec fn cache_entries(cache: moka::sync::Cache<String, bytes::Bytes>) -> Map<
    Seq<char>,
    Seq<u8>,
>;

/// A cache that holds nothing.
pub open spec fn no_entries() -> Map<Seq<char>, Seq<u8>> {
    Map::empty()
}

/// The longest time to live that `moka` accepts: a thousand years of 365
/// days, in seconds.
pub const MAX_TTL_SECONDS: u64 = 31536000000;

/// `Cache::builder` with `max_capacity` and `time_to_live`, then `build`: a
/// cache that holds nothing. `build` panics on a time to live above a
/// thousand years.
#[verifier::external_body]
pub(crate) fn memory_new(max_capacity: u64, ttl_seconds: u64) -> (r: moka::sync::Cache<
    String,
    bytes::Bytes,
>)
    requires
        ttl_seconds <= MAX_TTL_SECONDS,
    ensures
        cache_entries(r) == no_entries(),
{
    moka::sync::Cache::builder().max_capacity(max_capacity).time_to_live(
        std::time::Duration::from_secs(ttl_seconds),
    ).build()
}

/// `Cache::get`: a copy of the bytes held for the key. The cache may have
/// dropped the entry; what it returns is what was inserted last.
#[verifier::external_body]
pub(crate) fn memory_get(cache: &moka::sync::Cache<String, bytes::Bytes>, key: &str) -> (r: Option<
    Vec<u8>,
>)
    ensures
        r matches Some(v) ==> cache_entries(*cache).contains_key(key@) && v@ == cache_entries(
            *cache,
        )[key@],
{
    cache.get(key).map(|b| b.to_vec())
}

/// `Cache::insert`: the bytes are held for the key from now on, in place of
/// any held before.
#[verifier::external_body]
pub(crate) fn memory_insert(
    cache: &mut moka::sync::Cache<String, bytes::Bytes>,
    key: &str,
    value: &[u8],
)
    ensures
        cache_entries(*final(cache)) == cache_entries(*old(cache)).insert(key@, value@),
{
    cache.insert(key.to_string(), bytes::Bytes::from(value.to_vec()));
}

/// `Cache::invalidate`: nothing is held for the key any more.
#[verifier::external_body]
pub(crate) fn memory_invalidate(cache: &mut moka::sync::Cache<String, bytes::Bytes>, key: &str)
    ensures
        cache_entries(*final(cache)) == cache_entries(*old(cache)).remove(key@),
{
    cache.invalidate(key);
}

/// `Cache::invalidate_all`: nothing that was inserted before is returned
/// again.
#[verifier::external_body]
pub(crate) fn memory_invalidate_all(cache: &mut moka::sync::Cache<String, bytes::Bytes>)
    ensures
        cache_entries(*final(cache)) == no_entries(),
{
    cache.invalidate_all();
}

/// Whether a thumbnail is cached, given what the memory tier returned for
/// its key and whether its file exists: it is, where either tier has it.
pub fn in_either_tier(memory: &Option<Vec<u8>>, on_disk: bool) -> (r: bool)
    ensures
        r == (memory is Some || on_disk),
{
    match memory {
        Some(_) => true,
        None => on_disk,
    }
}

/// The key of a thumbnail: the record id and the size label, joined by an
/// underscore.
pub open spec fn key_of(file_id: Seq<char>, size: Seq<char>) -> Seq<char> {
    file_id + seq!['_'] + size
}

/// The key of a thumbnail in both tiers, which is also the name of its file
/// in the cache directory.
pub fn cache_key(file_id: &str, size: &str) -> (r: String)
    ensures
        r@ == key_of(file_id@, size@),
{
    let mut out = chars_of(file_id);
    out.push('_');
    let mut tail = chars_of(size);
    out.append(&mut tail);
    assert(out@ == key_of(file_id@, size@));
    string_of(out.as_slice())
}

/// The size labels under which thumbnails are cached.
pub open spec fn size_labels() -> Seq<Seq<char>> {
    seq!["small"@, "medium"@, "large"@, "full"@]
}

/// The keys that a delete drops: the one of the size given, or those of
/// all sizes where none is given.
pub open spec fn keys_to_drop(file_id: Seq<char>, size: Option<Seq<char>>) -> Seq<Seq<char>> {
    match size {
        Some(s) => seq![key_of(file_id, s)],
        None => seq![
            key_of(file_id, "small"@),
            key_of(file_id, "medium"@),
            key_of(file_id, "large"@),
            key_of(file_id, "full"@),
        ],
    }
}

/// The entries of a cache without the first `n` of the keys.
pub open spec fn without_keys(entries: Map<Seq<char>, Seq<u8>>, keys: Seq<Seq<char>>, n: int) -> Map<
    Seq<char>,
    Seq<u8>,
>
    decreases n,
{
    if n <= 0 {
        entries
    } else {
        without_keys(entries, keys, n - 1).remove(keys[n - 1])
    }
}

/// Where the memory tier found nothing.
#[derive(Debug, Clone)]
pub enum CacheLookup {
    /// The memory tier holds the bytes.
    Hit(Vec<u8>),
    /// The memory tier holds nothing: read the file at this path, if it
    /// exists.
    ReadDisk(String),
}

/// Cache service for thumbnails: memory first, then disk.
pub struct CacheService {
    /// The memory tier.
    pub memory_cache: moka::sync::Cache<String, bytes::Bytes>,
    /// The directory of the disk tier.
    pub disk_cache_dir: String,
}

/// The number of entries of the memory tier unless another is given.
pub const DEFAULT_MAX_CAPACITY: usize = 1000;

/// The time to live of the memory tier unless another is given, in seconds.
pub const DEFAULT_TTL_SECONDS: u64 = 3600;

impl CacheService {
    /// What the memory tier was given and has not been told to drop.
    pub open spec fn entries(&self) -> Map<Seq<char>, Seq<u8>> {
        cache_entries(self.memory_cache)
    }

    /// The path of the file that the disk tier keeps for a thumbnail.
    pub open spec fn file_of(&self, file_id: Seq<char>, size: Seq<char>) -> Seq<char> {
        crate::text::joined_path(self.disk_cache_dir@, key_of(file_id, size))
    }

    /// Create a new cache service with configurable parameters. The
    /// directory is the caller's to create.
    pub fn new(cache_dir: &str, max_capacity: usize, ttl_seconds: u64) -> (r: CacheService)
        requires
            ttl_seconds <= MAX_TTL_SECONDS,
        ensures
            r.disk_cache_dir@ == cache_dir@,
            r.entries() == no_entries(),
    {
        CacheService {
            memory_cache: memory_new(max_capacity as u64, ttl_seconds),
            disk_cache_dir: String::from_str(cache_dir),
        }
    }

    /// Create a new cache service with default settings: 1000 entries that
    /// live for an hour.
    pub fn new_with_defaults(cache_dir: &str) -> (r: CacheService)
        ensures
            r.disk_cache_dir@ == cache_dir@,
            r.entries() == no_entries(),
    {
        Self::new(cache_dir, DEFAULT_MAX_CAPACITY, DEFAULT_TTL_SECONDS)
    }

    /// Get thumbnail disk cache path: where the disk tier keeps the file of
    /// a thumbnail, whether it exists or not.
    pub fn get_thumbnail_disk_path(&self, file_id: &str, size: &str) -> (r: String)
        ensures
            r@ == self.file_of(file_id@, size@),
    {
        let key = cache_key(file_id, size);
        crate::text::join_path(self.disk_cache_dir.as_str(), key.as_str())
    }

    /// Get thumbnail from cache, first step: the memory tier. A hit gives
    /// the bytes that were put last; a miss names the file to read.
    pub fn get_thumbnail(&self, file_id: &str, size: &str) -> (r: CacheLookup)
        ensures
            match r {
                CacheLookup::Hit(data) => self.entries().contains_key(key_of(file_id@, size@))
                    && data@ == self.entries()[key_of(file_id@, size@)],
                CacheLookup::ReadDisk(path) => path@ == self.file_of(file_id@, size@),
            },
    {
        let key = cache_key(file_id, size);
        match memory_get(&self.memory_cache, key.as_str()) {
            Some(data) => CacheLookup::Hit(data),
            None => CacheLookup::ReadDisk(self.get_thumbnail_disk_path(file_id, size)),
        }
    }

    /// Get thumbnail from cache, second step: what the disk gave. Bytes
    /// found on disk are promoted into the memory tier and returned.
    pub fn promote(&mut self, file_id: &str, size: &str, disk: Option<Vec<u8>>) -> (r: Option<
        Vec<u8>,
    >)
        ensures
            r == disk,
            final(self).disk_cache_dir == old(self).disk_cache_dir,
            final(self).entries() == (match disk {
                Some(data) => old(self).entries().insert(key_of(file_id@, size@), data@),
                None => old(self).entries(),
            }),
    {
        match disk {
            Some(data) => {
                let key = cache_key(file_id, size);
                memory_insert(&mut self.memory_cache, key.as_str(), data.as_slice());
                Some(data)
            },
            None => None,
        }
    }

    /// Check if thumbnail exists in cache (memory or disk), given whether
    /// its file exists.
    pub fn has_thumbnail(&self, file_id: &str, size: &str, on_disk: bool) -> (r: bool)
        ensures
            on_disk ==> r,
            r && !on_disk ==> self.entries().contains_key(key_of(file_id@, size@)),
    {
        let key = cache_key(file_id, size);
        let memory = memory_get(&self.memory_cache, key.as_str());
        in_either_tier(&memory, on_disk)
    }

    /// Store thumbnail in cache: the memory tier takes the bytes; the path
    /// returned is the file to write them to.
    pub fn put_thumbnail(&mut self, file_id: &str, size: &str, data: &[u8]) -> (r: String)
        ensures
            r@ == old(self).file_of(file_id@, size@),
            final(self).disk_cache_dir == old(self).disk_cache_dir,
            final(self).entries() == old(self).entries().insert(key_of(file_id@, size@), data@),
    {
        let key = cache_key(file_id, size);
        memory_insert(&mut self.memory_cache, key.as_str(), data);
        crate::text::join_path(self.disk_cache_dir.as_str(), key.as_str())
    }

    /// Store thumbnail in cache; the same as
    /// [`CacheService::put_thumbnail`], for callers that own the bytes.
    pub fn put_thumbnail_bytes(&mut self, file_id: &str, size: &str, data: Vec<u8>) -> (r: String)
        ensures
            r@ == old(self).file_of(file_id@, size@),
            final(self).disk_cache_dir == old(self).disk_cache_dir,
            final(self).entries() == old(self).entries().insert(key_of(file_id@, size@), data@),
    {
        self.put_thumbnail(file_id, size, data.as_slice())
    }

    /// Delete thumbnail from cache: the size given, or all sizes where none
    /// is given. The memory tier drops them; the paths returned are the
    /// files to remove.
    pub fn delete_thumbnail(&mut self, file_id: &str, size: Option<&str>) -> (r: Vec<String>)
        ensures
            final(self).disk_cache_dir == old(self).disk_cache_dir,
            ({
                let keys = keys_to_drop(
                    file_id@,
                    match size {
                        Some(s) => Some(s@),
                        None => None,
                    },
                );
                &&& final(self).entries() == without_keys(
                    old(self).entries(),
                    keys,
                    keys.len() as int,
                )
                &&& r@.len() == keys.len()
                &&& forall|i: int|
                    0 <= i < keys.len() ==> r@[i]@ == crate::text::joined_path(
                        old(self).disk_cache_dir@,
                        keys[i],
                    )
            }),
    {
        let mut keys: Vec<String> = Vec::new();
        match size {
            Some(s) => {
                keys.push(cache_key(file_id, s));
            },
            None => {
                keys.push(cache_key(file_id, "small"));
                keys.push(cache_key(file_id, "medium"));
                keys.push(cache_key(file_id, "large"));
                keys.push(cache_key(file_id, "full"));
            },
        }
        let ghost want = keys_to_drop(
            file_id@,
            match size {
                Some(s) => Some(s@),
                None => None,
            },
        );
        assert(crate::text::texts(keys@) =~= want);
        let mut paths: Vec<String> = Vec::new();
        let mut i: usize = 0;
        while i < keys.len()
            invariant
                i <= keys.len(),
                crate::text::texts(keys@) == want,
                self.disk_cache_dir == old(self).disk_cache_dir,
                self.entries() == without_keys(old(self).entries(), want, i as int),
                paths@.len() == i,
                forall|k: int|
                    0 <= k < i ==> paths@[k]@ == crate::text::joined_path(
                        old(self).disk_cache_dir@,
                        want[k],
                    ),
            decreases keys.len() - i,
        {
            assert(want[i as int] == keys@[i as int]@);
            memory_invalidate(&mut self.memory_cache, keys[i].as_str());
            paths.push(crate::text::join_path(self.disk_cache_dir.as_str(), keys[i].as_str()));
            i = i + 1;
        }
        paths
    }

    /// Clear all cache: the memory tier drops everything; the directory
    /// returned is the one whose files are to be removed.
    pub fn clear_all(&mut self) -> (r: String)
        ensures
            r@ == old(self).disk_cache_dir@,
            final(self).disk_cache_dir == old(self).disk_cache_dir,
            final(self).entries() == no_entries(),
    {
        memory_invalidate_all(&mut self.memory_cache);
        self.disk_cache_dir.clone()
    }

    /// The size of the disk tier in bytes, from the sizes of its files;
    /// capped at the largest `u64`.
    pub fn get_cache_size(&self, file_sizes: &Vec<u64>) -> (r: u64)
        ensures
            r == capped_sum(file_sizes@, file_sizes@.len() as int),
    {
        let mut total: u64 = 0;
        let mut i: usize = 0;
        while i < file_sizes.len()
            invariant
                i <= file_sizes.len(),
                total == capped_sum(file_sizes@, i as int),
            decreases file_sizes.len() - i,
        {
            total = total.saturating_add(file_sizes[i]);
            i = i + 1;
        }
        total
    }

    /// Get disk cache directory.
    pub fn get_disk_cache_dir(&self) -> (r: &String)
        ensures
            r == self.disk_cache_dir,
    {
        &self.disk_cache_dir
    }
}

/// The sum of the first `n` sizes, capped at the largest `u64`.
pub open spec fn capped_sum(sizes: Seq<u64>, n: int) -> u64
    decreases n,
{
    if n <= 0 {
        0
    } else if capped_sum(sizes, n - 1) + sizes[n - 1] > u64::MAX {
        u64::MAX
    } else {
        (capped_sum(sizes, n - 1) + sizes[n - 1]) as u64
    }
}

/// A thumbnail that was put is the thumbnail that is got: after a put, a
/// hit in the memory tier gives the same bytes, and they are the bytes that
/// the caller was told to write to disk.
pub proof fn lemma_put_then_get(
    before: Map<Seq<char>, Seq<u8>>,
    file_id: Seq<char>,
    size: Seq<char>,
    data: Seq<u8>,
)
    ensures
        before.insert(key_of(file_id, size), data).contains_key(key_of(file_id, size)),
        before.insert(key_of(file_id, size), data)[key_of(file_id, size)] == data,
{
}

} // verus!
