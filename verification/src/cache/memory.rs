//! The in-memory cache: bounded by bytes or entries, and blind to what has
//! expired.
use vstd::prelude::*;

use crate::cache::dsn::CacheBackend;
use crate::cache::size::{mem_capacity_for_bytes, mem_capacity_for_entries};
use crate::text::opt_text;

verus! {

/// `moka::sync::Cache`, a bounded cache that drops entries as it sees fit.
#[verifier::external_type_specification]
#[verifier::external_body]
#[verifier::reject_recursive_types(K)]
#[verifier::reject_recursive_types(V)]
#[verifier::reject_recursive_types(S)]
pub struct ExCache<K, V, S>(moka::sync::Cache<K, V, S>);

/// What was written last under each key, with the time at which it expires.
pub uninterp spec fn written(c: moka::sync::Cache<String, (u64, String)>) -> Map<
    Seq<char>,
    (u64, Seq<char>),
>;

/// Nothing is written.
pub open spec fn nothing() -> Map<Seq<char>, (u64, Seq<char>)> {
    Map::empty()
}

/// The limit that a cache was made with, and whether it is one on the weight of
/// the values rather than on the number of entries.
pub uninterp spec fn limit_of(c: moka::sync::Cache<String, (u64, String)>) -> (u64, bool);

/// What an entry weighs in a cache that is bounded by bytes: its length.
pub fn weight(len: usize) -> (r: u32)
    ensures
        r == (if len <= u32::MAX {
            len as int
        } else {
            u32::MAX as int
        }),
{
    if len <= 0xFFFF_FFFF {
        len as u32
    } else {
        0xFFFF_FFFF
    }
}

/// `moka::sync::CacheBuilder` with `max_capacity` and `weigher`: an empty cache
/// whose values together weigh no more than its capacity, by and by.
#[verifier::external_body]
fn build_weighed(capacity: u64) -> (r: moka::sync::Cache<String, (u64, String)>)
    ensures
        written(r) == nothing(),
        limit_of(r) == (capacity, true),
{
    moka::sync::Cache::builder()
        .max_capacity(capacity)
        .weigher(|_key: &String, value: &(u64, String)| weight(value.1.len()))
        .build()
}

/// `moka::sync::CacheBuilder` with `max_capacity`: an empty cache that holds no
/// more entries than its capacity, by and by.
#[verifier::external_body]
fn build_counted(capacity: u64) -> (r: moka::sync::Cache<String, (u64, String)>)
    ensures
        written(r) == nothing(),
        limit_of(r) == (capacity, false),
{
    moka::sync::Cache::builder().max_capacity(capacity).build()
}

/// `moka::sync::Cache::insert`: writes a value under a key, in place of any
/// other.
#[verifier::external_body]
fn cache_insert(c: &mut moka::sync::Cache<String, (u64, String)>, key: String, value: (u64, String))
    ensures
        written(*final(c)) == written(*old(c)).insert(key@, (value.0, value.1@)),
        limit_of(*final(c)) == limit_of(*old(c)),
{
    c.insert(key, value);
}

/// `moka::sync::Cache::get`: the value that was written last under a key, or
/// nothing. Which entries the cache has dropped is its own affair, so nothing
/// may come of a key that was written.
#[verifier::external_body]
fn cache_get(c: &moka::sync::Cache<String, (u64, String)>, key: &str) -> (r: Option<(u64, String)>)
    ensures
        match r {
            Some(v) => written(*c).dom().contains(key@) && written(*c)[key@] == (v.0, v.1@),
            None => true,
        },
{
    c.get(key)
}

/// The in-memory cache of stored media.
pub struct MemoryCacheBackend {
    pub cache: moka::sync::Cache<String, (u64, String)>,
}

impl View for MemoryCacheBackend {
    type V = Map<Seq<char>, (u64, Seq<char>)>;

    open spec fn view(&self) -> Map<Seq<char>, (u64, Seq<char>)> {
        written(self.cache)
    }
}

impl CacheBackend for MemoryCacheBackend {
    open spec fn backend_name(&self) -> Seq<char> {
        "memory"@
    }

    fn name(&self) -> (r: &'static str) {
        "memory"
    }
}

impl MemoryCacheBackend {
    /// The limit of the cache, and whether it counts bytes rather than entries.
    pub open spec fn limit(&self) -> (u64, bool) {
        limit_of(self.cache)
    }

    /// An empty cache bounded by the bytes of its values.
    pub fn with_max_bytes(max_bytes: u64) -> (r: Self)
        ensures
            r@ == nothing(),
            r.limit() == (if max_bytes < 1048576 {
                1048576u64
            } else {
                max_bytes
            }, true),
    {
        MemoryCacheBackend { cache: build_weighed(mem_capacity_for_bytes(max_bytes)) }
    }

    /// An empty cache bounded by its entries.
    pub fn with_max_entries(max_entries: u64) -> (r: Self)
        ensures
            r@ == nothing(),
            r.limit() == (if max_entries < 10 {
                10u64
            } else {
                max_entries
            }, false),
    {
        MemoryCacheBackend { cache: build_counted(mem_capacity_for_entries(max_entries)) }
    }

    /// An empty cache of 100 MiB.
    pub fn default_cache() -> (r: Self)
        ensures
            r@ == nothing(),
            r.limit() == (104857600u64, true),
    {
        MemoryCacheBackend::with_max_bytes(104857600)
    }

    /// Reads what was written last under a key, unless it has expired. The cache
    /// may have dropped it.
    pub fn get(&self, key: &str, now: u64) -> (r: Option<String>)
        ensures
            may_read(self@, key@, now, opt_text(r)),
    {
        match cache_get(&self.cache, key) {
            Some((expires_at, value)) => unexpired(expires_at, value, now),
            None => None,
        }
    }

    /// Writes a value under a key until it expires; one that has expired already
    /// is not written.
    pub fn put(&mut self, key: String, value: String, expires_at: u64, now: u64)
        ensures
            final(self)@ == (if expires_at > now {
                old(self)@.insert(key@, (expires_at, value@))
            } else {
                old(self)@
            }),
            final(self).limit() == old(self).limit(),
    {
        if expires_at <= now {
            return;
        }
        cache_insert(&mut self.cache, key, (expires_at, value));
    }
}

/// What a read may come to: what was written last under the key, unless it has
/// expired, or nothing.
pub open spec fn may_read(
    m: Map<Seq<char>, (u64, Seq<char>)>,
    key: Seq<char>,
    now: u64,
    r: Option<Seq<char>>,
) -> bool {
    match r {
        Some(v) => m.dom().contains(key) && m[key].1 == v && now < m[key].0,
        None => true,
    }
}

/// A read after a write gives the written value back, or nothing; never after it
/// has expired, and never the value of another key.
pub proof fn law_read_gives_write(
    m: Map<Seq<char>, (u64, Seq<char>)>,
    key: Seq<char>,
    value: Seq<char>,
    expires_at: u64,
    other: Seq<char>,
    now: u64,
    r: Option<Seq<char>>,
)
    requires
        may_read(m.insert(key, (expires_at, value)), other, now, r),
    ensures
        other == key && r is Some ==> r == Some(value) && now < expires_at,
        other == key && now >= expires_at ==> r is None,
        other != key ==> may_read(m, other, now, r),
{
}

/// What a stored entry comes to: its value, unless it has expired.
pub fn unexpired(expires_at: u64, value: String, now: u64) -> (r: Option<String>)
    ensures
        r == (if now < expires_at {
            Some(value)
        } else {
            None
        }),
{
    if now < expires_at {
        Some(value)
    } else {
        None
    }
}

} // verus!
