//! The store in front of a durable backend: a short-lived copy of every result,
//! and one flight per key.
use vstd::prelude::*;

use crate::cache::dsn::CacheBackend;
use crate::result::{ResultSource, ResultStatus, ThumbMedia, ThumbResult};

verus! {

/// A durable backend with an optional frontend that keeps results for a short
/// time and lets one request per key do the work. Without a backend nothing is
/// read or written.
#[derive(Debug)]
pub struct CacheStore<B: CacheBackend> {
    pub backend: Option<B>,
    /// How long the frontend keeps results; none without a frontend.
    pub sticky_ttl_secs: Option<u64>,
}

/// What to do next in a lookup.
#[derive(Clone, Copy, Debug, PartialEq, Eq, Structural)]
pub enum CheckStep {
    /// Ask the frontend.
    AskSticky,
    /// Take the lead for the key, or join the flight.
    TryLead,
    /// Wait for the leader, no longer than 30 seconds.
    Wait,
    /// Give the flight up and lead a new one, then ask the backend.
    CancelAndAskBackend,
    /// Ask the backend.
    AskBackend,
    /// Answer with what the frontend or the leader has.
    AnswerSticky,
    /// Share what the backend has with the frontend and those who wait, then
    /// answer with it.
    ShareAndAnswer,
    /// Answer with what the backend has.
    Answer,
    /// Nothing was found: end the flight, so that it does not leak.
    CancelAndMiss,
    /// Nothing was found.
    Miss,
}

/// What to do with a finished result.
#[derive(Clone, Copy, Debug, PartialEq, Eq, Structural)]
pub struct StorePlan {
    /// Keep it in the frontend, and hand it to those who wait.
    pub share: bool,
    /// Write it to the backend.
    pub durable: bool,
}

/// A result belongs into the backend: it has a cache token.
pub open spec fn cacheable(r: ThumbResult) -> bool {
    match r.media {
        Some(m) => m.cache@.len() > 0,
        None => false,
    }
}

impl<B: CacheBackend> CacheStore<B> {
    /// A store with a backend and a frontend.
    pub fn new(backend: B, sticky_ttl_secs: u64) -> (r: Self)
        ensures
            r.backend == Some(backend),
            r.sticky_ttl_secs == Some(sticky_ttl_secs),
    {
        CacheStore { backend: Some(backend), sticky_ttl_secs: Some(sticky_ttl_secs) }
    }

    /// A store with a backend only.
    pub fn backend_only(backend: B) -> (r: Self)
        ensures
            r.backend == Some(backend),
            r.sticky_ttl_secs is None,
    {
        CacheStore { backend: Some(backend), sticky_ttl_secs: None }
    }

    /// An empty store.
    pub fn none() -> (r: Self)
        ensures
            r.backend is None,
            r.sticky_ttl_secs is None,
    {
        CacheStore { backend: None, sticky_ttl_secs: None }
    }

    /// The name of the backend, for logs.
    pub fn backend_name(&self) -> (r: &'static str)
        ensures
            r@ == (match self.backend {
                Some(b) => b.backend_name(),
                None => "none"@,
            }),
    {
        match &self.backend {
            Some(b) => b.name(),
            None => "none",
        }
    }

    /// Where a lookup starts.
    pub fn check_start(&self) -> (r: CheckStep)
        ensures
            r == (if self.sticky_ttl_secs is Some {
                CheckStep::AskSticky
            } else if self.backend is Some {
                CheckStep::AskBackend
            } else {
                CheckStep::Miss
            }),
    {
        if self.sticky_ttl_secs.is_some() {
            CheckStep::AskSticky
        } else if self.backend.is_some() {
            CheckStep::AskBackend
        } else {
            CheckStep::Miss
        }
    }

    /// Goes on once the backend has answered, or where there is none.
    pub fn after_backend(&self, found: bool) -> (r: CheckStep)
        ensures
            r == (match (found, self.sticky_ttl_secs is Some) {
                (true, true) => CheckStep::ShareAndAnswer,
                (true, false) => CheckStep::Answer,
                (false, true) => CheckStep::CancelAndMiss,
                (false, false) => CheckStep::Miss,
            }),
    {
        let has_frontend = self.sticky_ttl_secs.is_some();
        if found {
            if has_frontend {
                CheckStep::ShareAndAnswer
            } else {
                CheckStep::Answer
            }
        } else if has_frontend {
            CheckStep::CancelAndMiss
        } else {
            CheckStep::Miss
        }
    }

    /// Decides what to do with a finished result. A progress snapshot is never
    /// kept; a result without a cache token is only shared for a short time.
    pub fn store_plan(&self, result: &ThumbResult) -> (r: StorePlan)
        ensures
            result.status == ResultStatus::Intermediate ==> !r.share && !r.durable,
            result.status != ResultStatus::Intermediate ==> {
                &&& r.share == (self.sticky_ttl_secs is Some)
                &&& r.durable == (self.backend is Some && cacheable(*result))
            },
    {
        if result.status == ResultStatus::Intermediate {
            return StorePlan { share: false, durable: false };
        }
        let token = match &result.media {
            Some(m) => !m.cache.as_str().is_empty(),
            None => false,
        };
        StorePlan {
            share: self.sticky_ttl_secs.is_some(),
            durable: self.backend.is_some() && token,
        }
    }
}

/// Goes on once the frontend has answered.
pub fn after_sticky(found: bool) -> (r: CheckStep)
    ensures
        r == (if found {
            CheckStep::AnswerSticky
        } else {
            CheckStep::TryLead
        }),
{
    if found {
        CheckStep::AnswerSticky
    } else {
        CheckStep::TryLead
    }
}

/// Goes on once the flight was led or joined.
pub fn after_lead(leads: bool) -> (r: CheckStep)
    ensures
        r == (if leads {
            CheckStep::AskBackend
        } else {
            CheckStep::Wait
        }),
{
    if leads {
        CheckStep::AskBackend
    } else {
        CheckStep::Wait
    }
}

/// Goes on once the wait is over: a leader that failed or took too long is
/// replaced.
pub fn after_wait(got_result: bool) -> (r: CheckStep)
    ensures
        r == (if got_result {
            CheckStep::AnswerSticky
        } else {
            CheckStep::CancelAndAskBackend
        }),
{
    if got_result {
        CheckStep::AnswerSticky
    } else {
        CheckStep::CancelAndAskBackend
    }
}

/// A result as it is served from the frontend: its source is the cache.
pub fn from_sticky(result: ThumbResult) -> (r: ThumbResult)
    ensures
        r == (ThumbResult { source: Some(ResultSource::Cache), ..result }),
{
    let mut r = result;
    r.source = Some(ResultSource::Cache);
    r
}

/// The result that stored media makes.
pub fn from_backend(media: ThumbMedia) -> (r: ThumbResult)
    ensures
        r.url == media.url,
        r.status == ResultStatus::Success,
        r.message is None,
        r.source == Some(ResultSource::Cache),
        r.download_size == 0,
        r.http_status is None,
        r.media == Some(media),
{
    let url = media.url.clone();
    ThumbResult {
        url,
        status: ResultStatus::Success,
        message: None,
        source: Some(ResultSource::Cache),
        download_size: 0,
        http_status: None,
        media: Some(media),
    }
}

/// Which tier of a chain to ask next.
#[derive(Clone, Copy, Debug, PartialEq, Eq, Structural)]
pub enum ChainStep {
    Ask { tier: usize },
    Hit,
    Miss,
}

/// Goes on with a read of a chain of `tiers` backends, where `asked` of them
/// have been asked and the last of those had it or not: the tiers are asked in
/// order, and the first hit counts.
pub fn chain_read(tiers: usize, asked: usize, found: bool) -> (r: ChainStep)
    ensures
        r == (if asked > 0 && found {
            ChainStep::Hit
        } else if asked < tiers {
            ChainStep::Ask { tier: asked }
        } else {
            ChainStep::Miss
        }),
{
    if asked > 0 && found {
        ChainStep::Hit
    } else if asked < tiers {
        ChainStep::Ask { tier: asked }
    } else {
        ChainStep::Miss
    }
}

/// Seconds left until an entry expires; none where it has expired, and nothing
/// is then to be kept.
pub fn time_to_live(expires_at: u64, now: u64) -> (r: Option<u64>)
    ensures
        match r {
            Some(ttl) => ttl > 0 && now + ttl == expires_at,
            None => expires_at <= now,
        },
{
    if expires_at <= now {
        None
    } else {
        Some(expires_at - now)
    }
}

/// The sum of the first `n` sizes.
pub open spec fn size_sum(sizes: Seq<u64>, n: int) -> int
    decreases n,
{
    if n <= 0 {
        0
    } else {
        size_sum(sizes, n - 1) + sizes[n - 1]
    }
}

/// Later sums are no smaller.
proof fn lemma_sums_grow(sizes: Seq<u64>, i: int, n: int)
    requires
        0 <= i <= n <= sizes.len(),
    ensures
        0 <= size_sum(sizes, i) <= size_sum(sizes, n),
    decreases n,
{
    if i < n {
        lemma_sums_grow(sizes, i, n - 1);
    } else if i > 0 {
        lemma_sums_grow(sizes, i - 1, n - 1);
    }
}

/// How many entries to delete, given their sizes in eviction order (least
/// recently used first, then cheapest to render): as few as bring the total
/// within the limit.
pub fn evict_count(sizes: &Vec<u64>, max_bytes: u64) -> (k: usize)
    requires
        size_sum(sizes@, sizes@.len() as int) <= u64::MAX,
    ensures
        k <= sizes@.len(),
        size_sum(sizes@, sizes@.len() as int) - size_sum(sizes@, k as int) <= max_bytes,
        k > 0 ==> size_sum(sizes@, sizes@.len() as int) - size_sum(sizes@, k - 1) > max_bytes,
{
    let n: usize = sizes.len();
    let mut total: u64 = 0;
    let mut i: usize = 0;
    while i < n
        invariant
            n == sizes@.len(),
            i <= n,
            total == size_sum(sizes@, i as int),
            size_sum(sizes@, n as int) <= u64::MAX,
        decreases n - i,
    {
        proof {
            lemma_sums_grow(sizes@, i + 1, n as int);
        }
        total = total + sizes[i];
        i += 1;
    }
    let mut left: u64 = total;
    let mut k: usize = 0;
    while k < n && left > max_bytes
        invariant
            n == sizes@.len(),
            k <= n,
            left == size_sum(sizes@, n as int) - size_sum(sizes@, k as int),
            k > 0 ==> size_sum(sizes@, n as int) - size_sum(sizes@, k - 1) > max_bytes,
        decreases n - k,
    {
        proof {
            lemma_sums_grow(sizes@, k + 1, n as int);
        }
        left = left - sizes[k];
        k += 1;
    }
    k
}

} // verus!
