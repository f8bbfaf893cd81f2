//! The short-lived copies in front of a durable backend, and one flight per key.
use std::sync::Arc;

use vstd::prelude::*;

use crate::cache::flight::SingleFlight;
use crate::result::ThumbResult;
use crate::text::owned;

verus! {

/// What was kept last under each key.
pub uninterp spec fn kept(c: moka::sync::Cache<String, Arc<ThumbResult>>) -> Map<
    Seq<char>,
    ThumbResult,
>;

/// Nothing is kept.
pub open spec fn nothing_kept() -> Map<Seq<char>, ThumbResult> {
    Map::empty()
}

/// How many seconds entries live in a cache, and how many there may be.
pub uninterp spec fn sticky_limits(c: moka::sync::Cache<String, Arc<ThumbResult>>) -> (u64, u64);

/// `moka::sync::CacheBuilder` with `time_to_live` and `max_capacity`: an empty
/// cache whose entries live for so many seconds, and are no more than so many, by
/// and by. A life of more than a thousand years is refused by a panic.
#[verifier::external_body]
fn build_sticky(ttl_secs: u64, capacity: u64) -> (r: moka::sync::Cache<String, Arc<ThumbResult>>)
    requires
        ttl_secs <= 31536000000,
    ensures
        kept(r) == nothing_kept(),
        sticky_limits(r) == (ttl_secs, capacity),
{
    moka::sync::Cache::builder()
        .time_to_live(std::time::Duration::from_secs(ttl_secs))
        .max_capacity(capacity)
        .build()
}

/// `moka::sync::Cache::insert`: keeps a result under a key, in place of any
/// other.
#[verifier::external_body]
fn keep(c: &mut moka::sync::Cache<String, Arc<ThumbResult>>, key: String, result: Arc<ThumbResult>)
    ensures
        kept(*final(c)) == kept(*old(c)).insert(key@, *result),
        sticky_limits(*final(c)) == sticky_limits(*old(c)),
{
    c.insert(key, result);
}

/// `moka::sync::Cache::get`: the result that was kept last under a key, or
/// nothing. Entries go when their time is over, or earlier, so nothing may come
/// of a key under which a result was kept.
#[verifier::external_body]
fn look_up(c: &moka::sync::Cache<String, Arc<ThumbResult>>, key: &str) -> (r: Option<
    Arc<ThumbResult>,
>)
    ensures
        match r {
            Some(v) => kept(*c).dom().contains(key@) && kept(*c)[key@] == *v,
            None => true,
        },
{
    c.get(key)
}

/// Holds every result for a short time, whatever its source says of caching, and
/// lets one request per key do the work while others wait.
pub struct CacheFrontend<T> {
    pub sticky: moka::sync::Cache<String, Arc<ThumbResult>>,
    pub inflight: SingleFlight<T>,
}

impl<T> CacheFrontend<T> {
    /// The results that were kept last.
    pub open spec fn copies(&self) -> Map<Seq<char>, ThumbResult> {
        kept(self.sticky)
    }

    /// How many seconds results are kept, and how many of them.
    pub open spec fn limits(&self) -> (u64, u64) {
        sticky_limits(self.sticky)
    }

    /// An empty frontend that keeps results for so many seconds.
    pub fn new(sticky_ttl_secs: u64) -> (r: Self)
        requires
            sticky_ttl_secs <= 31536000000,
        ensures
            r.copies() == nothing_kept(),
            r.limits() == (sticky_ttl_secs, 10000u64),
            r.inflight.wf(),
            r.inflight@ == Map::<Seq<char>, Seq<T>>::empty(),
    {
        CacheFrontend {
            sticky: build_sticky(sticky_ttl_secs, 10000),
            inflight: SingleFlight::new(),
        }
    }

    /// The result that was kept last under a key, unless it is gone.
    pub fn sticky_check(&self, key: &str) -> (r: Option<Arc<ThumbResult>>)
        ensures
            match r {
                Some(v) => self.copies().dom().contains(key@) && self.copies()[key@] == *v,
                None => true,
            },
    {
        look_up(&self.sticky, key)
    }

    /// Keeps a result under a key.
    pub fn sticky_store(&mut self, key: &str, result: Arc<ThumbResult>)
        ensures
            final(self).copies() == old(self).copies().insert(key@, *result),
            final(self).limits() == old(self).limits(),
            final(self).inflight == old(self).inflight,
    {
        keep(&mut self.sticky, owned(key), result);
    }

    /// Tries to lead the flight of a key. The leader gets its waiter back; any
    /// other caller has joined, and its waiter is kept.
    pub fn try_lead(&mut self, key: &str, waiter: T) -> (lead: Option<T>)
        requires
            old(self).inflight.wf(),
        ensures
            final(self).inflight.wf(),
            final(self).sticky == old(self).sticky,
            old(self).inflight@.dom().contains(key@) ==> lead is None && final(self).inflight@
                == old(self).inflight@.insert(key@, old(self).inflight@[key@].push(waiter)),
            !old(self).inflight@.dom().contains(key@) ==> lead == Some(waiter)
                && final(self).inflight@ == old(self).inflight@.insert(key@, Seq::empty()),
    {
        self.inflight.try_lead(key, waiter)
    }

    /// Ends the flight of a key, and returns those who wait for its result.
    pub fn complete(&mut self, key: &str) -> (waiters: Vec<T>)
        requires
            old(self).inflight.wf(),
        ensures
            final(self).inflight.wf(),
            final(self).sticky == old(self).sticky,
            final(self).inflight@ == old(self).inflight@.remove(key@),
            waiters@ == (if old(self).inflight@.dom().contains(key@) {
                old(self).inflight@[key@]
            } else {
                Seq::empty()
            }),
    {
        self.inflight.complete(key)
    }

    /// Gives the flight of a key up: those who wait get nothing.
    pub fn cancel(&mut self, key: &str)
        requires
            old(self).inflight.wf(),
        ensures
            final(self).inflight.wf(),
            final(self).sticky == old(self).sticky,
            final(self).inflight@ == old(self).inflight@.remove(key@),
    {
        self.inflight.complete(key);
    }
}

} // verus!
