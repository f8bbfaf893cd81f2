//! Handing a cook over to a higher tier: where it is sent, and one request at a
//! time for each piece of content.
use vstd::prelude::*;

use crate::cache::flight::SingleFlight;
use crate::cook::ThumbCook;
use crate::text::{join2, strip_end, trim_end_char};

verus! {

/// The endpoint of a tier: `/handoff` behind its base URL without closing
/// slashes.
pub open spec fn endpoint(base: Seq<char>) -> Seq<char> {
    strip_end(base, '/') + "/handoff"@
}

/// Name of the shared-secret header of server-to-server requests.
pub const HANDSHAKE_HEADER: &'static str = "x-tbr-handshake";

/// Computes the endpoint of a tier.
pub fn handoff_endpoint(base_url: &str) -> (r: String)
    ensures
        r@ == endpoint(base_url@),
{
    let base = trim_end_char(base_url, '/');
    join2(base.as_str(), "/handoff")
}

/// The key under which a cook's first handoff is shared: its cache key, or else
/// its canonical URL, or else the URL that was asked for.
pub open spec fn shared_key(c: ThumbCook) -> Seq<char> {
    match (c.src.cache_key, c.src.canonical_url) {
        (Some(k), _) => k@,
        (None, Some(u)) => u@,
        (None, None) => c.input.url@,
    }
}

/// Computes the key under which a cook's first handoff is shared.
pub fn inflight_key(cook: &ThumbCook) -> (r: String)
    ensures
        r@ == shared_key(*cook),
{
    match (&cook.src.cache_key, &cook.src.canonical_url) {
        (Some(k), _) => k.clone(),
        (None, Some(u)) => u.clone(),
        (None, None) => cook.input.url.clone(),
    }
}

/// Concurrent handoffs of the same content: the first caller leads, the others
/// wait for its result.
#[derive(Debug)]
pub struct HandoffInflight<T> {
    pub flights: SingleFlight<T>,
}

impl<T> HandoffInflight<T> {
    /// No handoff is in flight.
    pub fn new() -> (r: Self)
        ensures
            r.flights.wf(),
            r.flights@ == Map::<Seq<char>, Seq<T>>::empty(),
    {
        HandoffInflight { flights: SingleFlight::new() }
    }

    /// Tries to register as the leader for a key. The leader gets its waiter
    /// back; any other caller has joined, and its waiter is kept.
    pub fn try_lead(&mut self, key: &str, waiter: T) -> (lead: Option<T>)
        requires
            old(self).flights.wf(),
        ensures
            final(self).flights.wf(),
            old(self).flights@.dom().contains(key@) ==> lead is None && final(self).flights@
                == old(self).flights@.insert(key@, old(self).flights@[key@].push(waiter)),
            !old(self).flights@.dom().contains(key@) ==> lead == Some(waiter)
                && final(self).flights@ == old(self).flights@.insert(key@, Seq::empty()),
    {
        self.flights.try_lead(key, waiter)
    }

    /// Ends the flight of a key, and returns those who wait for its result.
    pub fn complete(&mut self, key: &str) -> (waiters: Vec<T>)
        requires
            old(self).flights.wf(),
        ensures
            final(self).flights.wf(),
            final(self).flights@ == old(self).flights@.remove(key@),
            waiters@ == (if old(self).flights@.dom().contains(key@) {
                old(self).flights@[key@]
            } else {
                Seq::empty()
            }),
    {
        self.flights.complete(key)
    }
}

} // verus!
