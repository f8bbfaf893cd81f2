//! Fetch protection: URLs that failed just now are not fetched again at once,
//! and origins that asked for rest are left alone.
use vstd::prelude::*;

use crate::text::same;

verus! {

/// A value that counts until a point in time.
#[derive(Debug)]
pub struct Timed<V> {
    pub key: String,
    pub value: V,
    pub until: u64,
}

/// The first entry from `i` on with this key.
pub open spec fn entry_for<V>(entries: Seq<Timed<V>>, key: Seq<char>, i: int) -> Option<(V, u64)>
    decreases entries.len() - i,
{
    if i < 0 || i >= entries.len() {
        None
    } else if entries[i].key@ == key {
        Some((entries[i].value, entries[i].until))
    } else {
        entry_for(entries, key, i + 1)
    }
}

/// The value of an entry that still counts at `now`.
pub open spec fn active<V>(entry: Option<(V, u64)>, now: u64) -> Option<V> {
    match entry {
        Some((v, until)) => if now < until {
            Some(v)
        } else {
            None
        },
        None => None,
    }
}

proof fn lemma_entry_skip<V>(entries: Seq<Timed<V>>, key: Seq<char>, i: int, n: int)
    requires
        0 <= i <= n <= entries.len(),
        forall|j: int| i <= j < n ==> (#[trigger] entries[j]).key@ != key,
    ensures
        entry_for(entries, key, i) == entry_for(entries, key, n),
    decreases n - i,
{
    if i < n {
        lemma_entry_skip(entries, key, i + 1, n);
    }
}

proof fn lemma_entry_same<V>(a: Seq<Timed<V>>, b: Seq<Timed<V>>, key: Seq<char>, i: int)
    requires
        a.len() <= b.len(),
        0 <= i,
        forall|j: int|
            i <= j < a.len() ==> (#[trigger] a[j]).key@ == b[j].key@ && (a[j].key@ == key ==> a[j]
                == b[j]),
        forall|j: int| a.len() <= j < b.len() ==> (#[trigger] b[j]).key@ != key,
    ensures
        entry_for(a, key, i) == entry_for(b, key, i),
    decreases b.len() - i,
{
    if i < b.len() {
        if i < a.len() {
            assert(a[i].key@ == b[i].key@);
        } else {
            assert(b[i].key@ != key);
        }
        lemma_entry_same(a, b, key, i + 1);
    }
}

/// Where the key stands first.
fn find_entry<V>(entries: &Vec<Timed<V>>, key: &str) -> (r: Option<usize>)
    ensures
        match r {
            Some(i) => i < entries@.len() && entries@[i as int].key@ == key@ && forall|j: int|
                0 <= j < i ==> (#[trigger] entries@[j]).key@ != key@,
            None => forall|j: int| 0 <= j < entries@.len() ==> (#[trigger] entries@[j]).key@ != key@,
        },
{
    let mut i: usize = 0;
    while i < entries.len()
        invariant
            i <= entries@.len(),
            forall|j: int| 0 <= j < i ==> (#[trigger] entries@[j]).key@ != key@,
        decreases entries@.len() - i,
    {
        if same(entries[i].key.as_str(), key) {
            return Some(i);
        }
        i += 1;
    }
    None
}

/// Puts a value under a key until a point in time, in place of any other.
fn put_entry<V>(entries: &mut Vec<Timed<V>>, key: String, value: V, until: u64)
    ensures
        entry_for(final(entries)@, key@, 0) == Some((value, until)),
        forall|k: Seq<char>|
            k != key@ ==> #[trigger] entry_for(final(entries)@, k, 0) == entry_for(
                old(entries)@,
                k,
                0,
            ),
{
    let ghost before = entries@;
    let ghost k0 = key@;
    match find_entry(entries, key.as_str()) {
        Some(i) => {
            entries.set(i, Timed { key, value, until });
            proof {
                lemma_entry_skip(entries@, k0, 0, i as int);
                assert forall|k: Seq<char>| k != k0 implies #[trigger] entry_for(
                    entries@,
                    k,
                    0,
                ) == entry_for(before, k, 0) by {
                    lemma_entry_same(before, entries@, k, 0);
                }
            }
        },
        None => {
            entries.push(Timed { key, value, until });
            proof {
                assert forall|j: int| 0 <= j < before.len() implies (#[trigger] entries@[j]).key@ != k0 by {
                    assert(entries@[j] == before[j]);
                }
                lemma_entry_skip(entries@, k0, 0, before.len() as int);
                assert forall|k: Seq<char>| k != k0 implies #[trigger] entry_for(
                    entries@,
                    k,
                    0,
                ) == entry_for(before, k, 0) by {
                    lemma_entry_same(before, entries@, k, 0);
                }
            }
        },
    }
}

/// URLs that returned an error just now, with status and message. Each is kept
/// for the same time.
#[derive(Debug)]
pub struct UrlFailureCache {
    pub entries: Vec<Timed<(u16, String)>>,
    pub ttl: u64,
}

impl UrlFailureCache {
    /// The failure on record for a URL.
    pub open spec fn at(&self, url: Seq<char>) -> Option<((u16, String), u64)> {
        entry_for(self.entries@, url, 0)
    }

    /// Keeps failures for `ttl`, in the unit of the clock that callers use.
    pub fn new(ttl: u64) -> (r: Self)
        ensures
            r.ttl == ttl,
            forall|u: Seq<char>| r.at(u) is None,
    {
        UrlFailureCache { entries: Vec::new(), ttl }
    }

    /// Status and message where the URL is within its failure window.
    pub fn check(&self, url: &str, now: u64) -> (r: Option<(u16, &str)>)
        ensures
            match (r, active(self.at(url@), now)) {
                (Some((s, m)), Some((status, message))) => s == status && m@ == message@,
                (None, None) => true,
                _ => false,
            },
    {
        match find_entry(&self.entries, url) {
            Some(i) => {
                proof {
                    lemma_entry_skip(self.entries@, url@, 0, i as int);
                }
                let e = &self.entries[i];
                if now < e.until {
                    Some((e.value.0, e.value.1.as_str()))
                } else {
                    None
                }
            },
            None => {
                proof {
                    lemma_entry_skip(self.entries@, url@, 0, self.entries@.len() as int);
                }
                None
            },
        }
    }

    /// Records a failure.
    pub fn record(&mut self, url: String, status: u16, message: String, now: u64)
        requires
            now + old(self).ttl <= u64::MAX,
        ensures
            final(self).ttl == old(self).ttl,
            final(self).at(url@) == Some(((status, message), (now + old(self).ttl) as u64)),
            forall|u: Seq<char>| u != url@ ==> #[trigger] final(self).at(u) == old(self).at(u),
    {
        let until: u64 = now + self.ttl;
        put_entry(&mut self.entries, url, (status, message), until);
    }
}

/// Origins that asked for rest, with the status that said so.
#[derive(Debug)]
pub struct OriginBackoffCache {
    pub entries: Vec<Timed<u16>>,
    /// The longest rest that is granted.
    pub ceiling: u64,
}

impl OriginBackoffCache {
    /// The back-off on record for an origin.
    pub open spec fn at(&self, origin: Seq<char>) -> Option<(u16, u64)> {
        entry_for(self.entries@, origin, 0)
    }

    /// Grants rests of at most `ceiling`.
    pub fn new(ceiling: u64) -> (r: Self)
        ensures
            r.ceiling == ceiling,
            forall|o: Seq<char>| r.at(o) is None,
    {
        OriginBackoffCache { entries: Vec::new(), ceiling }
    }

    /// The status that caused the back-off, where it is still active.
    pub fn check(&self, origin: &str, now: u64) -> (r: Option<u16>)
        ensures
            r == active(self.at(origin@), now),
    {
        match find_entry(&self.entries, origin) {
            Some(i) => {
                proof {
                    lemma_entry_skip(self.entries@, origin@, 0, i as int);
                }
                if now < self.entries[i].until {
                    Some(self.entries[i].value)
                } else {
                    None
                }
            },
            None => {
                proof {
                    lemma_entry_skip(self.entries@, origin@, 0, self.entries@.len() as int);
                }
                None
            },
        }
    }

    /// Records a back-off for `ttl`, but no longer than the ceiling.
    pub fn record(&mut self, origin: String, status: u16, ttl: u64, now: u64)
        requires
            now + if ttl < old(self).ceiling {
                ttl
            } else {
                old(self).ceiling
            } <= u64::MAX,
        ensures
            final(self).ceiling == old(self).ceiling,
            final(self).at(origin@) == Some(
                (
                    status,
                    (now + if ttl < old(self).ceiling {
                        ttl
                    } else {
                        old(self).ceiling
                    }) as u64,
                ),
            ),
            forall|o: Seq<char>| o != origin@ ==> #[trigger] final(self).at(o) == old(self).at(o),
    {
        let ceiling: u64 = self.ceiling;
        let rest: u64 = if ttl < ceiling {
            ttl
        } else {
            ceiling
        };
        let until: u64 = now + rest;
        put_entry(&mut self.entries, origin, status, until);
    }
}

/// Every back-off ends: at the latest one ceiling after it was recorded, the
/// origin may be asked again.
pub proof fn law_backoff_ends(
    cache: OriginBackoffCache,
    origin: Seq<char>,
    status: u16,
    ttl: u64,
    recorded: u64,
    now: u64,
)
    requires
        cache.at(origin) == Some(
            (
                status,
                (recorded + if ttl < cache.ceiling {
                    ttl
                } else {
                    cache.ceiling
                }) as u64,
            ),
        ),
        now >= recorded + cache.ceiling,
    ensures
        active(cache.at(origin), now) is None,
{
}

} // verus!
