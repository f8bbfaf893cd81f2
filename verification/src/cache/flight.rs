//! One flight per key: the first to ask leads and does the work, those that
//! ask meanwhile wait for its outcome.
use vstd::prelude::*;

use crate::text::same;

verus! {

/// A key that is being worked on, and those who wait for it.
#[derive(Debug)]
pub struct Slot<T> {
    pub key: String,
    pub waiters: Vec<T>,
}

/// The keys in flight with their waiters, in the order in which they joined.
#[derive(Debug)]
pub struct SingleFlight<T> {
    pub slots: Vec<Slot<T>>,
}

/// `i` is where the key stands.
pub open spec fn slot_at<T>(slots: Seq<Slot<T>>, key: Seq<char>, i: int) -> bool {
    0 <= i < slots.len() && slots[i].key@ == key
}

impl<T> View for SingleFlight<T> {
    type V = Map<Seq<char>, Seq<T>>;

    open spec fn view(&self) -> Map<Seq<char>, Seq<T>> {
        Map::new(
            |k: Seq<char>| exists|i: int| slot_at(self.slots@, k, i),
            |k: Seq<char>| self.slots@[choose|i: int| slot_at(self.slots@, k, i)].waiters@,
        )
    }
}

impl<T> SingleFlight<T> {
    /// No key stands twice.
    pub open spec fn wf(&self) -> bool {
        forall|i: int, j: int|
            0 <= i < self.slots@.len() && 0 <= j < self.slots@.len() && (
            #[trigger] self.slots@[i]).key@ == (#[trigger] self.slots@[j]).key@ ==> i == j
    }

    /// Nothing in flight.
    pub fn new() -> (r: Self)
        ensures
            r.wf(),
            r@ == Map::<Seq<char>, Seq<T>>::empty(),
    {
        let r = SingleFlight { slots: Vec::new() };
        assert(r@ =~= Map::<Seq<char>, Seq<T>>::empty());
        r
    }

    /// Where the key stands.
    fn position(&self, key: &str) -> (r: Option<usize>)
        ensures
            match r {
                Some(i) => slot_at(self.slots@, key@, i as int),
                None => forall|i: int| !slot_at(self.slots@, key@, i),
            },
    {
        let mut i: usize = 0;
        while i < self.slots.len()
            invariant
                i <= self.slots@.len(),
                forall|j: int| 0 <= j < i ==> !slot_at(self.slots@, key@, j),
            decreases self.slots@.len() - i,
        {
            if same(self.slots[i].key.as_str(), key) {
                return Some(i);
            }
            i += 1;
        }
        None
    }

    proof fn lemma_at(&self, key: Seq<char>, i: int)
        requires
            self.wf(),
            slot_at(self.slots@, key, i),
        ensures
            self@.dom().contains(key),
            self@[key] == self.slots@[i].waiters@,
    {
        let j = choose|j: int| slot_at(self.slots@, key, j);
        assert(slot_at(self.slots@, key, j));
        assert(self.slots@[i].key@ == self.slots@[j].key@);
    }

    /// Joins the flight of a key, or starts one. A leader gets its own waiter
    /// back: nothing is waiting for it to be told.
    pub fn try_lead(&mut self, key: &str, waiter: T) -> (lead: Option<T>)
        requires
            old(self).wf(),
        ensures
            final(self).wf(),
            old(self)@.dom().contains(key@) ==> lead is None && final(self)@ == old(self)@.insert(
                key@,
                old(self)@[key@].push(waiter),
            ),
            !old(self)@.dom().contains(key@) ==> lead == Some(waiter) && final(self)@
                == old(self)@.insert(key@, Seq::empty()),
    {
        let ghost before = *self;
        match self.position(key) {
            Some(i) => {
                proof {
                    before.lemma_at(key@, i as int);
                }
                let mut slot = self.slots.swap_remove(i);
                slot.waiters.push(waiter);
                self.slots.push(slot);
                proof {
                    let n = before.slots@.len() as int;
                    assert(self.slots@.len() == n);
                    // The slot stands at the end now, and the last one in its place.
                    assert forall|k: Seq<char>, j: int| slot_at(self.slots@, k, j) implies slot_at(
                        before.slots@,
                        k,
                        moved(n, i as int, j),
                    ) by {}
                    assert forall|k: Seq<char>, j: int| slot_at(before.slots@, k, j) implies slot_at(
                        self.slots@,
                        k,
                        moved(n, i as int, j),
                    ) by {}
                    assert(self.wf()) by {
                        assert forall|a: int, b: int|
                            0 <= a < n && 0 <= b < n && (#[trigger] self.slots@[a]).key@ == (
                            #[trigger] self.slots@[b]).key@ implies a == b by {
                            assert(before.slots@[moved(n, i as int, a)].key@ == self.slots@[a].key@);
                            assert(before.slots@[moved(n, i as int, b)].key@ == self.slots@[b].key@);
                        }
                    }
                    let want = before@.insert(key@, before@[key@].push(waiter));
                    assert(slot_at(self.slots@, key@, n - 1));
                    self.lemma_at(key@, n - 1);
                    assert forall|k: Seq<char>| #[trigger] self@.dom().contains(k) == want.dom().contains(k) by {
                        if self@.dom().contains(k) {
                            let j = choose|j: int| slot_at(self.slots@, k, j);
                            assert(slot_at(before.slots@, k, moved(n, i as int, j)));
                        }
                        if before@.dom().contains(k) {
                            let j = choose|j: int| slot_at(before.slots@, k, j);
                            assert(slot_at(self.slots@, k, moved(n, i as int, j)));
                        }
                    }
                    assert forall|k: Seq<char>| self@.dom().contains(k) implies #[trigger] self@[k] == want[k] by {
                        let j = choose|j: int| slot_at(self.slots@, k, j);
                        self.lemma_at(k, j);
                        before.lemma_at(k, moved(n, i as int, j));
                    }
                    assert(self@ =~= want);
                }
                None
            },
            None => {
                self.slots.push(Slot { key: crate::text::owned(key), waiters: Vec::new() });
                proof {
                    let n = before.slots@.len() as int;
                    assert forall|k: Seq<char>, j: int| slot_at(before.slots@, k, j) implies slot_at(
                        self.slots@,
                        k,
                        j,
                    ) by {}
                    assert forall|j: int| 0 <= j < n implies (#[trigger] before.slots@[j]).key@ != key@ by {
                        assert(!slot_at(before.slots@, key@, j));
                    }
                    assert(self.wf()) by {
                        assert forall|a: int, b: int|
                            0 <= a < n + 1 && 0 <= b < n + 1 && (#[trigger] self.slots@[a]).key@ == (
                            #[trigger] self.slots@[b]).key@ implies a == b by {
                            if a < n {
                                assert(self.slots@[a] == before.slots@[a]);
                            }
                            if b < n {
                                assert(self.slots@[b] == before.slots@[b]);
                            }
                        }
                    }
                    let want = before@.insert(key@, Seq::empty());
                    assert(slot_at(self.slots@, key@, n));
                    self.lemma_at(key@, n);
                    assert forall|k: Seq<char>| #[trigger] self@.dom().contains(k) == want.dom().contains(k) by {
                        if self@.dom().contains(k) && k != key@ {
                            let j = choose|j: int| slot_at(self.slots@, k, j);
                            assert(slot_at(before.slots@, k, j));
                        }
                        if before@.dom().contains(k) {
                            let j = choose|j: int| slot_at(before.slots@, k, j);
                            assert(slot_at(self.slots@, k, j));
                        }
                    }
                    assert forall|k: Seq<char>| self@.dom().contains(k) implies #[trigger] self@[k] == want[k] by {
                        let j = choose|j: int| slot_at(self.slots@, k, j);
                        self.lemma_at(k, j);
                        if k != key@ {
                            before.lemma_at(k, j);
                        }
                    }
                    assert(self@[key@] =~= Seq::<T>::empty());
                    assert(self@ =~= want);
                }
                Some(waiter)
            },
        }
    }

    /// Ends the flight of a key and hands over all who wait for it.
    pub fn complete(&mut self, key: &str) -> (r: Vec<T>)
        requires
            old(self).wf(),
        ensures
            final(self).wf(),
            final(self)@ == old(self)@.remove(key@),
            r@ == (if old(self)@.dom().contains(key@) {
                old(self)@[key@]
            } else {
                Seq::empty()
            }),
    {
        let ghost before = *self;
        match self.position(key) {
            Some(i) => {
                proof {
                    before.lemma_at(key@, i as int);
                }
                let slot = self.slots.swap_remove(i);
                proof {
                    let n = before.slots@.len() as int;
                    assert forall|k: Seq<char>, j: int| slot_at(self.slots@, k, j) implies slot_at(
                        before.slots@,
                        k,
                        moved(n, i as int, j),
                    ) by {}
                    assert(self.wf()) by {
                        assert forall|a: int, b: int|
                            0 <= a < n - 1 && 0 <= b < n - 1 && (#[trigger] self.slots@[a]).key@ == (
                            #[trigger] self.slots@[b]).key@ implies a == b by {
                            assert(before.slots@[moved(n, i as int, a)].key@ == self.slots@[a].key@);
                            assert(before.slots@[moved(n, i as int, b)].key@ == self.slots@[b].key@);
                        }
                    }
                    let want = before@.remove(key@);
                    assert forall|k: Seq<char>| #[trigger] self@.dom().contains(k) == want.dom().contains(k) by {
                        if self@.dom().contains(k) {
                            let j = choose|j: int| slot_at(self.slots@, k, j);
                            assert(slot_at(before.slots@, k, moved(n, i as int, j)));
                            if k == key@ {
                                assert(before.slots@[moved(n, i as int, j)].key@ == before.slots@[i as int].key@);
                            }
                        }
                        if want.dom().contains(k) {
                            let j = choose|j: int| slot_at(before.slots@, k, j);
                            assert(j != i);
                            assert(slot_at(self.slots@, k, moved(n, i as int, j)));
                        }
                    }
                    assert forall|k: Seq<char>| self@.dom().contains(k) implies #[trigger] self@[k] == want[k] by {
                        let j = choose|j: int| slot_at(self.slots@, k, j);
                        self.lemma_at(k, j);
                        before.lemma_at(k, moved(n, i as int, j));
                    }
                    assert(self@ =~= want);
                }
                slot.waiters
            },
            None => {
                proof {
                    assert(!before@.dom().contains(key@));
                    assert(before@.remove(key@) =~= before@);
                }
                Vec::new()
            },
        }
    }
}

/// Where an element goes when element `i` of `n` changes places with the last.
pub open spec fn moved(n: int, i: int, j: int) -> int {
    if j == i {
        n - 1
    } else if j == n - 1 {
        i
    } else {
        j
    }
}

/// The flights after `ws` joined that of a key, one after the other.
pub open spec fn after_joins<T>(m: Map<Seq<char>, Seq<T>>, key: Seq<char>, ws: Seq<T>) -> Map<
    Seq<char>,
    Seq<T>,
>
    decreases ws.len(),
{
    if ws.len() == 0 {
        m
    } else {
        let before = after_joins(m, key, ws.drop_last());
        before.insert(key, before[key].push(ws.last()))
    }
}

/// Everyone who joins the flight of a leader is handed over when it ends, in
/// the order of joining, and no other flight is touched.
pub proof fn law_joiners_served<T>(m: Map<Seq<char>, Seq<T>>, key: Seq<char>, ws: Seq<T>)
    requires
        !m.dom().contains(key),
    ensures
        after_joins(m.insert(key, Seq::empty()), key, ws)[key] == ws,
        after_joins(m.insert(key, Seq::empty()), key, ws).remove(key) == m,
    decreases ws.len(),
{
    let led = m.insert(key, Seq::<T>::empty());
    if ws.len() > 0 {
        law_joiners_served(m, key, ws.drop_last());
        assert(ws.drop_last().push(ws.last()) =~= ws);
        let before = after_joins(led, key, ws.drop_last());
        assert(before.insert(key, before[key].push(ws.last())).remove(key) =~= before.remove(key));
    } else {
        assert(led.remove(key) =~= m);
        assert(led[key] =~= ws);
    }
}

} // verus!
