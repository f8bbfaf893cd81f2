//! A small map from text to text.
use vstd::prelude::*;

use crate::text::same;

verus! {

/// A map from text to text, as a list of pairs of which the first with a key
/// counts.
#[derive(Debug)]
pub struct TextMap {
    pub pairs: Vec<(String, String)>,
}

/// The value of the first pair from `i` on with this key.
pub open spec fn lookup(pairs: Seq<(String, String)>, key: Seq<char>, i: int) -> Option<Seq<char>>
    decreases pairs.len() - i,
{
    if i < 0 || i >= pairs.len() {
        None
    } else if pairs[i].0@ == key {
        Some(pairs[i].1@)
    } else {
        lookup(pairs, key, i + 1)
    }
}

impl TextMap {
    /// The value under a key.
    pub open spec fn at(&self, key: Seq<char>) -> Option<Seq<char>> {
        lookup(self.pairs@, key, 0)
    }
}

impl View for TextMap {
    type V = Map<Seq<char>, Seq<char>>;

    open spec fn view(&self) -> Map<Seq<char>, Seq<char>> {
        Map::new(|k: Seq<char>| self.at(k) is Some, |k: Seq<char>| self.at(k)->0)
    }
}

proof fn lemma_lookup_skip(pairs: Seq<(String, String)>, key: Seq<char>, i: int, n: int)
    requires
        0 <= i <= n <= pairs.len(),
        forall|j: int| i <= j < n ==> (#[trigger] pairs[j]).0@ != key,
    ensures
        lookup(pairs, key, i) == lookup(pairs, key, n),
    decreases n - i,
{
    if i < n {
        lemma_lookup_skip(pairs, key, i + 1, n);
    }
}

proof fn lemma_lookup_same(
    a: Seq<(String, String)>,
    b: Seq<(String, String)>,
    key: Seq<char>,
    i: int,
)
    requires
        a.len() <= b.len(),
        0 <= i,
        forall|j: int|
            i <= j < a.len() ==> (#[trigger] a[j]).0@ == b[j].0@ && (a[j].0@ == key ==> a[j].1@
                == b[j].1@),
        forall|j: int| a.len() <= j < b.len() ==> (#[trigger] b[j]).0@ != key,
    ensures
        lookup(a, key, i) == lookup(b, key, i),
    decreases b.len() - i,
{
    if i < b.len() {
        if i < a.len() {
            assert(a[i].0@ == b[i].0@);
        } else {
            assert(b[i].0@ != key);
        }
        lemma_lookup_same(a, b, key, i + 1);
    }
}

impl TextMap {
    /// An empty map.
    pub fn new() -> (r: TextMap)
        ensures
            r@ == Map::<Seq<char>, Seq<char>>::empty(),
    {
        let r = TextMap { pairs: Vec::new() };
        assert(r@ =~= Map::<Seq<char>, Seq<char>>::empty());
        r
    }

    /// A copy of the map.
    pub fn copy(&self) -> (r: TextMap)
        ensures
            r.pairs@ == self.pairs@,
            r@ == self@,
    {
        let mut pairs: Vec<(String, String)> = Vec::new();
        let mut i: usize = 0;
        while i < self.pairs.len()
            invariant
                i <= self.pairs@.len(),
                pairs@ =~= self.pairs@.subrange(0, i as int),
            decreases self.pairs@.len() - i,
        {
            pairs.push((self.pairs[i].0.clone(), self.pairs[i].1.clone()));
            i += 1;
        }
        assert(pairs@ =~= self.pairs@);
        TextMap { pairs }
    }

    /// Position of the first pair with this key.
    fn position(&self, key: &str) -> (r: Option<usize>)
        ensures
            match r {
                Some(i) => i < self.pairs@.len() && self.pairs@[i as int].0@ == key@
                    && forall|j: int| 0 <= j < i ==> (#[trigger] self.pairs@[j]).0@ != key@,
                None => forall|j: int|
                    0 <= j < self.pairs@.len() ==> (#[trigger] self.pairs@[j]).0@ != key@,
            },
    {
        let mut i: usize = 0;
        while i < self.pairs.len()
            invariant
                i <= self.pairs@.len(),
                forall|j: int| 0 <= j < i ==> (#[trigger] self.pairs@[j]).0@ != key@,
            decreases self.pairs@.len() - i,
        {
            if same(self.pairs[i].0.as_str(), key) {
                return Some(i);
            }
            i += 1;
        }
        None
    }

    /// Puts a value under a key, in place of any other.
    pub fn insert(&mut self, key: String, value: String)
        ensures
            final(self)@ == old(self)@.insert(key@, value@),
    {
        let ghost before = self.pairs@;
        match self.position(key.as_str()) {
            Some(i) => {
                let ghost k = key@;
                let ghost v = value@;
                self.pairs.set(i, (key, value));
                proof {
                    let after = self.pairs@;
                    lemma_lookup_skip(after, k, 0, i as int);
                    assert forall|x: Seq<char>| x != k implies lookup(before, x, 0) == lookup(after, x, 0) by {
                        lemma_lookup_same(before, after, x, 0);
                    }
                    assert(lookup(after, k, 0) == Some(v));
                    lemma_lookup_skip(before, k, 0, i as int);
                    assert(self@ =~= old(self)@.insert(k, v));
                }
            },
            None => {
                let ghost k = key@;
                let ghost v = value@;
                self.pairs.push((key, value));
                proof {
                    let after = self.pairs@;
                    assert forall|j: int| 0 <= j < before.len() implies (#[trigger] after[j]).0@ != k by {
                        assert(after[j] == before[j]);
                    }
                    lemma_lookup_skip(after, k, 0, before.len() as int);
                    assert(lookup(after, k, 0) == Some(v));
                    assert forall|x: Seq<char>| x != k implies lookup(before, x, 0) == lookup(after, x, 0) by {
                        lemma_lookup_same(before, after, x, 0);
                    }
                    assert(self@ =~= old(self)@.insert(k, v));
                }
            },
        }
    }

    /// The value under a key.
    pub fn get(&self, key: &str) -> (r: Option<&str>)
        ensures
            match r {
                Some(v) => self@.dom().contains(key@) && v@ == self@[key@],
                None => !self@.dom().contains(key@),
            },
    {
        match self.position(key) {
            Some(i) => {
                proof {
                    lemma_lookup_skip(self.pairs@, key@, 0, i as int);
                }
                Some(self.pairs[i].1.as_str())
            },
            None => {
                proof {
                    lemma_lookup_skip(self.pairs@, key@, 0, self.pairs@.len() as int);
                }
                None
            },
        }
    }

    /// Puts every pair of `other` into this map.
    pub fn merge(&mut self, other: &TextMap)
        ensures
            final(self)@ == old(self)@.union_prefer_right(other@),
    {
        let ghost start = self@;
        let n: usize = other.pairs.len();
        let mut i: usize = n;
        // From the last pair to the first, so that the first with a key counts.
        assert(self@ =~= start.union_prefer_right(map_from(other.pairs@, n as int)));
        while i > 0
            invariant
                i <= n,
                n == other.pairs@.len(),
                self@ == start.union_prefer_right(map_from(other.pairs@, i as int)),
            decreases i,
        {
            i -= 1;
            let ghost prev = self@;
            self.insert(other.pairs[i].0.clone(), other.pairs[i].1.clone());
            proof {
                let k = other.pairs@[i as int].0@;
                assert(self@ =~= start.union_prefer_right(map_from(other.pairs@, i as int)));
            }
        }
        assert(map_from(other.pairs@, 0) =~= other@);
    }
}

/// The map that the pairs from `i` on make.
pub open spec fn map_from(pairs: Seq<(String, String)>, i: int) -> Map<Seq<char>, Seq<char>> {
    Map::new(|k: Seq<char>| lookup(pairs, k, i) is Some, |k: Seq<char>| lookup(pairs, k, i)->0)
}

/// Merging keeps what only the old map has and takes the new map's value
/// everywhere else.
pub proof fn law_merge_keeps(
    old_map: Map<Seq<char>, Seq<char>>,
    new_map: Map<Seq<char>, Seq<char>>,
    k: Seq<char>,
)
    requires
        old_map.dom().contains(k) || new_map.dom().contains(k),
    ensures
        old_map.union_prefer_right(new_map)[k] == (if new_map.dom().contains(k) {
            new_map[k]
        } else {
            old_map[k]
        }),
{
}

} // verus!
