//! A small map from text to values, kept as a list in which no key occurs twice.
use vstd::prelude::*;
use crate::text::same_text;

verus! {

/// Asks `Vec::capacity` how many entries `v` has room for. It has room for those that it
/// holds.
#[verifier::external_body]
fn capacity_of<V>(v: &Vec<(String, V)>) -> (r: usize)
    ensures
        r >= v@.len(),
{
    v.capacity()
}

/// Has `Vec::shrink_to_fit` give back the room that `v` does not need. What `v` holds stays.
#[verifier::external_body]
fn shrink<V>(v: &mut Vec<(String, V)>)
    ensures
        final(v)@ == old(v)@,
{
    v.shrink_to_fit()
}

/// A map from text to values.
pub struct StringMap<V> {
    entries: Vec<(String, V)>,
}

impl<V: View> View for StringMap<V> {
    type V = Map<Seq<char>, V::V>;

    closed spec fn view(&self) -> Map<Seq<char>, V::V> {
        Map::new(
            |k: Seq<char>| self.keys().contains(k),
            |k: Seq<char>| self.entries@[self.keys().index_of(k)].1@,
        )
    }
}

impl<V: View> StringMap<V> {
    /// The keys, in the order in which the entries are held.
    pub closed spec fn keys(&self) -> Seq<Seq<char>> {
        Seq::new(self.entries@.len(), |i: int| self.entries@[i].0@)
    }

    /// No key occurs twice.
    pub closed spec fn wf(&self) -> bool {
        self.keys().no_duplicates()
    }

    /// The keys are the domain of the map, and there are as many entries as keys.
    pub proof fn lemma_keys(&self)
        requires
            self.wf(),
        ensures
            self.keys().no_duplicates(),
            self.keys().to_set() == self@.dom(),
            self@.dom().finite(),
            self@.dom().len() == self.keys().len(),
    {
        assert(self.keys().to_set() =~= self@.dom());
        self.keys().unique_seq_to_set();
        vstd::seq_lib::seq_to_set_is_finite(self.keys());
    }

    /// The entry at position `i` is what the map holds under its key.
    proof fn lemma_entry(&self, i: int)
        requires
            self.wf(),
            0 <= i < self.entries@.len(),
        ensures
            self@.contains_key(self.entries@[i].0@),
            self@[self.entries@[i].0@] == self.entries@[i].1@,
    {
        let k = self.entries@[i].0@;
        assert(self.keys()[i] == k);
        assert(self.keys().contains(k));
        let j = self.keys().index_of(k);
        assert(self.keys()[j] == k);
    }

    /// An empty map.
    pub fn new() -> (r: Self)
        ensures
            r.wf(),
            r@ == Map::<Seq<char>, V::V>::empty(),
    {
        let r = StringMap { entries: Vec::new() };
        assert(r@ =~= Map::<Seq<char>, V::V>::empty());
        r
    }

    /// The number of entries.
    pub fn len(&self) -> (r: usize)
        requires
            self.wf(),
        ensures
            r == self@.dom().len(),
            r == self.keys().len(),
    {
        proof {
            self.lemma_keys();
        }
        self.entries.len()
    }

    /// Where `key` is held, if it is.
    fn position(&self, key: &str) -> (r: Option<usize>)
        requires
            self.wf(),
        ensures
            match r {
                Some(i) => i < self.entries@.len() && self.entries@[i as int].0@ == key@,
                None => !self.keys().contains(key@),
            },
    {
        let mut i: usize = 0;
        while i < self.entries.len()
            invariant
                i <= self.entries@.len(),
                forall|j: int| 0 <= j < i ==> self.entries@[j].0@ != key@,
            decreases self.entries@.len() - i,
        {
            if same_text(self.entries[i].0.as_str(), key) {
                return Some(i);
            }
            i = i + 1;
        }
        assert forall|j: int| 0 <= j < self.keys().len() implies self.keys()[j] != key@ by {
            assert(self.keys()[j] == self.entries@[j].0@);
        }
        None
    }

    /// Whether the map holds `key`.
    pub fn contains_key(&self, key: &str) -> (r: bool)
        requires
            self.wf(),
        ensures
            r == self@.contains_key(key@),
    {
        match self.position(key) {
            Some(i) => {
                proof {
                    self.lemma_entry(i as int);
                }
                true
            },
            None => false,
        }
    }

    /// What the map holds under `key`.
    pub fn get(&self, key: &str) -> (r: Option<&V>)
        requires
            self.wf(),
        ensures
            match r {
                Some(v) => self@.contains_key(key@) && self@[key@] == v@,
                None => !self@.contains_key(key@),
            },
    {
        match self.position(key) {
            Some(i) => {
                proof {
                    self.lemma_entry(i as int);
                }
                Some(&self.entries[i].1)
            },
            None => None,
        }
    }

    /// Puts `value` under `key`, in the place of what was there.
    pub fn insert(&mut self, key: String, value: V)
        requires
            old(self).wf(),
        ensures
            final(self).wf(),
            final(self)@ == old(self)@.insert(key@, value@),
    {
        let ghost k = key@;
        let ghost v = value@;
        match self.position(key.as_str()) {
            Some(i) => {
                self.entries.set(i, (key, value));
                proof {
                    assert(self.keys() =~= old(self).keys());
                    assert forall|x: Seq<char>| #[trigger]
                        self@.contains_key(x) == old(self)@.insert(k, v).contains_key(x) by {
                        if x == k {
                            self.lemma_entry(i as int);
                        }
                    }
                    assert forall|x: Seq<char>| #[trigger] self@.contains_key(x) implies self@[x]
                        == old(self)@.insert(k, v)[x] by {
                        let j = self.keys().index_of(x);
                        assert(self.keys()[j] == x);
                        if x == k {
                            self.lemma_entry(i as int);
                        } else {
                            assert(j != i);
                            assert(self.entries@[j] == old(self).entries@[j]);
                        }
                    }
                    assert(self@ =~= old(self)@.insert(k, v));
                }
            },
            None => {
                self.entries.push((key, value));
                proof {
                    let n = old(self).entries@.len() as int;
                    assert(self.keys() =~= old(self).keys().push(k));
                    assert forall|a: int, b: int|
                        0 <= a < self.keys().len() && 0 <= b < self.keys().len() && a
                            != b implies self.keys()[a] != self.keys()[b] by {
                        if a == n {
                            assert(old(self).keys()[b] == self.keys()[b]);
                            assert(old(self).keys().contains(self.keys()[b]));
                        } else if b == n {
                            assert(old(self).keys()[a] == self.keys()[a]);
                            assert(old(self).keys().contains(self.keys()[a]));
                        } else {
                            assert(old(self).keys()[a] == self.keys()[a]);
                            assert(old(self).keys()[b] == self.keys()[b]);
                        }
                    }
                    assert(self.wf());
                    assert forall|x: Seq<char>| #[trigger]
                        self@.contains_key(x) == old(self)@.insert(k, v).contains_key(x) by {
                        if self.keys().contains(x) {
                            let j = self.keys().index_of(x);
                            assert(self.keys()[j] == x);
                            if j < n {
                                assert(old(self).keys()[j] == x);
                            }
                        }
                        if old(self).keys().contains(x) {
                            let j = old(self).keys().index_of(x);
                            assert(old(self).keys()[j] == x);
                            assert(self.keys()[j] == x);
                        }
                        if x == k {
                            assert(self.keys()[n] == x);
                        }
                    }
                    assert forall|x: Seq<char>| #[trigger] self@.contains_key(x) implies self@[x]
                        == old(self)@.insert(k, v)[x] by {
                        let j = self.keys().index_of(x);
                        assert(self.keys()[j] == x);
                        if x == k {
                            assert(self.keys()[n] == x);
                            assert(j == n);
                        } else {
                            assert(j < n);
                            assert(old(self).keys()[j] == x);
                            old(self).lemma_entry(j);
                            assert(self.entries@[j] == old(self).entries@[j]);
                        }
                    }
                    assert(self@ =~= old(self)@.insert(k, v));
                }
            },
        }
    }

    /// Takes out what the map holds under `key`.
    pub fn remove(&mut self, key: &str) -> (r: Option<V>)
        requires
            old(self).wf(),
        ensures
            final(self).wf(),
            final(self)@ == old(self)@.remove(key@),
            match r {
                Some(v) => old(self)@.contains_key(key@) && old(self)@[key@] == v@,
                None => !old(self)@.contains_key(key@),
            },
    {
        match self.position(key) {
            Some(i) => {
                proof {
                    self.lemma_entry(i as int);
                }
                let removed = self.entries.remove(i);
                proof {
                    let k = key@;
                    assert(self.keys() =~= old(self).keys().remove(i as int));
                    assert forall|a: int, b: int|
                        0 <= a < self.keys().len() && 0 <= b < self.keys().len() && a
                            != b implies self.keys()[a] != self.keys()[b] by {
                        let a2 = if a < i { a } else { a + 1 };
                        let b2 = if b < i { b } else { b + 1 };
                        assert(self.keys()[a] == old(self).keys()[a2]);
                        assert(self.keys()[b] == old(self).keys()[b2]);
                    }
                    assert(self.wf());
                    assert forall|x: Seq<char>| #[trigger]
                        self@.contains_key(x) == old(self)@.remove(k).contains_key(x) by {
                        if self.keys().contains(x) {
                            let j = self.keys().index_of(x);
                            assert(self.keys()[j] == x);
                            let j2 = if j < i { j } else { j + 1 };
                            assert(old(self).keys()[j2] == x);
                            assert(old(self).keys()[i as int] == k);
                        }
                        if old(self).keys().contains(x) && x != k {
                            let j = old(self).keys().index_of(x);
                            assert(old(self).keys()[j] == x);
                            assert(old(self).keys()[i as int] == k);
                            assert(j != i);
                            let j2 = if j < i { j } else { j - 1 };
                            assert(self.keys()[j2] == x);
                        }
                    }
                    assert forall|x: Seq<char>| #[trigger] self@.contains_key(x) implies self@[x]
                        == old(self)@.remove(k)[x] by {
                        let j = self.keys().index_of(x);
                        assert(self.keys()[j] == x);
                        let j2 = if j < i { j } else { j + 1 };
                        assert(old(self).keys()[j2] == x);
                        old(self).lemma_entry(j2);
                        assert(self.entries@[j] == old(self).entries@[j2]);
                    }
                    assert(self@ =~= old(self)@.remove(k));
                }
                Some(removed.1)
            },
            None => {
                assert(self@ =~= old(self)@.remove(key@));
                None
            },
        }
    }

    /// How many entries the map has room for.
    pub fn capacity(&self) -> (r: usize)
        requires
            self.wf(),
        ensures
            r >= self@.dom().len(),
    {
        proof {
            self.lemma_keys();
        }
        capacity_of(&self.entries)
    }

    /// Gives back the room that the map does not need.
    pub fn shrink_to_fit(&mut self)
        requires
            old(self).wf(),
        ensures
            final(self).wf(),
            final(self)@ == old(self)@,
            final(self).keys() == old(self).keys(),
    {
        shrink(&mut self.entries);
    }

    /// The key of the entry at position `i`, for walking through the map.
    pub fn key_at(&self, i: usize) -> (r: &String)
        requires
            self.wf(),
            i < self.keys().len(),
        ensures
            r@ == self.keys()[i as int],
            self@.contains_key(r@),
    {
        proof {
            self.lemma_entry(i as int);
        }
        &self.entries[i].0
    }

    /// The value of the entry at position `i`, for walking through the map.
    pub fn value_at(&self, i: usize) -> (r: &V)
        requires
            self.wf(),
            i < self.keys().len(),
        ensures
            r@ == self@[self.keys()[i as int]],
    {
        proof {
            self.lemma_entry(i as int);
        }
        &self.entries[i].1
    }
}

} // verus!
