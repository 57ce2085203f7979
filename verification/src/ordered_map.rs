use vstd::prelude::*;

verus! {

/// A map from string keys to values that remembers the order in which keys
/// were first inserted. Updating an existing key keeps its position; a new
/// key goes to the end. Listings walk the keys in that order.
pub struct OrderedMap<V> {
    entries: Vec<(String, V)>,
}

impl<V> OrderedMap<V> {
    /// The keys, in the order in which they were first inserted.
    pub closed spec fn keys(&self) -> Seq<Seq<char>> {
        Self::keys_of(self.entries@)
    }

    closed spec fn keys_of(entries: Seq<(String, V)>) -> Seq<Seq<char>> {
        Seq::new(entries.len(), |i: int| entries[i].0@)
    }

    #[verifier::type_invariant]
    closed spec fn keys_distinct(&self) -> bool {
        self.keys().no_duplicates()
    }

    closed spec fn slot_of(&self, k: Seq<char>) -> int {
        choose|i: int| 0 <= i < self.entries@.len() && self.entries@[i].0@ == k
    }

    /// The keys in the order a listing returns them once `k` has been inserted.
    pub open spec fn keys_after_insert(&self, k: Seq<char>) -> Seq<Seq<char>> {
        if self@.contains_key(k) {
            self.keys()
        } else {
            self.keys().push(k)
        }
    }

    /// The keys are distinct and are exactly the keys of the map.
    pub open spec fn keys_match(&self) -> bool {
        &&& self.keys().no_duplicates()
        &&& forall|k: Seq<char>| #[trigger] self@.contains_key(k) <==> self.keys().contains(k)
    }

    proof fn lemma_slot(&self, i: int)
        requires
            self.keys().no_duplicates(),
            0 <= i < self.entries@.len(),
        ensures
            self@.contains_key(self.entries@[i].0@),
            self@[self.entries@[i].0@] == self.entries@[i].1,
            self.slot_of(self.entries@[i].0@) == i,
    {
        let k = self.entries@[i].0@;
        assert(self.keys()[i] == k);
        assert(self.keys().contains(k));
        let j = self.slot_of(k);
        assert(self.keys()[j] == k);
    }

    proof fn lemma_keys_match(&self)
        requires
            self.keys().no_duplicates(),
        ensures
            self.keys_match(),
    {
    }

    /// An empty map.
    pub fn new() -> (m: Self)
        ensures
            m@ == Map::<Seq<char>, V>::empty(),
            m.keys() == Seq::<Seq<char>>::empty(),
            m.keys_match(),
    {
        let m = OrderedMap { entries: Vec::new() };
        assert(m.keys() =~= Seq::<Seq<char>>::empty());
        assert(m@ =~= Map::<Seq<char>, V>::empty());
        m
    }

    /// The number of keys.
    pub fn len(&self) -> (n: usize)
        ensures
            n == self.keys().len(),
            self.keys_match(),
    {
        proof {
            use_type_invariant(self);
            self.lemma_keys_match();
        }
        self.entries.len()
    }

    /// The position of `key` in the key order, if it is present.
    pub fn find(&self, key: &String) -> (r: Option<usize>)
        ensures
            r is Some <==> self@.contains_key(key@),
            r matches Some(i) ==> i < self.keys().len() && self.keys()[i as int] == key@,
            self.keys_match(),
    {
        proof {
            use_type_invariant(self);
            self.lemma_keys_match();
        }
        let n = self.entries.len();
        let mut i: usize = 0;
        while i < n
            invariant
                n == self.entries@.len(),
                i <= n,
                self.keys_match(),
                forall|j: int| 0 <= j < i ==> self.entries@[j].0@ != key@,
            decreases n - i,
        {
            if self.entries[i].0 == *key {
                assert(self.keys()[i as int] == key@);
                assert(self.keys().contains(key@));
                return Some(i);
            }
            i = i + 1;
        }
        assert(!self.keys().contains(key@)) by {
            if self.keys().contains(key@) {
                let j = choose|j: int| 0 <= j < self.keys().len() && self.keys()[j] == key@;
                assert(self.entries@[j].0@ == key@);
            }
        }
        None
    }

    /// The value stored under `key`, if any.
    pub fn get(&self, key: &String) -> (r: Option<&V>)
        ensures
            r is Some <==> self@.contains_key(key@),
            r matches Some(v) ==> *v == self@[key@],
    {
        proof {
            use_type_invariant(self);
        }
        match self.find(key) {
            Some(i) => {
                proof {
                    self.lemma_slot(i as int);
                }
                Some(&self.entries[i].1)
            },
            None => None,
        }
    }

    /// The key at position `i` of the key order.
    pub fn key_at(&self, i: usize) -> (k: &String)
        requires
            i < self.keys().len(),
        ensures
            k@ == self.keys()[i as int],
            self@.contains_key(k@),
    {
        proof {
            use_type_invariant(self);
            self.lemma_slot(i as int);
        }
        &self.entries[i].0
    }

    /// The value stored under the key at position `i` of the key order.
    pub fn value_at(&self, i: usize) -> (v: &V)
        requires
            i < self.keys().len(),
        ensures
            *v == self@[self.keys()[i as int]],
    {
        proof {
            use_type_invariant(self);
            self.lemma_slot(i as int);
        }
        &self.entries[i].1
    }

    /// Stores `value` under the key at position `i`, keeping the key order, and
    /// hands back the value that was there.
    pub fn swap_value(&mut self, i: usize, value: V) -> (previous: V)
        requires
            i < old(self).keys().len(),
        ensures
            previous == old(self)@[old(self).keys()[i as int]],
            final(self)@ == old(self)@.insert(old(self).keys()[i as int], value),
            final(self).keys() == old(self).keys(),
    {
        proof {
            use_type_invariant(&*self);
            self.lemma_slot(i as int);
        }
        let ghost before = *self;
        let key = self.entries[i].0.clone();
        let mut slot = (key, value);
        let mut entries: Vec<(String, V)> = Vec::new();
        std::mem::swap(&mut entries, &mut self.entries);
        entries.set_and_swap(i, &mut slot);
        assert(Self::keys_of(entries@) =~= before.keys());
        self.entries = entries;
        proof {
            assert(self.keys() =~= before.keys());
            self.lemma_slot(i as int);
            let k = before.keys()[i as int];
            assert forall|x: Seq<char>| #[trigger] self@.contains_key(x) == before@.insert(k, self.entries@[i as int].1).contains_key(x) by {
                assert(self.keys().contains(x) == before.keys().contains(x));
            }
            assert forall|x: Seq<char>| self@.contains_key(x) && x != k implies #[trigger] self@[x] == before@[x] by {
                let j = before.slot_of(x);
                assert(before.keys().contains(x));
                assert(0 <= j < before.entries@.len() && before.entries@[j].0@ == x);
                before.lemma_slot(j);
                self.lemma_slot(j);
            }
            assert(self@ =~= before@.insert(k, value));
        }
        slot.1
    }

    /// Stores `value` under `key`: an existing key keeps its position, a new
    /// key goes to the end of the key order.
    pub fn insert(&mut self, key: String, value: V)
        ensures
            final(self)@ == old(self)@.insert(key@, value),
            final(self).keys() == old(self).keys_after_insert(key@),
            final(self).keys_match(),
    {
        proof {
            use_type_invariant(&*self);
        }
        match self.find(&key) {
            Some(i) => {
                let _ = self.swap_value(i, value);
                proof {
                    use_type_invariant(&*self);
                }
            },
            None => {
                let ghost before = *self;
                let ghost k = key@;
                let mut entries: Vec<(String, V)> = Vec::new();
                std::mem::swap(&mut entries, &mut self.entries);
                entries.push((key, value));
                proof {
                    let n = before.entries@.len() as int;
                    let ks = Self::keys_of(entries@);
                    assert(ks =~= before.keys().push(k));
                    assert(!before.keys().contains(k));
                    assert(ks.no_duplicates()) by {
                        assert forall|a: int, b: int|
                            0 <= a < ks.len() && 0 <= b < ks.len() && a != b
                            implies ks[a] != ks[b] by {
                            if a == n {
                                assert(before.keys()[b] == ks[b]);
                            } else if b == n {
                                assert(before.keys()[a] == ks[a]);
                            }
                        }
                    }
                }
                self.entries = entries;
                proof {
                    let n = before.entries@.len() as int;
                    self.lemma_slot(n);
                    assert forall|x: Seq<char>| #[trigger] self@.contains_key(x) == before@.insert(k, value).contains_key(x) by {
                        if self.keys().contains(x) && x != k {
                            let j = choose|j: int| 0 <= j < self.keys().len() && self.keys()[j] == x;
                            assert(j != n);
                            assert(before.keys()[j] == x);
                        }
                        if before.keys().contains(x) {
                            let j = choose|j: int| 0 <= j < before.keys().len() && before.keys()[j] == x;
                            assert(self.keys()[j] == x);
                        }
                    }
                    assert forall|x: Seq<char>| self@.contains_key(x) && x != k implies #[trigger] self@[x] == before@[x] by {
                        let j = before.slot_of(x);
                        assert(before.keys().contains(x));
                        assert(0 <= j < before.entries@.len() && before.entries@[j].0@ == x);
                        before.lemma_slot(j);
                        self.lemma_slot(j);
                    }
                    assert(self@ =~= before@.insert(k, value));
                }
            },
        }
    }
}

impl<V: Copy> OrderedMap<V> {
    /// A separate map with the same keys, order and values.
    pub fn duplicate(&self) -> (r: Self)
        ensures
            r@ == self@,
            r.keys() == self.keys(),
    {
        proof {
            use_type_invariant(self);
        }
        let n = self.entries.len();
        let mut entries: Vec<(String, V)> = Vec::new();
        let mut i: usize = 0;
        while i < n
            invariant
                n == self.entries@.len(),
                i <= n,
                entries@ == self.entries@.take(i as int),
            decreases n - i,
        {
            let key = self.entries[i].0.clone();
            let value = self.entries[i].1;
            entries.push((key, value));
            assert(entries@ =~= self.entries@.take(i + 1));
            i = i + 1;
        }
        assert(entries@ =~= self.entries@);
        assert(Self::keys_of(entries@) =~= self.keys());
        OrderedMap { entries }
    }
}

impl<V> View for OrderedMap<V> {
    type V = Map<Seq<char>, V>;

    closed spec fn view(&self) -> Map<Seq<char>, V> {
        Map::new(
            |k: Seq<char>| self.keys().contains(k),
            |k: Seq<char>| self.entries@[self.slot_of(k)].1,
        )
    }
}

} // verus!
