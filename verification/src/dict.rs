//! A map from text keys to values that remembers the order in which its keys
//! arrived, so that walking it is repeatable.

use vstd::prelude::*;

verus! {

/// The mathematical form of a [`Dict`]: what each key maps to, and the order
/// in which the keys are walked.
#[verifier::ext_equal]
pub struct DictView<V> {
    pub map: Map<Seq<char>, V>,
    pub order: Seq<Seq<char>>,
}

impl<V> DictView<V> {
    /// The map without any key.
    pub open spec fn empty() -> Self {
        DictView { map: Map::empty(), order: Seq::empty() }
    }

    /// What `key` maps to, if anything.
    pub open spec fn get(self, key: Seq<char>) -> Option<V> {
        if self.map.contains_key(key) {
            Some(self.map[key])
        } else {
            None
        }
    }

    /// The map after `key` is given `value`. A key that was present keeps its
    /// place in the order; a new key goes to the end.
    pub open spec fn insert(self, key: Seq<char>, value: V) -> Self {
        DictView {
            map: self.map.insert(key, value),
            order: if self.map.contains_key(key) {
                self.order
            } else {
                self.order.push(key)
            },
        }
    }

    /// The order lists each key of the map once and nothing else.
    pub open spec fn wf(self) -> bool {
        &&& self.order.no_duplicates()
        &&& forall|k: Seq<char>| self.order.contains(k) <==> self.map.contains_key(k)
    }

    /// The empty map is well formed.
    pub proof fn lemma_empty_wf()
        ensures
            Self::empty().wf(),
    {
    }

    /// Giving a key a value keeps a map well formed.
    pub proof fn lemma_insert_wf(self, key: Seq<char>, value: V)
        requires
            self.wf(),
        ensures
            self.insert(key, value).wf(),
    {
        let next = self.insert(key, value);
        assert forall|i: int, j: int|
            0 <= i < next.order.len() && 0 <= j < next.order.len() && i != j implies next.order[i]
            != next.order[j] by {
            if i < self.order.len() {
                assert(self.order.contains(self.order[i]));
            }
            if j < self.order.len() {
                assert(self.order.contains(self.order[j]));
            }
        }
        assert forall|k: Seq<char>| next.order.contains(k) <==> next.map.contains_key(k) by {
            if self.order.contains(k) {
                let i = self.order.index_of(k);
                assert(next.order[i] == k);
            }
            if k == key && !self.map.contains_key(key) {
                assert(next.order[self.order.len() as int] == k);
            }
        }
    }

    /// In a well-formed map the keys walked are, as a set, the keys mapped.
    pub proof fn lemma_order_is_domain(self)
        requires
            self.wf(),
        ensures
            self.order.to_set() == self.map.dom(),
            self.order.no_duplicates(),
    {
        assert(self.order.to_set() =~= self.map.dom());
    }
}

/// A map keyed by text. Keys are unique; a key keeps the place it was first
/// given.
#[derive(Debug)]
pub struct Dict<V> {
    slots: Vec<(String, V)>,
}

/// The keys of a run of slots, in order.
pub open spec fn keys_of<V>(slots: Seq<(String, V)>) -> Seq<Seq<char>> {
    Seq::new(slots.len(), |i: int| slots[i].0@)
}

impl<V> Dict<V> {
    /// No key occurs twice.
    #[verifier::type_invariant]
    closed spec fn distinct(&self) -> bool {
        keys_of(self.slots@).no_duplicates()
    }
}

impl<V: View> View for Dict<V> {
    type V = DictView<V::V>;

    closed spec fn view(&self) -> DictView<V::V> {
        let order = keys_of(self.slots@);
        DictView {
            map: Map::new(
                |k: Seq<char>| order.contains(k),
                |k: Seq<char>| self.slots@[order.index_of(k)].1@,
            ),
            order,
        }
    }
}

impl<V: View> Dict<V> {
    /// A map without any key.
    pub fn new() -> (dict: Self)
        ensures
            dict@ == DictView::<V::V>::empty(),
    {
        let dict = Dict { slots: Vec::new() };
        assert(dict@ =~= DictView::<V::V>::empty());
        dict
    }

    /// The number of keys.
    pub fn len(&self) -> (n: usize)
        ensures
            n == self@.order.len(),
            self@.wf(),
    {
        proof {
            use_type_invariant(self);
        }
        self.slots.len()
    }

    /// Where `key` stands among the slots.
    fn position(&self, key: &String) -> (at: Option<usize>)
        ensures
            match at {
                Some(i) => i < self@.order.len() && self@.order[i as int] == key@,
                None => !self@.order.contains(key@),
            },
    {
        let mut i: usize = 0;
        while i < self.slots.len()
            invariant
                i <= self.slots@.len(),
                forall|j: int| 0 <= j < i ==> self@.order[j] != key@,
            decreases self.slots@.len() - i,
        {
            if self.slots[i].0 == *key {
                return Some(i);
            }
            i += 1;
        }
        None
    }

    /// The value of `key`, if the key is present.
    pub fn get(&self, key: &String) -> (found: Option<&V>)
        ensures
            match found {
                Some(v) => self@.get(key@) == Some(v@),
                None => self@.get(key@) is None,
            },
            self@.wf(),
    {
        proof {
            use_type_invariant(self);
        }
        match self.position(key) {
            Some(i) => {
                assert(self@.order.index_of(key@) == i);
                Some(&self.slots[i].1)
            },
            None => None,
        }
    }

    /// Gives `key` the value `value`, in place of any value it had.
    pub fn insert(&mut self, key: String, value: V)
        ensures
            final(self)@ == old(self)@.insert(key@, value@),
            final(self)@.wf(),
    {
        proof {
            use_type_invariant(&*self);
        }
        let at = self.position(&key);
        let mut taken = Dict { slots: Vec::new() };
        std::mem::swap(self, &mut taken);
        let Dict { slots } = taken;
        let mut slots = slots;
        match at {
            Some(i) => {
                slots.set(i, (key, value));
            },
            None => {
                slots.push((key, value));
            },
        }
        proof {
            let before = old(self).slots@;
            if at is Some {
                assert(keys_of(slots@) =~= keys_of(before));
            } else {
                assert(keys_of(slots@) =~= keys_of(before).push(key@));
            }
        }
        let next = Dict { slots };
        proof {
            let want = old(self)@.insert(key@, value@);
            assert forall|k: Seq<char>| next@.map.dom().contains(k) <==> want.map.dom().contains(
                k,
            ) by {
                if next@.order.contains(k) {
                    let i = next@.order.index_of(k);
                    if k != key@ {
                        assert(old(self)@.order[i] == k);
                    }
                }
                if old(self)@.order.contains(k) {
                    let j = old(self)@.order.index_of(k);
                    assert(next@.order[j] == k);
                }
                if k == key@ {
                    let n = match at {
                        Some(i) => i as int,
                        None => old(self).slots@.len() as int,
                    };
                    assert(next@.order[n] == k);
                }
            }
            assert forall|k: Seq<char>| #[trigger]
                next@.map.dom().contains(k) implies next@.map[k] == want.map[k] by {
                let i = next@.order.index_of(k);
                if k != key@ {
                    assert(old(self)@.order[i] == k);
                    assert(old(self)@.order.index_of(k) == i);
                }
            }
            assert(next@.map =~= want.map);
            assert(next@ =~= want);
        }
        *self = next;
    }

    /// The keys, in the order in which they are walked.
    pub fn keys(&self) -> (keys: Vec<&String>)
        ensures
            keys@.len() == self@.order.len(),
            forall|i: int| 0 <= i < keys@.len() ==> (#[trigger] keys@[i])@ == self@.order[i],
            self@.wf(),
    {
        proof {
            use_type_invariant(self);
        }
        let mut keys: Vec<&String> = Vec::new();
        let mut i: usize = 0;
        while i < self.slots.len()
            invariant
                i <= self.slots@.len(),
                keys@.len() == i,
                forall|j: int| 0 <= j < i ==> (#[trigger] keys@[j])@ == self@.order[j],
            decreases self.slots@.len() - i,
        {
            keys.push(&self.slots[i].0);
            i += 1;
        }
        keys
    }
}

} // verus!
