//! A table from document identity to a value, at most one value per
//! identity, viewed as a map.
use vstd::prelude::*;
use crate::text::chars_of;

verus! {

pub struct Slot<T> {
    pub key: String,
    pub value: T,
}

pub struct Table<T: View> {
    slots: Vec<Slot<T>>,
    model: Ghost<Map<Seq<char>, T::V>>,
}

fn same_text(a: &str, b: &str) -> (r: bool)
    ensures
        r == (a@ == b@),
{
    crate::text::same(&chars_of(a), &chars_of(b))
}

impl<T: View> View for Table<T> {
    type V = Map<Seq<char>, T::V>;

    closed spec fn view(&self) -> Map<Seq<char>, T::V> {
        self.model@
    }
}

impl<T: View> Table<T> {
    /// Each identity occurs once, and the slots hold exactly the map.
    pub closed spec fn wf(&self) -> bool {
        &&& forall|i: int, j: int|
            0 <= i < self.slots@.len() && 0 <= j < self.slots@.len() && i != j
                ==> self.slots@[i].key@ != self.slots@[j].key@
        &&& forall|i: int|
            0 <= i < self.slots@.len() ==> self.model@.contains_key(#[trigger] self.slots@[i].key@)
                && self.model@[self.slots@[i].key@] == self.slots@[i].value@
        &&& forall|k: Seq<char>|
            self.model@.contains_key(k) ==> exists|i: int|
                0 <= i < self.slots@.len() && #[trigger] self.slots@[i].key@ == k
    }

    pub fn new() -> (r: Self)
        ensures
            r.wf(),
            r@ == Map::<Seq<char>, T::V>::empty(),
    {
        Table { slots: Vec::new(), model: Ghost(Map::empty()) }
    }

    fn index_of(&self, key: &str) -> (r: Option<usize>)
        requires
            self.wf(),
        ensures
            r matches Some(i) ==> i < self.slots@.len() && self.slots@[i as int].key@ == key@,
            r is None ==> !self@.contains_key(key@),
    {
        let mut i: usize = 0;
        while i < self.slots.len()
            invariant
                self.wf(),
                0 <= i <= self.slots@.len(),
                forall|j: int| 0 <= j < i ==> self.slots@[j].key@ != key@,
            decreases self.slots.len() - i,
        {
            if same_text(self.slots[i].key.as_str(), key) {
                return Some(i);
            }
            i = i + 1;
        }
        None
    }

    /// The value stored under `key`.
    pub fn get(&self, key: &str) -> (r: Option<&T>)
        requires
            self.wf(),
        ensures
            r matches Some(v) ==> self@.contains_key(key@) && v@ == self@[key@],
            r is None ==> !self@.contains_key(key@),
    {
        match self.index_of(key) {
            Some(i) => Some(&self.slots[i].value),
            None => None,
        }
    }

    /// Stores `value` under `key`, replacing what was there.
    pub fn insert(&mut self, key: &str, value: T)
        requires
            old(self).wf(),
        ensures
            final(self).wf(),
            final(self)@ == old(self)@.insert(key@, value@),
    {
        let ghost k = key@;
        let ghost v = value@;
        let ghost before = self.slots@;
        let ghost mut pos: int = 0;
        match self.index_of(key) {
            Some(i) => {
                self.slots.set(i, Slot { key: crate::text::owned(key), value });
                proof {
                    pos = i as int;
                }
            },
            None => {
                self.slots.push(Slot { key: crate::text::owned(key), value });
                proof {
                    pos = before.len() as int;
                }
            },
        }
        assert(self.slots@[pos].key@ == k);
        assert(forall|j: int| 0 <= j < self.slots@.len() && j != pos ==> self.slots@[j] == before[j]);
        self.model = Ghost(self.model@.insert(k, v));
        assert forall|k2: Seq<char>| self.model@.contains_key(k2) implies exists|i: int|
            0 <= i < self.slots@.len() && #[trigger] self.slots@[i].key@ == k2 by {
            if k2 != k {
                let i = choose|i: int| 0 <= i < before.len() && #[trigger] before[i].key@ == k2;
                assert(self.slots@[i].key@ == k2);
            } else {
                assert(self.slots@[pos].key@ == k2);
            }
        }
    }

    /// Removes what is stored under `key`, and returns it.
    pub fn remove(&mut self, key: &str) -> (r: Option<T>)
        requires
            old(self).wf(),
        ensures
            final(self).wf(),
            final(self)@ == old(self)@.remove(key@),
            r matches Some(v) ==> old(self)@.contains_key(key@) && v@ == old(self)@[key@],
            r is None ==> !old(self)@.contains_key(key@),
    {
        let ghost k = key@;
        match self.index_of(key) {
            Some(i) => {
                let ghost before = self.slots@;
                let slot = self.slots.remove(i);
                self.model = Ghost(self.model@.remove(k));
                assert forall|j: int| 0 <= j < self.slots@.len() implies self.model@.contains_key(
                    #[trigger] self.slots@[j].key@,
                ) && self.model@[self.slots@[j].key@] == self.slots@[j].value@ by {
                    if j < i {
                        assert(self.slots@[j] == before[j]);
                    } else {
                        assert(self.slots@[j] == before[j + 1]);
                    }
                }
                assert forall|k2: Seq<char>| self.model@.contains_key(k2) implies exists|j: int|
                    0 <= j < self.slots@.len() && #[trigger] self.slots@[j].key@ == k2 by {
                    let j = choose|j: int| 0 <= j < before.len() && #[trigger] before[j].key@ == k2;
                    if j < i {
                        assert(self.slots@[j] == before[j]);
                    } else {
                        assert(self.slots@[j - 1] == before[j]);
                    }
                }
                assert forall|a: int, b: int|
                    0 <= a < self.slots@.len() && 0 <= b < self.slots@.len() && a != b
                        implies self.slots@[a].key@ != self.slots@[b].key@ by {
                    let a0 = if a < i { a } else { a + 1 };
                    let b0 = if b < i { b } else { b + 1 };
                    assert(self.slots@[a] == before[a0]);
                    assert(self.slots@[b] == before[b0]);
                }
                Some(slot.value)
            },
            None => {
                assert(self.model@.remove(k) =~= self.model@);
                None
            },
        }
    }

    /// Removes everything.
    pub fn clear(&mut self)
        ensures
            final(self).wf(),
            final(self)@ == Map::<Seq<char>, T::V>::empty(),
    {
        self.slots = Vec::new();
        self.model = Ghost(Map::empty());
    }

    /// Number of identities stored.
    pub fn len(&self) -> (r: usize)
        requires
            self.wf(),
        ensures
            r == self@.len(),
    {
        proof {
            self.lemma_len();
        }
        self.slots.len()
    }

    proof fn lemma_len(&self)
        requires
            self.wf(),
        ensures
            self.slots@.len() == self@.len(),
    {
        let keys = Seq::new(self.slots@.len(), |i: int| self.slots@[i].key@);
        assert(keys.no_duplicates());
        keys.unique_seq_to_set();
        assert(keys.to_set() =~= self.model@.dom()) by {
            assert forall|k: Seq<char>| self.model@.dom().contains(k) implies keys.to_set().contains(k) by {
                let i = choose|i: int| 0 <= i < self.slots@.len() && #[trigger] self.slots@[i].key@ == k;
                assert(keys[i] == k);
            }
            assert forall|k: Seq<char>| keys.to_set().contains(k) implies self.model@.dom().contains(k) by {
                let i = choose|i: int| 0 <= i < keys.len() && keys[i] == k;
                assert(self.slots@[i].key@ == k);
            }
        }
    }

    /// The value in slot `i`, for walks over every stored value.
    pub fn value_at(&self, i: usize) -> (r: &T)
        requires
            self.wf(),
            i < self@.len(),
        ensures
            exists|k: Seq<char>| self@.contains_key(k) && self@[k] == r@,
    {
        proof {
            self.lemma_len();
        }
        let r = &self.slots[i].value;
        assert(self@.contains_key(self.slots@[i as int].key@));
        r
    }
}

} // verus!
