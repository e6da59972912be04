//! A map from strings to values that keeps its entries in the order in which
//! their keys were first inserted.

use vstd::prelude::*;

verus! {

/// A finite map keyed by strings. No key occurs twice; the entries keep the
/// order in which their keys were first inserted.
#[derive(Debug)]
pub struct StringMap<V> {
    keys: Vec<String>,
    values: Vec<V>,
}

/// The keys of `keys`, as texts.
pub open spec fn key_texts(keys: Seq<String>) -> Seq<Seq<char>> {
    Seq::new(keys.len(), |i: int| keys[i]@)
}

/// The place of `key` among `keys`, if it is one of them.
pub closed spec fn position_of(keys: Seq<Seq<char>>, key: Seq<char>) -> int {
    choose|i: int| 0 <= i < keys.len() && keys[i] == key
}

proof fn lemma_position_of(keys: Seq<Seq<char>>, i: int)
    requires
        0 <= i < keys.len(),
        keys.no_duplicates(),
    ensures
        position_of(keys, keys[i]) == i,
{
    let j = position_of(keys, keys[i]);
    assert(0 <= j < keys.len() && keys[j] == keys[i]);
}

impl<V: View> View for StringMap<V> {
    type V = Map<Seq<char>, V::V>;

    closed spec fn view(&self) -> Map<Seq<char>, V::V> {
        let keys = key_texts(self.keys@);
        Map::new(
            |k: Seq<char>| keys.contains(k),
            |k: Seq<char>| self.values@[position_of(keys, k)]@,
        )
    }
}

impl<V> StringMap<V> {
    #[verifier::type_invariant]
    spec fn well_formed(self) -> bool {
        &&& self.keys@.len() == self.values@.len()
        &&& key_texts(self.keys@).no_duplicates()
    }

    /// The keys in insertion order.
    pub closed spec fn key_order(self) -> Seq<Seq<char>> {
        key_texts(self.keys@)
    }
}

impl<V: View> StringMap<V> {

    /// The empty map.
    pub fn new() -> (m: Self)
        ensures
            m@ == Map::<Seq<char>, V::V>::empty(),
            m.key_order() == Seq::<Seq<char>>::empty(),
    {
        let m = StringMap { keys: Vec::new(), values: Vec::new() };
        assert(m@ =~= Map::<Seq<char>, V::V>::empty());
        assert(m.key_order() =~= Seq::<Seq<char>>::empty());
        m
    }

    /// The number of entries.
    pub fn len(&self) -> (n: usize)
        ensures
            n == self@.len(),
            n == self.key_order().len(),
            self@.dom().finite(),
            self.key_order().no_duplicates(),
            self.key_order().to_set() == self@.dom(),
    {
        proof {
            use_type_invariant(self);
            let keys = key_texts(self.keys@);
            assert(keys.to_set() =~= self@.dom());
            vstd::seq_lib::seq_to_set_is_finite(keys);
            keys.unique_seq_to_set();
        }
        self.keys.len()
    }

    fn find(&self, key: &str) -> (at: Option<usize>)
        ensures
            match at {
                Some(i) => i < self.keys@.len() && self.keys@[i as int]@ == key@,
                None => !key_texts(self.keys@).contains(key@),
            },
    {
        let mut i: usize = 0;
        while i < self.keys.len()
            invariant
                i <= self.keys@.len(),
                forall|j: int| 0 <= j < i ==> self.keys@[j]@ != key@,
            decreases self.keys@.len() - i,
        {
            if crate::text::same_text(self.keys[i].as_str(), key) {
                return Some(i);
            }
            i += 1;
        }
        None
    }

    /// Whether the map has an entry for `key`.
    pub fn contains_key(&self, key: &str) -> (b: bool)
        ensures
            b == self@.contains_key(key@),
    {
        match self.find(key) {
            Some(i) => {
                assert(key_texts(self.keys@)[i as int] == key@);
                true
            },
            None => false,
        }
    }

    /// The value stored for `key`, if there is one.
    pub fn get(&self, key: &str) -> (value: Option<&V>)
        ensures
            match value {
                Some(v) => self@.contains_key(key@) && v@ == self@[key@],
                None => !self@.contains_key(key@),
            },
    {
        proof {
            use_type_invariant(self);
        }
        match self.find(key) {
            Some(i) => {
                proof {
                    let keys = key_texts(self.keys@);
                    assert(keys[i as int] == key@);
                    lemma_position_of(keys, i as int);
                }
                Some(&self.values[i])
            },
            None => None,
        }
    }

    /// Stores `value` for `key`, in place of the value that `key` had, if any.
    pub fn insert(&mut self, key: String, value: V)
        ensures
            final(self)@ == old(self)@.insert(key@, value@),
            final(self).key_order() == if old(self)@.contains_key(key@) {
                old(self).key_order()
            } else {
                old(self).key_order().push(key@)
            },
    {
        proof {
            use_type_invariant(&*self);
        }
        let ghost before = *self;
        let ghost old_keys = key_texts(self.keys@);
        let found = self.find(key.as_str());
        let mut taken = StringMap { keys: Vec::new(), values: Vec::new() };
        assert(key_texts(taken.keys@) =~= Seq::<Seq<char>>::empty());
        core::mem::swap(self, &mut taken);
        let StringMap { mut keys, mut values } = taken;
        match found {
            Some(i) => {
                values[i] = value;
                assert(key_texts(keys@) =~= old_keys);
                *self = StringMap { keys, values };
                proof {
                    let keys = key_texts(self.keys@);
                    assert(keys =~= old_keys);
                    lemma_position_of(keys, i as int);
                    assert forall|k: Seq<char>| keys.contains(k) implies #[trigger] self@[k]
                        == before@.insert(key@, value@)[k] by {
                        let p = position_of(keys, k);
                        assert(0 <= p < keys.len() && keys[p] == k);
                    }
                    assert(self@ =~= before@.insert(key@, value@));
                }
            },
            None => {
                keys.push(key);
                values.push(value);
                assert(key_texts(keys@) =~= old_keys.push(key@));
                *self = StringMap { keys, values };
                proof {
                    let keys = key_texts(self.keys@);
                    assert(keys =~= old_keys.push(key@));
                    assert(keys.no_duplicates());
                    lemma_position_of(keys, keys.len() - 1);
                    assert forall|k: Seq<char>| keys.contains(k) implies #[trigger] self@[k]
                        == before@.insert(key@, value@)[k] by {
                        let p = position_of(keys, k);
                        assert(0 <= p < keys.len() && keys[p] == k);
                        if k != key@ {
                            assert(p < old_keys.len());
                            assert(old_keys[p] == k);
                            lemma_position_of(old_keys, p);
                        } else {
                            lemma_position_of(keys, keys.len() - 1);
                        }
                    }
                    assert forall|k: Seq<char>| self@.dom().contains(k) <==> before@.insert(
                        key@,
                        value@,
                    ).dom().contains(k) by {
                        if keys.contains(k) {
                            let p = choose|p: int| 0 <= p < keys.len() && keys[p] == k;
                            if p < old_keys.len() {
                                assert(old_keys[p] == k);
                            }
                        }
                        if old_keys.contains(k) {
                            let p = choose|p: int| 0 <= p < old_keys.len() && old_keys[p] == k;
                            assert(keys[p] == k);
                        }
                        if k == key@ {
                            assert(keys[keys.len() - 1] == k);
                        }
                    }
                    assert(self@ =~= before@.insert(key@, value@));
                }
            },
        }
    }

    /// The key of the entry at place `i` of the insertion order.
    pub fn key_at(&self, i: usize) -> (key: &String)
        requires
            i < self.key_order().len(),
        ensures
            key@ == self.key_order()[i as int],
    {
        &self.keys[i]
    }

    /// The value of the entry at place `i` of the insertion order.
    pub fn value_at(&self, i: usize) -> (value: &V)
        requires
            i < self.key_order().len(),
        ensures
            self@.contains_key(self.key_order()[i as int]),
            value@ == self@[self.key_order()[i as int]],
    {
        proof {
            use_type_invariant(self);
            let keys = key_texts(self.keys@);
            lemma_position_of(keys, i as int);
            assert(keys.contains(keys[i as int]));
        }
        &self.values[i]
    }
}

} // verus!
