//! A small map keyed by text.
//!
//! `TextMap` keeps its keys in a vector and finds one by comparing texts. Its
//! view is the mathematical map from each key's text to the stored value, and
//! every operation is stated over that map.

use vstd::prelude::*;
use vstd::string::*;

verus! {

/// The texts of a sequence of strings, position by position.
pub open spec fn texts_of(keys: Seq<String>) -> Seq<Seq<char>> {
    Seq::new(keys.len(), |i: int| keys[i]@)
}

/// A map from texts to values of type `V`.
pub struct TextMap<V> {
    keys: Vec<String>,
    values: Vec<V>,
}

impl<V> TextMap<V> {
    /// No text occurs twice among the keys, and each key has its value.
    #[verifier::type_invariant]
    spec fn well_formed(self) -> bool {
        &&& self.keys@.len() == self.values@.len()
        &&& texts_of(self.keys@).no_duplicates()
    }

    /// The position of `key` among the keys, where it occurs.
    spec fn position_of(self, key: Seq<char>) -> int {
        texts_of(self.keys@).index_of(key)
    }

    /// The map that this value stands for.
    pub closed spec fn view(&self) -> Map<Seq<char>, V> {
        Map::new(
            |key: Seq<char>| texts_of(self.keys@).contains(key),
            |key: Seq<char>| self.values@[self.position_of(key)],
        )
    }

    /// At a position within the keys, the view holds that position's value.
    proof fn lemma_view_at(self, i: int)
        requires
            self.well_formed(),
            0 <= i < self.keys@.len(),
        ensures
            self@.contains_key(self.keys@[i]@),
            self@[self.keys@[i]@] == self.values@[i],
            self.position_of(self.keys@[i]@) == i,
    {
        let texts = texts_of(self.keys@);
        assert(texts[i] == self.keys@[i]@);
        assert(texts.contains(self.keys@[i]@));
        let j = texts.index_of(self.keys@[i]@);
        assert(0 <= j < texts.len() && texts[j] == texts[i]);
    }

    /// An empty map.
    pub fn new() -> (r: Self)
        ensures
            r@ == Map::<Seq<char>, V>::empty(),
    {
        let r = TextMap { keys: Vec::new(), values: Vec::new() };
        assert(texts_of(r.keys@) =~= Seq::<Seq<char>>::empty());
        assert(r@ =~= Map::<Seq<char>, V>::empty());
        r
    }

    /// Moves the keys and the values out, leaving an empty map behind.
    fn take_parts(&mut self) -> (r: (Vec<String>, Vec<V>))
        ensures
            r.0 == old(self).keys,
            r.1 == old(self).values,
    {
        let mut taken = TextMap { keys: Vec::new(), values: Vec::new() };
        assert(texts_of(taken.keys@) =~= Seq::<Seq<char>>::empty());
        core::mem::swap(self, &mut taken);
        let TextMap { keys, values } = taken;
        (keys, values)
    }

    /// Where `key` stands among the keys, if it is one of them.
    fn find(&self, key: &String) -> (r: Option<usize>)
        ensures
            match r {
                Some(i) => i < self.keys@.len() && self.keys@[i as int]@ == key@,
                None => !texts_of(self.keys@).contains(key@),
            },
    {
        let mut i: usize = 0;
        while i < self.keys.len()
            invariant
                i <= self.keys@.len(),
                forall|j: int| 0 <= j < i ==> self.keys@[j]@ != key@,
            decreases self.keys@.len() - i,
        {
            if self.keys[i] == *key {
                return Some(i);
            }
            i = i + 1;
        }
        proof {
            let texts = texts_of(self.keys@);
            assert forall|j: int| 0 <= j < texts.len() implies texts[j] != key@ by {
                assert(texts[j] == self.keys@[j]@);
            }
        }
        None
    }

    /// The value stored under `key`, if there is one.
    pub fn get(&self, key: &str) -> (r: Option<&V>)
        ensures
            match r {
                Some(v) => self@.contains_key(key@) && *v == self@[key@],
                None => !self@.contains_key(key@),
            },
    {
        proof {
            use_type_invariant(self);
        }
        let owned = String::from_str(key);
        match self.find(&owned) {
            Some(i) => {
                proof {
                    self.lemma_view_at(i as int);
                }
                Some(&self.values[i])
            },
            None => None,
        }
    }

    /// Stores `value` under `key`, in place of what was stored there before.
    pub fn insert(&mut self, key: &str, value: V)
        ensures
            final(self)@ == old(self)@.insert(key@, value),
    {
        proof {
            use_type_invariant(&*self);
        }
        let owned = String::from_str(key);
        let ghost before = *self;
        match self.find(&owned) {
            Some(i) => {
                let (keys, mut values) = self.take_parts();
                values.set(i, value);
                *self = TextMap { keys, values };
                proof {
                    let after = *self;
                    assert(after.keys@ == before.keys@);
                    assert forall|k: Seq<char>| #[trigger]
                        after@.contains_key(k) == before@.insert(key@, value).contains_key(
                            k,
                        ) by {
                        before.lemma_view_at(i as int);
                    }
                    assert forall|k: Seq<char>| #[trigger] after@.contains_key(k) implies after@[k]
                        == before@.insert(key@, value)[k] by {
                        before.lemma_view_at(i as int);
                        let j = after.position_of(k);
                        if k != key@ {
                            assert(j != i);
                        }
                    }
                    assert(after@ =~= before@.insert(key@, value));
                }
            },
            None => {
                let (mut keys, mut values) = self.take_parts();
                keys.push(owned);
                values.push(value);
                proof {
                    assert(texts_of(keys@) =~= texts_of(before.keys@).push(key@));
                }
                *self = TextMap { keys, values };
                proof {
                    let after = *self;
                    let old_texts = texts_of(before.keys@);
                    let new_texts = texts_of(after.keys@);
                    assert(new_texts =~= old_texts.push(key@));
                    assert(new_texts.no_duplicates());
                    let last = before.keys@.len() as int;
                    after.lemma_view_at(last);
                    assert forall|k: Seq<char>| #[trigger]
                        after@.contains_key(k) == before@.insert(key@, value).contains_key(
                            k,
                        ) by {
                        if old_texts.contains(k) {
                            let j = old_texts.index_of(k);
                            assert(new_texts[j] == k);
                        }
                        if new_texts.contains(k) && k != key@ {
                            let j = new_texts.index_of(k);
                            assert(j < last);
                            assert(old_texts[j] == k);
                        }
                    }
                    assert forall|k: Seq<char>| #[trigger] after@.contains_key(k) implies after@[k]
                        == before@.insert(key@, value)[k] by {
                        if k != key@ {
                            let j = new_texts.index_of(k);
                            assert(j < last);
                            assert(old_texts[j] == k);
                            before.lemma_view_at(j);
                        }
                    }
                    assert(after@ =~= before@.insert(key@, value));
                }
            },
        }
    }

    /// Removes what is stored under `key`, if anything is.
    pub fn remove(&mut self, key: &str)
        ensures
            final(self)@ == old(self)@.remove(key@),
    {
        proof {
            use_type_invariant(&*self);
        }
        let owned = String::from_str(key);
        let ghost before = *self;
        match self.find(&owned) {
            Some(i) => {
                let (mut keys, mut values) = self.take_parts();
                keys.remove(i);
                values.remove(i);
                proof {
                    let old_texts = texts_of(before.keys@);
                    let new_texts = texts_of(keys@);
                    assert(new_texts =~= old_texts.remove(i as int));
                    assert forall|a: int, b: int|
                        0 <= a < new_texts.len() && 0 <= b < new_texts.len() && a
                            != b implies new_texts[a] != new_texts[b] by {
                        let a0 = if a < i { a } else { a + 1 };
                        let b0 = if b < i { b } else { b + 1 };
                        assert(new_texts[a] == old_texts[a0]);
                        assert(new_texts[b] == old_texts[b0]);
                    }
                }
                *self = TextMap { keys, values };
                proof {
                    let after = *self;
                    let old_texts = texts_of(before.keys@);
                    let new_texts = texts_of(after.keys@);
                    assert(new_texts =~= old_texts.remove(i as int));
                    assert(after.values@ == before.values@.remove(i as int));
                    before.lemma_view_at(i as int);
                    assert forall|k: Seq<char>| #[trigger]
                        after@.contains_key(k) == before@.remove(key@).contains_key(k) by {
                        if old_texts.contains(k) && k != key@ {
                            let j = old_texts.index_of(k);
                            let j1 = if j < i { j } else { j - 1 };
                            assert(new_texts[j1] == k);
                        }
                        if new_texts.contains(k) {
                            let j = new_texts.index_of(k);
                            let j0 = if j < i { j } else { j + 1 };
                            assert(old_texts[j0] == k);
                        }
                    }
                    assert forall|k: Seq<char>| #[trigger] after@.contains_key(k) implies after@[k]
                        == before@.remove(key@)[k] by {
                        let j = new_texts.index_of(k);
                        let j0 = if j < i { j } else { j + 1 };
                        assert(old_texts[j0] == k);
                        before.lemma_view_at(j0);
                    }
                    assert(after@ =~= before@.remove(key@));
                }
            },
            None => {
                assert(self@ =~= before@.remove(key@));
            },
        }
    }
}

} // verus!
