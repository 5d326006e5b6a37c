//! A small association table keyed by text.
use vstd::prelude::*;
use crate::text::same_text;

verus! {

/// A finite map from texts to values.
#[derive(Debug, PartialEq, Eq)]
pub struct Table<V> {
    entries: Vec<(String, V)>,
}

impl<V: DeepView> Table<V> {
    /// The keys in the order in which they were first stored.
    pub closed spec fn keys(&self) -> Seq<Seq<char>> {
        Seq::new(self.entries.len() as nat, |i: int| self.entries[i].0@)
    }

    /// The map the table stands for.
    pub closed spec fn view(&self) -> Map<Seq<char>, V::V> {
        Map::new(
            |key: Seq<char>| self.keys().contains(key),
            |key: Seq<char>| self.entries[self.keys().index_of_first(key).unwrap()].1.deep_view(),
        )
    }

    /// The table without entries.
    pub fn new() -> (table: Self)
        ensures
            table@ == Map::<Seq<char>, V::V>::empty(),
    {
        let table = Table { entries: Vec::new() };
        assert(table@ =~= Map::<Seq<char>, V::V>::empty());
        table
    }

    fn find(&self, key: &str) -> (found: Option<usize>)
        ensures
            match found {
                Some(i) => i < self.entries.len() && self.keys().index_of_first(key@) == Some(
                    i as int,
                ),
                None => !self.keys().contains(key@),
            },
    {
        let mut i: usize = 0;
        while i < self.entries.len()
            invariant
                i <= self.entries.len(),
                forall|j: int| 0 <= j < i ==> self.keys()[j] != key@,
            decreases self.entries.len() - i,
        {
            if same_text(self.entries[i].0.as_str(), key) {
                proof {
                    assert(self.keys()[i as int] == key@);
                    self.keys().index_of_first_ensures(key@);
                }
                return Some(i);
            }
            i += 1;
        }
        None
    }

    /// The value stored under `key`, if there is one.
    pub fn get(&self, key: &str) -> (value: Option<&V>)
        ensures
            value.deep_view() == self@.get(key@),
    {
        match self.find(key) {
            Some(i) => {
                proof {
                    self.keys().index_of_first_ensures(key@);
                }
                Some(&self.entries[i].1)
            },
            None => None,
        }
    }

    /// Whether a value is stored under `key`.
    pub fn contains(&self, key: &str) -> (present: bool)
        ensures
            present == self@.contains_key(key@),
    {
        self.get(key).is_some()
    }

    /// The keys are exactly the domain of the map.
    pub proof fn lemma_keys_are_domain(&self)
        ensures
            forall|key: Seq<char>| self.keys().contains(key) <==> self@.contains_key(key),
    {
    }

    /// How many keys the table holds.
    pub fn len(&self) -> (count: usize)
        ensures
            count == self.keys().len(),
    {
        self.entries.len()
    }

    /// Stores `value` under `key`, in place of what was stored there before.
    pub fn insert(&mut self, key: String, value: V)
        ensures
            final(self)@ == old(self)@.insert(key@, value.deep_view()),
            final(self).keys() == if old(self).keys().contains(key@) {
                old(self).keys()
            } else {
                old(self).keys().push(key@)
            },
    {
        let ghost before = *self;
        let ghost wanted = before@.insert(key@, value.deep_view());
        match self.find(key.as_str()) {
            Some(i) => {
                self.entries.set(i, (key, value));
                proof {
                    before.keys().index_of_first_ensures(key@);
                    assert(self.keys() =~= before.keys());
                    assert forall|k: Seq<char>| self@.contains_key(k) implies #[trigger] self@[k]
                        == wanted[k] by {
                        self.keys().index_of_first_ensures(k);
                    }
                    assert(self@ =~= wanted);
                }
            },
            None => {
                self.entries.push((key, value));
                proof {
                    let n = before.entries.len() as int;
                    assert(self.keys() =~= before.keys().push(key@));
                    assert(self.keys()[n] == key@);
                    assert forall|k: Seq<char>| wanted.contains_key(k) implies self@.contains_key(
                        k,
                    ) by {
                        if k != key@ {
                            let at = before.keys().index_of(k);
                            assert(self.keys()[at] == k);
                        }
                    }
                    assert forall|k: Seq<char>| self@.contains_key(k) implies #[trigger] self@[k]
                        == wanted[k] by {
                        self.keys().index_of_first_ensures(k);
                        before.keys().index_of_first_ensures(k);
                        let at = self.keys().index_of_first(k).unwrap();
                        if k != key@ {
                            assert(at != n);
                            assert(before.keys()[at] == k);
                            let was = before.keys().index_of_first(k).unwrap();
                            assert(self.keys()[was] == k);
                            assert(was == at);
                        } else {
                            if at != n {
                                assert(before.keys()[at] == k);
                            }
                        }
                    }
                    assert(self@ =~= wanted);
                }
            },
        }
    }
}

} // verus!
