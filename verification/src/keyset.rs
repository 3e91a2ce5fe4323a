//! A set of texts.

use vstd::prelude::*;

use crate::text::texts;

verus! {

/// A set of texts, kept as a list without repetitions.
#[derive(Debug)]
pub struct KeySet {
    pub items: Vec<String>,
}

impl KeySet {
    /// No text occurs twice.
    pub closed spec fn wf(&self) -> bool {
        texts(self.items@).no_duplicates()
    }

    /// The texts in the set.
    pub closed spec fn view(&self) -> Set<Seq<char>> {
        texts(self.items@).to_set()
    }

    /// The empty set.
    pub fn new() -> (r: KeySet)
        ensures
            r.wf(),
            r@ == Set::<Seq<char>>::empty(),
    {
        let r = KeySet { items: Vec::new() };
        assert(r@ =~= Set::<Seq<char>>::empty());
        r
    }

    fn position(&self, key: &String) -> (r: Option<usize>)
        ensures
            match r {
                Some(i) => i < self.items.len() && self.items@[i as int]@ == key@ && self@.contains(
                    key@,
                ),
                None => !self@.contains(key@),
            },
    {
        let mut i: usize = 0;
        while i < self.items.len()
            invariant
                0 <= i <= self.items.len(),
                forall|j: int| 0 <= j < i ==> (#[trigger] self.items@[j])@ != key@,
            decreases self.items.len() - i,
        {
            if self.items[i] == *key {
                proof {
                    assert(texts(self.items@)[i as int] == key@);
                }
                return Some(i);
            }
            i = i + 1;
        }
        proof {
            let t = texts(self.items@);
            assert forall|j: int| 0 <= j < t.len() implies #[trigger] t[j] != key@ by {
                assert(t[j] == self.items@[j]@);
            }
        }
        None
    }

    /// Whether a text is in the set.
    pub fn contains(&self, key: &String) -> (r: bool)
        ensures
            r == self@.contains(key@),
    {
        self.position(key).is_some()
    }

    /// Adds a text.
    pub fn insert(&mut self, key: String)
        requires
            old(self).wf(),
        ensures
            final(self).wf(),
            final(self)@ == old(self)@.insert(key@),
    {
        let ghost before = texts(self.items@);
        if self.contains(&key) {
            assert(self@ =~= old(self)@.insert(key@));
            return;
        }
        let ghost k = key@;
        self.items.push(key);
        proof {
            let after = texts(self.items@);
            assert(after =~= before.push(k));
            assert forall|i: int, j: int| 0 <= i < after.len() && 0 <= j < after.len() && i != j implies after[i]
                != after[j] by {
                if i == before.len() {
                    assert(before.to_set().contains(before[j]));
                } else if j == before.len() {
                    assert(before.to_set().contains(before[i]));
                } else {
                    assert(before[i] != before[j]);
                }
            }
            assert(after.to_set() =~= before.to_set().insert(k)) by {
                assert forall|x: Seq<char>| after.to_set().contains(x) == before.to_set().insert(k).contains(x) by {
                    if before.contains(x) {
                        let i = choose|i: int| 0 <= i < before.len() && before[i] == x;
                        assert(after[i] == x);
                    }
                    if x == k {
                        assert(after[before.len() as int] == x);
                    }
                    if after.contains(x) {
                        let i = choose|i: int| 0 <= i < after.len() && after[i] == x;
                        if i < before.len() {
                            assert(before[i] == x);
                        }
                    }
                }
            }
        }
    }

    /// Takes a text out.
    pub fn remove(&mut self, key: &String)
        requires
            old(self).wf(),
        ensures
            final(self).wf(),
            final(self)@ == old(self)@.remove(key@),
    {
        let ghost before = texts(self.items@);
        match self.position(key) {
            Some(i) => {
                let _ = self.items.remove(i);
                proof {
                    let after = texts(self.items@);
                    assert(after =~= before.remove(i as int));
                    assert forall|a: int, b: int| 0 <= a < after.len() && 0 <= b < after.len() && a != b implies after[a]
                        != after[b] by {
                        let a0 = if a < i { a } else { a + 1 };
                        let b0 = if b < i { b } else { b + 1 };
                        assert(before[a0] != before[b0]);
                    }
                    assert(after.to_set() =~= before.to_set().remove(key@)) by {
                        assert forall|x: Seq<char>| after.to_set().contains(x) == before.to_set().remove(key@).contains(x) by {
                            if after.contains(x) {
                                let a = choose|a: int| 0 <= a < after.len() && after[a] == x;
                                let a0 = if a < i { a } else { a + 1 };
                                assert(before[a0] == x);
                                assert(before[a0] != before[i as int]);
                            }
                            if before.contains(x) && x != key@ {
                                let a = choose|a: int| 0 <= a < before.len() && before[a] == x;
                                let a1 = if a < i { a } else { a - 1 };
                                assert(after[a1] == x);
                            }
                        }
                    }
                }
            },
            None => {
                assert(self@ =~= old(self)@.remove(key@));
            },
        }
    }

    /// Empties the set.
    pub fn clear(&mut self)
        ensures
            final(self).wf(),
            final(self)@ == Set::<Seq<char>>::empty(),
    {
        self.items.clear();
        assert(self@ =~= Set::<Seq<char>>::empty());
    }

    /// Number of texts.
    pub fn len(&self) -> (r: usize)
        requires
            self.wf(),
        ensures
            r == self@.len(),
    {
        proof {
            texts(self.items@).unique_seq_to_set();
        }
        self.items.len()
    }

    /// Whether the set is empty.
    pub fn is_empty(&self) -> (r: bool)
        ensures
            r == (self@ == Set::<Seq<char>>::empty()),
    {
        proof {
            if self.items@.len() == 0 {
                assert(self@ =~= Set::<Seq<char>>::empty());
            } else {
                assert(texts(self.items@)[0] == self.items@[0]@);
                assert(self@.contains(self.items@[0]@));
            }
        }
        self.items.len() == 0
    }
}

impl Default for KeySet {
    fn default() -> (r: Self)
        ensures
            r.wf(),
            r@ == Set::<Seq<char>>::empty(),
    {
        KeySet::new()
    }
}

} // verus!
