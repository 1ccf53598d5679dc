//! A map from strings to values, kept as a list of entries with distinct keys.
use crate::text::{first_index, lemma_first_index, lemma_first_index_is, str_equal};
use vstd::prelude::*;

verus! {

/// The keys of the entries, in order.
pub open spec fn keys_of<V>(e: Seq<(String, V)>) -> Seq<Seq<char>> {
    e.map_values(|p: (String, V)| p.0@)
}

/// The value of the first entry with the key, if any.
pub open spec fn lookup<V>(e: Seq<(String, V)>, k: Seq<char>) -> Option<V> {
    match first_index(keys_of(e), k) {
        Some(i) => Some(e[i].1),
        None => None,
    }
}

/// With distinct keys, the value for a key is that of the entry with the key, and there is
/// none when no entry has it.
pub proof fn lemma_lookup<V>(e: Seq<(String, V)>, k: Seq<char>)
    requires
        keys_of(e).no_duplicates(),
    ensures
        forall|i: int| #![trigger e[i]] 0 <= i < e.len() && e[i].0@ == k ==> lookup(e, k) == Some(
            e[i].1,
        ),
        (forall|i: int| #![trigger e[i]] 0 <= i < e.len() ==> e[i].0@ != k) ==> lookup(e, k) is None,
{
    let keys = keys_of(e);
    lemma_first_index(keys, k);
    assert forall|i: int| #![trigger e[i]] 0 <= i < e.len() && e[i].0@ == k implies lookup(e, k)
        == Some(e[i].1) by {
        assert(keys[i] == k);
        let j = first_index(keys, k)->0;
        assert(keys[j] == k);
        if i != j {
            assert(keys[i] == keys[j]);
        }
    }
    if forall|i: int| #![trigger e[i]] 0 <= i < e.len() ==> e[i].0@ != k {
        if first_index(keys, k) is Some {
            let j = first_index(keys, k)->0;
            assert(keys[j] == e[j].0@);
        }
    }
}

/// A map from strings to values.
#[derive(Debug)]
pub struct StringMap<V> {
    pub entries: Vec<(String, V)>,
}

impl<V> StringMap<V> {
    /// No two entries have the same key.
    pub open spec fn wf(&self) -> bool {
        keys_of(self.entries@).no_duplicates()
    }

    /// The value for a key, if any.
    pub open spec fn get_spec(&self, k: Seq<char>) -> Option<V> {
        lookup(self.entries@, k)
    }

    /// An empty map.
    pub fn new() -> (m: StringMap<V>)
        ensures
            m.wf(),
            m.entries@.len() == 0,
            forall|k: Seq<char>| #[trigger] m.get_spec(k) is None,
    {
        let m = StringMap { entries: Vec::new() };
        assert(keys_of(m.entries@) =~= Seq::<Seq<char>>::empty());
        m
    }

    /// The position of the entry with the key, if any.
    pub fn position(&self, k: &str) -> (r: Option<usize>)
        ensures
            match first_index(keys_of(self.entries@), k@) {
                Some(i) => r matches Some(j) && j as int == i && i < self.entries@.len(),
                None => r is None,
            },
    {
        let ghost keys = keys_of(self.entries@);
        let mut i: usize = 0;
        while i < self.entries.len()
            invariant
                keys == keys_of(self.entries@),
                i <= self.entries@.len(),
                forall|j: int| 0 <= j < i ==> keys[j] != k@,
            decreases self.entries@.len() - i,
        {
            if str_equal(self.entries[i].0.as_str(), k) {
                proof {
                    lemma_first_index_is(keys, k@, i as int);
                }
                return Some(i);
            }
            i = i + 1;
        }
        proof {
            lemma_first_index(keys, k@);
            if first_index(keys, k@) is Some {
                let j = first_index(keys, k@)->0;
                assert(keys[j] == k@);
            }
        }
        None
    }

    /// The value for the key, if any.
    pub fn get(&self, k: &str) -> (r: Option<&V>)
        ensures
            match self.get_spec(k@) {
                Some(v) => r matches Some(x) && *x == v,
                None => r is None,
            },
    {
        match self.position(k) {
            Some(i) => {
                proof {
                    lemma_first_index(keys_of(self.entries@), k@);
                }
                Some(&self.entries[i].1)
            },
            None => None,
        }
    }

    /// The number of entries.
    pub fn len(&self) -> (n: usize)
        ensures
            n == self.entries@.len(),
    {
        self.entries.len()
    }

    /// Sets the value for the key, replacing the one it had.
    pub fn insert(&mut self, k: String, v: V)
        requires
            old(self).wf(),
        ensures
            final(self).wf(),
            final(self).get_spec(k@) == Some(v),
            forall|j: Seq<char>| j != k@ ==> #[trigger] final(self).get_spec(j) == old(self).get_spec(j),
    {
        let ghost e = self.entries@;
        let ghost kv = k@;
        match self.position(k.as_str()) {
            Some(i) => {
                proof {
                    lemma_first_index(keys_of(e), kv);
                }
                self.entries.set(i, (k, v));
                proof {
                    let e2 = self.entries@;
                    assert(keys_of(e2) =~= keys_of(e));
                    lemma_lookup(e2, kv);
                    assert(e2[i as int].0@ == kv);
                    assert forall|j: Seq<char>| j != kv implies #[trigger] lookup(e2, j) == lookup(
                        e,
                        j,
                    ) by {
                        lemma_lookup(e, j);
                        lemma_lookup(e2, j);
                        if exists|p: int| 0 <= p < e.len() && e[p].0@ == j {
                            let p = choose|p: int| 0 <= p < e.len() && e[p].0@ == j;
                            assert(e2[p] == e[p]);
                        } else {
                            assert forall|p: int| 0 <= p < e2.len() implies #[trigger] e2[p].0@ != j by {
                                if p != i {
                                    assert(e2[p] == e[p]);
                                }
                            }
                        }
                    }
                }
            },
            None => {
                proof {
                    lemma_first_index(keys_of(e), kv);
                }
                self.entries.push((k, v));
                proof {
                    let e2 = self.entries@;
                    assert(keys_of(e2) =~= keys_of(e).push(kv));
                    assert forall|a: int, b: int|
                        0 <= a < keys_of(e2).len() && 0 <= b < keys_of(e2).len() && a != b implies keys_of(
                        e2,
                    )[a] != keys_of(e2)[b] by {
                        if a < e.len() && b < e.len() {
                            assert(keys_of(e2)[a] == keys_of(e)[a]);
                            assert(keys_of(e2)[b] == keys_of(e)[b]);
                        } else if a < e.len() {
                            assert(keys_of(e2)[a] == keys_of(e)[a]);
                        } else {
                            assert(keys_of(e2)[b] == keys_of(e)[b]);
                        }
                    }
                    lemma_lookup(e2, kv);
                    assert(e2[e.len() as int].0@ == kv);
                    assert forall|j: Seq<char>| j != kv implies #[trigger] lookup(e2, j) == lookup(
                        e,
                        j,
                    ) by {
                        lemma_lookup(e, j);
                        lemma_lookup(e2, j);
                        if exists|p: int| 0 <= p < e.len() && e[p].0@ == j {
                            let p = choose|p: int| 0 <= p < e.len() && e[p].0@ == j;
                            assert(e2[p] == e[p]);
                        } else {
                            assert forall|p: int| 0 <= p < e2.len() implies #[trigger] e2[p].0@ != j by {
                                if p < e.len() {
                                    assert(e2[p] == e[p]);
                                }
                            }
                        }
                    }
                }
            },
        }
    }

    /// Removes the entry with the key and gives its value, if there was one.
    pub fn remove(&mut self, k: &str) -> (r: Option<V>)
        requires
            old(self).wf(),
        ensures
            final(self).wf(),
            r == old(self).get_spec(k@),
            final(self).get_spec(k@) is None,
            r is Some ==> final(self).entries@.len() == old(self).entries@.len() - 1,
            r is None ==> final(self).entries@.len() == old(self).entries@.len(),
            forall|j: Seq<char>| j != k@ ==> #[trigger] final(self).get_spec(j) == old(self).get_spec(j),
    {
        let ghost e = self.entries@;
        proof {
            lemma_first_index(keys_of(e), k@);
            lemma_lookup(e, k@);
        }
        match self.position(k) {
            Some(i) => {
                let (_, v) = self.entries.remove(i);
                proof {
                    let e2 = self.entries@;
                    assert(e2 =~= e.remove(i as int));
                    assert forall|p: int| 0 <= p < e2.len() implies #[trigger] e2[p] == (if p < i {
                        e[p]
                    } else {
                        e[p + 1]
                    }) by {}
                    assert forall|a: int, b: int|
                        0 <= a < keys_of(e2).len() && 0 <= b < keys_of(e2).len() && a != b implies keys_of(
                        e2,
                    )[a] != keys_of(e2)[b] by {
                        let a1 = if a < i { a } else { a + 1 };
                        let b1 = if b < i { b } else { b + 1 };
                        assert(keys_of(e2)[a] == keys_of(e)[a1]);
                        assert(keys_of(e2)[b] == keys_of(e)[b1]);
                    }
                    lemma_lookup(e2, k@);
                    assert forall|p: int| 0 <= p < e2.len() implies #[trigger] e2[p].0@ != k@ by {
                        let p1 = if p < i { p } else { p + 1 };
                        assert(e2[p] == e[p1]);
                        assert(keys_of(e)[p1] == e[p1].0@);
                        assert(keys_of(e)[i as int] == e[i as int].0@);
                    }
                    assert forall|j: Seq<char>| j != k@ implies #[trigger] lookup(e2, j) == lookup(
                        e,
                        j,
                    ) by {
                        lemma_lookup(e, j);
                        lemma_lookup(e2, j);
                        if exists|p: int| 0 <= p < e.len() && e[p].0@ == j {
                            let p = choose|p: int| 0 <= p < e.len() && e[p].0@ == j;
                            assert(p != i);
                            let p2 = if p < i { p } else { p - 1 };
                            assert(e2[p2] == e[p]);
                        } else {
                            assert forall|p: int| 0 <= p < e2.len() implies #[trigger] e2[p].0@ != j by {
                                let p1 = if p < i { p } else { p + 1 };
                                assert(e2[p] == e[p1]);
                            }
                        }
                    }
                }
                Some(v)
            },
            None => None,
        }
    }
}

} // verus!
