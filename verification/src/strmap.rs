//! A small map keyed by text that remembers insertion order.
//!
//! The version files of the game describe string-keyed objects (native
//! classifiers, download variants, feature flags, placeholder values). This
//! map holds them with distinct keys; its view is a `Map` and its entries
//! keep the order in which keys were first inserted.
use vstd::prelude::*;

verus! {

#[derive(Debug)]
pub struct StrMap<V> {
    entries: Vec<(String, V)>,
}

/// The entries of a vector of pairs, keys taken by their character view.
pub open spec fn pair_views<V>(e: Seq<(String, V)>) -> Seq<(Seq<char>, V)> {
    e.map_values(|p: (String, V)| (p.0@, p.1))
}

/// No key occurs twice.
pub open spec fn distinct_keys<V>(e: Seq<(Seq<char>, V)>) -> bool {
    forall|i: int, j: int| 0 <= i < e.len() && 0 <= j < e.len() && i != j ==> (#[trigger] e[i]).0 != (#[trigger] e[j]).0
}

/// Does some entry carry the key `k`?
pub open spec fn has_key<V>(e: Seq<(Seq<char>, V)>, k: Seq<char>) -> bool {
    exists|i: int| 0 <= i < e.len() && (#[trigger] e[i]).0 == k
}

/// The map described by a list of entries with distinct keys.
pub open spec fn map_of<V>(e: Seq<(Seq<char>, V)>) -> Map<Seq<char>, V> {
    Map::new(
        |k: Seq<char>| has_key(e, k),
        |k: Seq<char>| e[choose|i: int| 0 <= i < e.len() && (#[trigger] e[i]).0 == k].1,
    )
}

/// With distinct keys, the entry at `i` is what the map gives for its key.
pub proof fn lemma_map_of_entry<V>(e: Seq<(Seq<char>, V)>, i: int)
    requires
        distinct_keys(e),
        0 <= i < e.len(),
    ensures
        map_of(e).dom().contains(e[i].0),
        map_of(e)[e[i].0] == e[i].1,
{
    let k = e[i].0;
    assert(has_key(e, k));
    let j = choose|j: int| 0 <= j < e.len() && (#[trigger] e[j]).0 == k;
    assert(j == i);
}

impl<V> StrMap<V> {
    #[verifier::type_invariant]
    spec fn keys_distinct(&self) -> bool {
        distinct_keys(pair_views(self.entries@))
    }

    /// Entries in insertion order, keys by their character view.
    pub closed spec fn entries_view(&self) -> Seq<(Seq<char>, V)> {
        pair_views(self.entries@)
    }

    /// An empty map.
    pub fn new() -> (m: Self)
        ensures
            m.entries_view() == Seq::<(Seq<char>, V)>::empty(),
            m@ == Map::<Seq<char>, V>::empty(),
    {
        let m = StrMap { entries: Vec::new() };
        assert(pair_views(m.entries@) =~= Seq::<(Seq<char>, V)>::empty());
        assert(map_of(pair_views(m.entries@)) =~= Map::<Seq<char>, V>::empty());
        m
    }

    /// Number of entries (the keys are distinct).
    pub fn len(&self) -> (n: usize)
        ensures
            n == self.entries_view().len(),
            distinct_keys(self.entries_view()),
    {
        proof {
            use_type_invariant(self);
        }
        self.entries.len()
    }

    /// Key of the `i`-th entry.
    pub fn key_at(&self, i: usize) -> (k: &String)
        requires
            i < self.entries_view().len(),
        ensures
            k@ == self.entries_view()[i as int].0,
    {
        &self.entries[i].0
    }

    /// Value of the `i`-th entry.
    pub fn value_at(&self, i: usize) -> (v: &V)
        requires
            i < self.entries_view().len(),
        ensures
            *v == self.entries_view()[i as int].1,
    {
        &self.entries[i].1
    }

    /// Position of `key` among the entries.
    pub fn position(&self, key: &str) -> (r: Option<usize>)
        ensures
            r matches Some(i) ==> i < self.entries_view().len() && self.entries_view()[i as int].0
                == key@,
            r is None ==> !has_key(self.entries_view(), key@),
    {
        let mut i: usize = 0;
        while i < self.entries.len()
            invariant
                i <= self.entries@.len(),
                forall|j: int| 0 <= j < i ==> (#[trigger] pair_views(self.entries@)[j]).0 != key@,
            decreases self.entries@.len() - i,
        {
            if crate::text::str_eq(self.entries[i].0.as_str(), key) {
                return Some(i);
            }
            i += 1;
        }
        None
    }

    /// The value stored under `key`, if any.
    pub fn get(&self, key: &str) -> (r: Option<&V>)
        ensures
            r is Some <==> self@.dom().contains(key@),
            r matches Some(v) ==> *v == self@[key@],
    {
        proof {
            use_type_invariant(self);
        }
        match self.position(key) {
            Some(i) => {
                proof {
                    lemma_map_of_entry(pair_views(self.entries@), i as int);
                }
                Some(&self.entries[i].1)
            },
            None => None,
        }
    }

    /// Stores `value` under `key`: an existing entry keeps its place and gets
    /// the new value, a new key goes at the end.
    pub fn insert(&mut self, key: String, value: V)
        ensures
            final(self)@ == old(self)@.insert(key@, value),
            has_key(old(self).entries_view(), key@) ==> exists|i: int|
                0 <= i < old(self).entries_view().len() && old(self).entries_view()[i].0 == key@
                    && final(self).entries_view() == old(self).entries_view().update(
                    i,
                    (key@, value),
                ),
            !has_key(old(self).entries_view(), key@) ==> final(self).entries_view() == old(
                self,
            ).entries_view().push((key@, value)),
    {
        proof {
            use_type_invariant(&*self);
        }
        let ghost old_e = pair_views(self.entries@);
        match self.position(key.as_str()) {
            Some(i) => {
                let ghost k = key@;
                let mut e: Vec<(String, V)> = Vec::new();
                std::mem::swap(&mut e, &mut self.entries);
                e.set(i, (key, value));
                assert(distinct_keys(pair_views(e@))) by {
                    assert(pair_views(e@) =~= old_e.update(i as int, (k, value)));
                }
                self.entries = e;
                proof {
                    let e = pair_views(self.entries@);
                    assert(e =~= old_e.update(i as int, (k, value)));
                    assert(distinct_keys(e));
                    assert(map_of(e) =~= map_of(old_e).insert(k, value)) by {
                        assert(has_key(old_e, k)) by {
                            assert(old_e[i as int].0 == k);
                        }
                        assert forall|x: Seq<char>| #[trigger] has_key(e, x) == has_key(old_e, x) by {
                            if has_key(old_e, x) {
                                let j = choose|j: int| 0 <= j < old_e.len() && (#[trigger] old_e[j]).0 == x;
                                if j == i {
                                    assert(e[i as int].0 == x);
                                } else {
                                    assert(e[j].0 == x);
                                }
                            }
                            if has_key(e, x) {
                                let j = choose|j: int| 0 <= j < e.len() && (#[trigger] e[j]).0 == x;
                                if j != i {
                                    assert(old_e[j].0 == x);
                                } else {
                                    assert(old_e[i as int].0 == x);
                                }
                            }
                        }
                        assert forall|x: Seq<char>| #[trigger] map_of(e).dom().contains(x) implies map_of(e)[x]
                            == map_of(old_e).insert(k, value)[x] by {
                            let j = choose|j: int| 0 <= j < e.len() && (#[trigger] e[j]).0 == x;
                            lemma_map_of_entry(e, j);
                            if j != i {
                                lemma_map_of_entry(old_e, j);
                            }
                        }
                    }
                }
            },
            None => {
                let ghost k = key@;
                let mut e: Vec<(String, V)> = Vec::new();
                std::mem::swap(&mut e, &mut self.entries);
                e.push((key, value));
                assert(distinct_keys(pair_views(e@))) by {
                    assert(pair_views(e@) =~= old_e.push((k, value)));
                }
                self.entries = e;
                proof {
                    let e = pair_views(self.entries@);
                    assert(e =~= old_e.push((k, value)));
                    assert(distinct_keys(e));
                    assert(map_of(e) =~= map_of(old_e).insert(k, value)) by {
                        assert forall|x: Seq<char>| #[trigger] has_key(e, x) == (has_key(old_e, x) || x == k) by {
                            if has_key(old_e, x) {
                                let j = choose|j: int| 0 <= j < old_e.len() && (#[trigger] old_e[j]).0 == x;
                                assert(e[j].0 == x);
                            }
                            if x == k {
                                assert(e[old_e.len() as int].0 == x);
                            }
                            if has_key(e, x) {
                                let j = choose|j: int| 0 <= j < e.len() && (#[trigger] e[j]).0 == x;
                                if j < old_e.len() {
                                    assert(old_e[j].0 == x);
                                }
                            }
                        }
                        assert forall|x: Seq<char>| #[trigger] map_of(e).dom().contains(x) implies map_of(e)[x]
                            == map_of(old_e).insert(k, value)[x] by {
                            let j = choose|j: int| 0 <= j < e.len() && (#[trigger] e[j]).0 == x;
                            lemma_map_of_entry(e, j);
                            if j < old_e.len() {
                                lemma_map_of_entry(old_e, j);
                            }
                        }
                    }
                }
            },
        }
    }
}

impl<V> View for StrMap<V> {
    type V = Map<Seq<char>, V>;

    open spec fn view(&self) -> Map<Seq<char>, V> {
        map_of(self.entries_view())
    }
}

} // verus!
