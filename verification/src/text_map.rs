//! A map keyed by text, in which no key occurs twice.
use vstd::prelude::*;

use crate::text::same_text;

verus! {

/// A map from text to values of type `V`.
#[derive(Debug)]
pub struct TextMap<V> {
    items: Vec<(String, V)>,
}

/// The position of a key in a list of entries.
spec fn position<V>(items: Seq<(String, V)>, key: Seq<char>) -> int {
    choose|i: int| 0 <= i < items.len() && (#[trigger] items[i]).0@ == key
}

/// Whether a key occurs in a list of entries.
spec fn has_key<V>(items: Seq<(String, V)>, key: Seq<char>) -> bool {
    exists|i: int| 0 <= i < items.len() && (#[trigger] items[i]).0@ == key
}

/// Whether every key of a list of entries occurs once.
pub open spec fn distinct_keys<V>(items: Seq<(String, V)>) -> bool {
    forall|i: int, j: int|
        0 <= i < items.len() && 0 <= j < items.len() && (#[trigger] items[i]).0@ == (
        #[trigger] items[j]).0@ ==> i == j
}

spec fn map_of<V>(items: Seq<(String, V)>) -> Map<Seq<char>, V> {
    Map::new(|key: Seq<char>| has_key(items, key), |key: Seq<char>| items[position(items, key)].1)
}

proof fn lemma_entry_in_map<V>(items: Seq<(String, V)>, i: int)
    requires
        distinct_keys(items),
        0 <= i < items.len(),
    ensures
        map_of(items).dom().contains(items[i].0@),
        map_of(items)[items[i].0@] == items[i].1,
{
    assert(has_key(items, items[i].0@));
    assert(position(items, items[i].0@) == i);
}

proof fn lemma_key_count<V>(items: Seq<(String, V)>)
    requires
        distinct_keys(items),
    ensures
        map_of(items).dom().finite(),
        map_of(items).dom().len() == items.len(),
{
    let keys = items.map_values(|entry: (String, V)| entry.0@);
    assert(keys.no_duplicates()) by {
        assert forall|i: int, j: int| 0 <= i < keys.len() && 0 <= j < keys.len() && i != j implies
            keys[i] != keys[j] by {
            assert(keys[i] == items[i].0@ && keys[j] == items[j].0@);
        }
    }
    keys.unique_seq_to_set();
    assert(map_of(items).dom() =~= keys.to_set()) by {
        assert forall|key: Seq<char>| keys.to_set().contains(key) implies has_key(items, key) by {
            let i = choose|i: int| 0 <= i < keys.len() && keys[i] == key;
            assert(items[i].0@ == key);
        }
        assert forall|key: Seq<char>| has_key(items, key) implies keys.to_set().contains(key) by {
            let i = position(items, key);
            assert(keys[i] == key);
        }
    }
}

impl<V> View for TextMap<V> {
    type V = Map<Seq<char>, V>;

    closed spec fn view(&self) -> Map<Seq<char>, V> {
        map_of(self.items@)
    }
}

impl<V> TextMap<V> {
    /// No key occurs twice.
    pub closed spec fn wf(&self) -> bool {
        distinct_keys(self.items@)
    }

    pub fn new() -> (r: Self)
        ensures
            r.wf(),
            r@ == Map::<Seq<char>, V>::empty(),
    {
        let r = TextMap { items: Vec::new() };
        proof {
            assert(r@ =~= Map::<Seq<char>, V>::empty());
        }
        r
    }

    fn find(&self, key: &str) -> (r: Option<usize>)
        ensures
            r is None <==> !has_key(self.items@, key@),
            r matches Some(i) ==> i < self.items@.len() && self.items@[i as int].0@ == key@,
    {
        let mut i: usize = 0;
        while i < self.items.len()
            invariant
                i <= self.items@.len(),
                forall|j: int| 0 <= j < i ==> (#[trigger] self.items@[j]).0@ != key@,
            decreases self.items@.len() - i,
        {
            if same_text(self.items[i].0.as_str(), key) {
                return Some(i);
            }
            i = i + 1;
        }
        None
    }

    pub fn len(&self) -> (r: usize)
        requires
            self.wf(),
        ensures
            r == self@.len(),
            self@.dom().finite(),
    {
        proof {
            lemma_key_count(self.items@);
        }
        self.items.len()
    }

    pub fn contains_key(&self, key: &str) -> (r: bool)
        ensures
            r == self@.dom().contains(key@),
    {
        self.find(key).is_some()
    }

    pub fn get(&self, key: &str) -> (r: Option<&V>)
        requires
            self.wf(),
        ensures
            r is Some <==> self@.dom().contains(key@),
            r matches Some(v) ==> *v == self@[key@],
    {
        match self.find(key) {
            Some(i) => {
                proof {
                            lemma_entry_in_map(self.items@, i as int);
                }
                Some(&self.items[i].1)
            },
            None => None,
        }
    }

    /// Removes the entry of a key and returns its value.
    pub fn remove(&mut self, key: &str) -> (r: Option<V>)
        requires
            old(self).wf(),
        ensures
            final(self).wf(),
            r is Some <==> old(self)@.dom().contains(key@),
            r matches Some(v) ==> v == old(self)@[key@],
            final(self)@ == old(self)@.remove(key@),
    {
        match self.find(key) {
            Some(i) => {
                let ghost before = self.items@;
                proof {
                    lemma_entry_in_map(before, i as int);
                }
                let (_, value) = self.items.swap_remove(i);
                proof {
                    let after = self.items@;
                    let last = before.len() - 1;
                    assert(distinct_keys(after));
                    assert(map_of(after) =~= map_of(before).remove(key@)) by {
                        assert forall|k: Seq<char>| has_key(after, k) <==> has_key(before, k) && k
                            != key@ by {
                            if has_key(after, k) {
                                let j = position(after, k);
                                let source = if j == i as int {
                                    last
                                } else {
                                    j
                                };
                                assert(before[source] == after[j]);
                            }
                            if has_key(before, k) && k != key@ {
                                let j = position(before, k);
                                let target = if j == last {
                                    i as int
                                } else {
                                    j
                                };
                                assert(after[target] == before[j]);
                            }
                        }
                        assert forall|k: Seq<char>| has_key(after, k) implies map_of(after)[k]
                            == map_of(before)[k] by {
                            let j = position(after, k);
                            let source = if j == i as int {
                                last
                            } else {
                                j
                            };
                            assert(before[source] == after[j]);
                            lemma_entry_in_map(before, source);
                            lemma_entry_in_map(after, j);
                        }
                    }
                }
                Some(value)
            },
            None => {
                proof {
                    assert(self@.remove(key@) =~= self@);
                }
                None
            },
        }
    }

    /// Sets the value of a key.
    pub fn insert(&mut self, key: &str, value: V)
        requires
            old(self).wf(),
        ensures
            final(self).wf(),
            final(self)@ == old(self)@.insert(key@, value),
    {
        let _ = self.remove(key);
        let ghost before = self.items@;
        assert(!map_of(before).dom().contains(key@));
        self.items.push((key.to_owned(), value));
        proof {
            let after = self.items@;
            assert(!has_key(before, key@));
            assert(after[before.len() as int] == (after[before.len() as int].0, value));
            assert forall|j: int| 0 <= j < before.len() implies after[j] == before[j] by {}
            assert(distinct_keys(after)) by {
                assert forall|i: int, j: int|
                    0 <= i < after.len() && 0 <= j < after.len() && (#[trigger] after[i]).0@ == (
                    #[trigger] after[j]).0@ implies i == j by {
                    if i < before.len() && j < before.len() {
                        assert(before[i].0@ == before[j].0@);
                    } else if i < before.len() {
                        assert(before[i].0@ == key@);
                    } else if j < before.len() {
                        assert(before[j].0@ == key@);
                    }
                }
            }
            assert(map_of(after) =~= map_of(before).insert(key@, value)) by {
                assert forall|k: Seq<char>| has_key(after, k) <==> has_key(before, k) || k == key@ by {
                    if has_key(after, k) {
                        let j = position(after, k);
                        if j < before.len() {
                            assert(before[j] == after[j]);
                        }
                    }
                    if has_key(before, k) {
                        let j = position(before, k);
                        assert(after[j] == before[j]);
                    }
                    if k == key@ {
                        assert(after[before.len() as int].0@ == k);
                    }
                }
                assert forall|k: Seq<char>| has_key(after, k) implies map_of(after)[k] == map_of(
                    before,
                ).insert(key@, value)[k] by {
                    let j = position(after, k);
                    lemma_entry_in_map(after, j);
                    if j < before.len() {
                        assert(before[j] == after[j]);
                        lemma_entry_in_map(before, j);
                    }
                }
            }
        }
    }

    /// The keys, each once.
    pub fn keys(&self) -> (r: Vec<String>)
        requires
            self.wf(),
        ensures
            forall|i: int, j: int|
                0 <= i < r@.len() && 0 <= j < r@.len() && (#[trigger] r@[i])@ == (
                #[trigger] r@[j])@ ==> i == j,
            forall|i: int| 0 <= i < r@.len() ==> self@.dom().contains((#[trigger] r@[i])@),
            forall|key: Seq<char>| #[trigger]
                self@.dom().contains(key) ==> exists|i: int|
                    0 <= i < r@.len() && (#[trigger] r@[i])@ == key,
    {
        let mut out: Vec<String> = Vec::new();
        let mut i: usize = 0;
        while i < self.items.len()
            invariant
                i <= self.items@.len(),
                out@.len() == i,
                forall|j: int| 0 <= j < i ==> (#[trigger] out@[j])@ == self.items@[j].0@,
            decreases self.items@.len() - i,
        {
            out.push(self.items[i].0.clone());
            i = i + 1;
        }
        proof {
            assert forall|a: int, b: int|
                0 <= a < out@.len() && 0 <= b < out@.len() && (#[trigger] out@[a])@ == (
                #[trigger] out@[b])@ implies a == b by {
                assert(self.items@[a].0@ == self.items@[b].0@);
            }
            assert forall|a: int| 0 <= a < out@.len() implies self@.dom().contains(
                (#[trigger] out@[a])@,
            ) by {
                lemma_entry_in_map(self.items@, a);
            }
            assert forall|key: Seq<char>| #[trigger] self@.dom().contains(key) implies exists|a: int|
                0 <= a < out@.len() && (#[trigger] out@[a])@ == key by {
                assert(out@[position(self.items@, key)]@ == key);
            }
        }
        out
    }

    /// Empties the map and hands out its entries, each once.
    pub fn drain(&mut self) -> (r: Vec<(String, V)>)
        requires
            old(self).wf(),
        ensures
            final(self).wf(),
            final(self)@ == Map::<Seq<char>, V>::empty(),
            distinct_keys(r@),
            r@.len() == old(self)@.len(),
            forall|i: int| #![trigger r@[i]]
                0 <= i < r@.len() ==> old(self)@.dom().contains(r@[i].0@) && old(self)@[r@[i].0@]
                    == r@[i].1,
    {
        proof {
            lemma_key_count(self.items@);
        }
        let mut out: Vec<(String, V)> = Vec::new();
        out.append(&mut self.items);
        proof {
            assert(out@ =~= old(self).items@);
            assert(self@ =~= Map::<Seq<char>, V>::empty());
            assert forall|i: int| #![trigger out@[i]] 0 <= i < out@.len() implies old(
                self,
            )@.dom().contains(out@[i].0@) && old(self)@[out@[i].0@] == out@[i].1 by {
                lemma_entry_in_map(out@, i);
            }
        }
        out
    }
}

impl TextMap<String> {
    /// A copy of the map.
    pub fn duplicate(&self) -> (r: TextMap<String>)
        requires
            self.wf(),
        ensures
            r.wf(),
            r@ == self@,
    {
        let mut items: Vec<(String, String)> = Vec::new();
        let mut i: usize = 0;
        while i < self.items.len()
            invariant
                i <= self.items@.len(),
                items@.len() == i,
                forall|j: int| 0 <= j < i ==> #[trigger] items@[j] == self.items@[j],
            decreases self.items@.len() - i,
        {
            items.push((self.items[i].0.clone(), self.items[i].1.clone()));
            i = i + 1;
        }
        assert(items@ =~= self.items@);
        TextMap { items }
    }
}

} // verus!
