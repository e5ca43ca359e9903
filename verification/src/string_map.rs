//! A map from strings to strings that keeps its entries in the order in
//! which their keys were first inserted.

use crate::text::str_eq;
use vstd::prelude::*;
use vstd::string::*;

verus! {

/// The map that a sequence of entries stands for: each key is bound to the
/// value of the last entry that holds it.
pub open spec fn map_of(entries: Seq<(String, String)>) -> Map<Seq<char>, Seq<char>>
    decreases entries.len(),
{
    if entries.len() == 0 {
        Map::empty()
    } else {
        map_of(entries.drop_last()).insert(entries.last().0@, entries.last().1@)
    }
}

/// No two entries hold the same key.
pub open spec fn distinct_keys(entries: Seq<(String, String)>) -> bool {
    forall|i: int, j: int| 0 <= i < j < entries.len() ==> entries[i].0@ != entries[j].0@
}

/// A key is bound exactly when some entry holds it.
pub proof fn lemma_map_of_keys(entries: Seq<(String, String)>, key: Seq<char>)
    ensures
        map_of(entries).contains_key(key) <==> exists|i: int|
            0 <= i < entries.len() && (#[trigger] entries[i]).0@ == key,
    decreases entries.len(),
{
    if entries.len() > 0 {
        let front = entries.drop_last();
        lemma_map_of_keys(front, key);
        if map_of(entries).contains_key(key) {
            if entries.last().0@ == key {
                assert(entries[entries.len() - 1].0@ == key);
            } else {
                let i = choose|i: int| 0 <= i < front.len() && (#[trigger] front[i]).0@ == key;
                assert(entries[i].0@ == key);
            }
        }
        if exists|i: int| 0 <= i < entries.len() && (#[trigger] entries[i]).0@ == key {
            let i = choose|i: int| 0 <= i < entries.len() && (#[trigger] entries[i]).0@ == key;
            if i < front.len() {
                assert(front[i].0@ == key);
            }
        }
    }
}

/// Where no key occurs twice, each entry's key is bound to its value.
pub proof fn lemma_map_of_value(entries: Seq<(String, String)>, at: int)
    requires
        distinct_keys(entries),
        0 <= at < entries.len(),
    ensures
        map_of(entries).contains_key(entries[at].0@),
        map_of(entries)[entries[at].0@] == entries[at].1@,
    decreases entries.len(),
{
    if at < entries.len() - 1 {
        let front = entries.drop_last();
        assert(distinct_keys(front)) by {
            assert forall|i: int, j: int| 0 <= i < j < front.len() implies front[i].0@
                != front[j].0@ by {
                assert(front[i] == entries[i]);
                assert(front[j] == entries[j]);
            }
        }
        lemma_map_of_value(front, at);
        assert(front[at] == entries[at]);
    }
}

/// Where no key occurs twice, the map has as many keys as there are
/// entries.
pub proof fn lemma_map_of_len(entries: Seq<(String, String)>)
    requires
        distinct_keys(entries),
    ensures
        map_of(entries).dom().finite(),
        map_of(entries).dom().len() == entries.len(),
    decreases entries.len(),
{
    if entries.len() > 0 {
        let front = entries.drop_last();
        assert(distinct_keys(front)) by {
            assert forall|i: int, j: int| 0 <= i < j < front.len() implies front[i].0@
                != front[j].0@ by {
                assert(front[i] == entries[i]);
                assert(front[j] == entries[j]);
            }
        }
        lemma_map_of_len(front);
        lemma_map_of_keys(front, entries.last().0@);
        if map_of(front).contains_key(entries.last().0@) {
            let i = choose|i: int|
                0 <= i < front.len() && (#[trigger] front[i]).0@ == entries.last().0@;
            assert(front[i] == entries[i]);
            assert(false);
        }
        assert(map_of(entries).dom() =~= map_of(front).dom().insert(entries.last().0@));
    } else {
        assert(map_of(entries).dom() =~= Set::<Seq<char>>::empty());
    }
}

/// A map from strings to strings.
#[derive(Debug)]
pub struct StringMap {
    entries: Vec<(String, String)>,
}

impl View for StringMap {
    type V = Map<Seq<char>, Seq<char>>;

    closed spec fn view(&self) -> Map<Seq<char>, Seq<char>> {
        map_of(self.entries@)
    }
}

impl StringMap {
    #[verifier::type_invariant]
    spec fn keys_are_distinct(self) -> bool {
        distinct_keys(self.entries@)
    }

    /// An empty map.
    pub fn new() -> (map: Self)
        ensures
            map@ == Map::<Seq<char>, Seq<char>>::empty(),
    {
        StringMap { entries: Vec::new() }
    }

    /// The number of keys.
    pub fn len(&self) -> (count: usize)
        ensures
            self@.dom().finite(),
            count == self@.dom().len(),
    {
        proof {
            use_type_invariant(self);
            lemma_map_of_len(self.entries@);
        }
        self.entries.len()
    }

    /// Whether the map has no key.
    pub fn is_empty(&self) -> (empty: bool)
        ensures
            empty == (self@ == Map::<Seq<char>, Seq<char>>::empty()),
    {
        proof {
            use_type_invariant(self);
            if self.entries@.len() > 0 {
                lemma_map_of_value(self.entries@, 0);
            }
        }
        self.entries.len() == 0
    }

    /// The place of the entry that holds `key`, if there is one.
    fn find(&self, key: &str) -> (place: Option<usize>)
        ensures
            match place {
                Some(at) => at < self.entries@.len() && self.entries@[at as int].0@ == key@,
                None => forall|i: int|
                    0 <= i < self.entries@.len() ==> (#[trigger] self.entries@[i]).0@ != key@,
            },
    {
        let mut at: usize = 0;
        while at < self.entries.len()
            invariant
                at <= self.entries@.len(),
                forall|i: int| 0 <= i < at ==> (#[trigger] self.entries@[i]).0@ != key@,
            decreases self.entries@.len() - at,
        {
            if str_eq(self.entries[at].0.as_str(), key) {
                return Some(at);
            }
            at += 1;
        }
        None
    }

    /// Whether `key` is bound.
    pub fn contains_key(&self, key: &str) -> (bound: bool)
        ensures
            bound == self@.contains_key(key@),
    {
        proof {
            lemma_map_of_keys(self.entries@, key@);
        }
        self.find(key).is_some()
    }

    /// The value that `key` is bound to, if it is bound.
    pub fn get(&self, key: &str) -> (value: Option<&String>)
        ensures
            match value {
                Some(text) => self@.contains_key(key@) && text@ == self@[key@],
                None => !self@.contains_key(key@),
            },
    {
        proof {
            use_type_invariant(self);
            lemma_map_of_keys(self.entries@, key@);
        }
        match self.find(key) {
            Some(at) => {
                proof {
                    lemma_map_of_value(self.entries@, at as int);
                }
                Some(&self.entries[at].1)
            },
            None => None,
        }
    }

    /// Binds `key` to `value`, in place of what it was bound to before.
    pub fn insert(&mut self, key: String, value: String)
        ensures
            final(self)@ == old(self)@.insert(key@, value@),
    {
        proof {
            use_type_invariant(&*self);
        }
        let ghost before = self.entries@;
        match self.find(key.as_str()) {
            Some(at) => {
                let ghost pair = (key, value);
                proof {
                    let after = before.update(at as int, pair);
                    assert(distinct_keys(after)) by {
                        assert forall|i: int, j: int| 0 <= i < j < after.len() implies after[i].0@
                            != after[j].0@ by {
                            assert(after[i].0@ == before[i].0@);
                            assert(after[j].0@ == before[j].0@);
                        }
                    }
                    assert forall|k: Seq<char>|
                        map_of(after).contains_key(k) == map_of(before).insert(
                            key@,
                            value@,
                        ).contains_key(k) by {
                        lemma_map_of_keys(after, k);
                        lemma_map_of_keys(before, k);
                        if exists|i: int| 0 <= i < after.len() && (#[trigger] after[i]).0@ == k {
                            let i = choose|i: int|
                                0 <= i < after.len() && (#[trigger] after[i]).0@ == k;
                            assert(before[i].0@ == k);
                        }
                        if exists|i: int| 0 <= i < before.len() && (#[trigger] before[i]).0@ == k {
                            let i = choose|i: int|
                                0 <= i < before.len() && (#[trigger] before[i]).0@ == k;
                            assert(after[i].0@ == k);
                        }
                        if k == key@ {
                            assert(after[at as int].0@ == k);
                        }
                    }
                    assert forall|k: Seq<char>| map_of(after).contains_key(k) implies map_of(
                        after,
                    )[k] == map_of(before).insert(key@, value@)[k] by {
                        lemma_map_of_keys(after, k);
                        let i = choose|i: int|
                            0 <= i < after.len() && (#[trigger] after[i]).0@ == k;
                        lemma_map_of_value(after, i);
                        if i != at {
                            lemma_map_of_value(before, i);
                        }
                    }
                    assert(map_of(after) =~= map_of(before).insert(key@, value@));
                }
                let mut entries: Vec<(String, String)> = Vec::new();
                std::mem::swap(&mut self.entries, &mut entries);
                entries.set(at, (key, value));
                std::mem::swap(&mut self.entries, &mut entries);
            },
            None => {
                let ghost pair = (key, value);
                proof {
                    let after = before.push(pair);
                    assert(after.drop_last() =~= before);
                    assert(distinct_keys(after));
                }
                let mut entries: Vec<(String, String)> = Vec::new();
                std::mem::swap(&mut self.entries, &mut entries);
                entries.push((key, value));
                std::mem::swap(&mut self.entries, &mut entries);
            },
        }
    }

    /// Binds every key of `other` to the value it has there.
    pub fn extend(&mut self, other: &StringMap)
        ensures
            final(self)@ == old(self)@.union_prefer_right(other@),
    {
        let ghost start = self@;
        let mut at: usize = 0;
        proof {
            assert(other.entries@.take(0) =~= Seq::<(String, String)>::empty());
            assert(start.union_prefer_right(Map::<Seq<char>, Seq<char>>::empty()) =~= start);
        }
        while at < other.entries.len()
            invariant
                at <= other.entries@.len(),
                self@ == start.union_prefer_right(map_of(other.entries@.take(at as int))),
            decreases other.entries@.len() - at,
        {
            let key = other.entries[at].0.clone();
            let value = other.entries[at].1.clone();
            proof {
                let done = map_of(other.entries@.take(at as int));
                assert(other.entries@.take(at + 1).drop_last() =~= other.entries@.take(at as int));
                assert(start.union_prefer_right(done).insert(key@, value@)
                    =~= start.union_prefer_right(done.insert(key@, value@)));
            }
            self.insert(key, value);
            at += 1;
        }
        proof {
            assert(other.entries@.take(at as int) =~= other.entries@);
        }
    }

    /// A map with the same bindings.
    pub fn duplicate(&self) -> (copy: Self)
        ensures
            copy@ == self@,
    {
        let mut copy = StringMap::new();
        copy.extend(self);
        proof {
            assert(Map::<Seq<char>, Seq<char>>::empty().union_prefer_right(self@) =~= self@);
        }
        copy
    }

    /// The bindings, as pairs of key and value, in the order in which the
    /// keys were first bound.
    pub fn pairs(&self) -> (pairs: Vec<(String, String)>)
        ensures
            map_of(pairs@) == self@,
            distinct_keys(pairs@),
    {
        proof {
            use_type_invariant(self);
        }
        let mut pairs: Vec<(String, String)> = Vec::new();
        let mut at: usize = 0;
        while at < self.entries.len()
            invariant
                at <= self.entries@.len(),
                pairs@ == self.entries@.take(at as int),
            decreases self.entries@.len() - at,
        {
            let key = self.entries[at].0.clone();
            let value = self.entries[at].1.clone();
            proof {
                assert(self.entries@.take(at + 1) =~= self.entries@.take(at as int).push(
                    self.entries@[at as int],
                ));
            }
            pairs.push((key, value));
            at += 1;
        }
        proof {
            assert(self.entries@.take(at as int) =~= self.entries@);
        }
        pairs
    }
}

impl Clone for StringMap {
    fn clone(&self) -> (copy: Self)
        ensures
            copy@ == self@,
    {
        self.duplicate()
    }
}

} // verus!
