//! A small map from strings to strings.

use crate::text::same;
use vstd::prelude::*;

verus! {

/// The map that a list of entries stands for: each key with the value of the
/// last entry that has it.
spec fn entries_map(entries: Seq<(String, String)>) -> Map<Seq<char>, Seq<char>>
    decreases entries.len(),
{
    if entries.len() == 0 {
        Map::empty()
    } else {
        entries_map(entries.drop_last()).insert(entries.last().0@, entries.last().1@)
    }
}

/// Whether no entry after the one at `i` has `key`.
spec fn last_with_key(entries: Seq<(String, String)>, i: int, key: Seq<char>) -> bool {
    forall|j: int| i < j < entries.len() ==> (#[trigger] entries[j]).0@ != key
}

/// The keys of `entries_map` are the keys of the entries.
proof fn lemma_keys(entries: Seq<(String, String)>, key: Seq<char>)
    ensures
        entries_map(entries).contains_key(key) <==> exists|i: int|
            0 <= i < entries.len() && (#[trigger] entries[i]).0@ == key,
    decreases entries.len(),
{
    if entries.len() > 0 {
        let front = entries.drop_last();
        lemma_keys(front, key);
        if entries_map(entries).contains_key(key) {
            if entries.last().0@ == key {
                assert(entries[entries.len() - 1].0@ == key);
            } else {
                let i = choose|i: int| 0 <= i < front.len() && (#[trigger] front[i]).0@ == key;
                assert(entries[i].0@ == key);
            }
        }
        if exists|i: int| 0 <= i < entries.len() && (#[trigger] entries[i]).0@ == key {
            let i = choose|i: int| 0 <= i < entries.len() && (#[trigger] entries[i]).0@ == key;
            if i < front.len() {
                assert(front[i].0@ == key);
            }
        }
    }
}

/// A key maps to the value of the last entry that has it.
proof fn lemma_value(entries: Seq<(String, String)>, i: int)
    requires
        0 <= i < entries.len(),
        last_with_key(entries, i, entries[i].0@),
    ensures
        entries_map(entries).contains_key(entries[i].0@),
        entries_map(entries)[entries[i].0@] == entries[i].1@,
    decreases entries.len(),
{
    let front = entries.drop_last();
    if i < entries.len() - 1 {
        assert(front[i] == entries[i]);
        assert forall|j: int| i < j < front.len() implies (#[trigger] front[j]).0@
            != entries[i].0@ by {
            assert(front[j] == entries[j]);
        }
        lemma_value(front, i);
        assert(entries[entries.len() - 1].0@ != entries[i].0@);
    }
}

/// Replacing the last entry that has a key sets that key anew.
proof fn lemma_update(entries: Seq<(String, String)>, i: int, entry: (String, String))
    requires
        0 <= i < entries.len(),
        entry.0@ == entries[i].0@,
        last_with_key(entries, i, entry.0@),
    ensures
        entries_map(entries.update(i, entry)) == entries_map(entries).insert(entry.0@, entry.1@),
    decreases entries.len(),
{
    let after = entries.update(i, entry);
    let front = entries.drop_last();
    if i == entries.len() - 1 {
        assert(after.drop_last() == front);
        assert(entries_map(after) == entries_map(entries).insert(entry.0@, entry.1@));
    } else {
        assert(front[i] == entries[i]);
        assert forall|j: int| i < j < front.len() implies (#[trigger] front[j]).0@
            != entry.0@ by {
            assert(front[j] == entries[j]);
        }
        lemma_update(front, i, entry);
        assert(after.drop_last() == front.update(i, entry));
        assert(after.last() == entries.last());
        assert(entries[entries.len() - 1].0@ != entry.0@);
        assert(entries_map(after) == entries_map(entries).insert(entry.0@, entry.1@));
    }
}

/// Among the entries with a key, one is the last.
proof fn lemma_last_entry(entries: Seq<(String, String)>, key: Seq<char>) -> (at: int)
    requires
        exists|i: int| 0 <= i < entries.len() && (#[trigger] entries[i]).0@ == key,
    ensures
        0 <= at < entries.len(),
        entries[at].0@ == key,
        last_with_key(entries, at, key),
    decreases entries.len(),
{
    if entries.last().0@ == key {
        entries.len() - 1
    } else {
        let front = entries.drop_last();
        let i = choose|i: int| 0 <= i < entries.len() && (#[trigger] entries[i]).0@ == key;
        assert(front[i].0@ == key);
        let at = lemma_last_entry(front, key);
        assert(front[at] == entries[at]);
        assert forall|j: int| at < j < entries.len() implies (#[trigger] entries[j]).0@ != key by {
            if j < front.len() {
                assert(front[j] == entries[j]);
            }
        }
        at
    }
}

/// A map from strings to strings. Keys are told apart by their characters.
#[derive(Debug, Clone)]
pub struct StringMap {
    entries: Vec<(String, String)>,
}

impl View for StringMap {
    type V = Map<Seq<char>, Seq<char>>;

    closed spec fn view(&self) -> Map<Seq<char>, Seq<char>> {
        entries_map(self.entries@)
    }
}

impl StringMap {
    /// The index of the last entry with `key`, if there is one.
    fn index_of(&self, key: &str) -> (at: Option<usize>)
        ensures
            match at {
                Some(i) => {
                    &&& i < self.entries@.len()
                    &&& self.entries@[i as int].0@ == key@
                    &&& last_with_key(self.entries@, i as int, key@)
                },
                None => !self@.contains_key(key@),
            },
    {
        let mut i: usize = self.entries.len();
        while i > 0
            invariant
                i <= self.entries@.len(),
                last_with_key(self.entries@, i as int - 1, key@),
            decreases i,
        {
            i -= 1;
            if same(self.entries[i].0.as_str(), key) {
                return Some(i);
            }
        }
        proof {
            lemma_keys(self.entries@, key@);
        }
        None
    }

    /// The map without entries.
    pub fn new() -> (map: StringMap)
        ensures
            map@ == Map::<Seq<char>, Seq<char>>::empty(),
    {
        StringMap { entries: Vec::new() }
    }

    /// Sets the value of `key` to `value`, whether or not `key` had one.
    pub fn insert(&mut self, key: String, value: String)
        ensures
            final(self)@ == old(self)@.insert(key@, value@),
    {
        match self.index_of(key.as_str()) {
            Some(i) => {
                proof {
                    lemma_update(self.entries@, i as int, (key, value));
                }
                self.entries.set(i, (key, value));
            },
            None => {
                assert(self.entries@.push((key, value)).drop_last() == self.entries@);
                self.entries.push((key, value));
            },
        }
    }

    /// The value of `key`, if it has one.
    pub fn get(&self, key: &str) -> (value: Option<&String>)
        ensures
            match value {
                Some(v) => self@.contains_key(key@) && v@ == self@[key@],
                None => !self@.contains_key(key@),
            },
    {
        match self.index_of(key) {
            Some(i) => {
                proof {
                    lemma_value(self.entries@, i as int);
                }
                Some(&self.entries[i].1)
            },
            None => None,
        }
    }

    /// Whether `key` has a value.
    pub fn contains_key(&self, key: &str) -> (found: bool)
        ensures
            found == self@.contains_key(key@),
    {
        match self.index_of(key) {
            Some(i) => {
                proof {
                    lemma_value(self.entries@, i as int);
                }
                true
            },
            None => false,
        }
    }

    /// The keys of the map with their values, each key once.
    pub fn pairs(&self) -> (pairs: Vec<(String, String)>)
        ensures
            forall|i: int|
                0 <= i < pairs@.len() ==> self@.contains_key((#[trigger] pairs@[i]).0@)
                    && self@[pairs@[i].0@] == pairs@[i].1@,
            forall|key: Seq<char>|
                self@.contains_key(key) ==> exists|i: int|
                    0 <= i < pairs@.len() && (#[trigger] pairs@[i]).0@ == key,
            forall|i: int, j: int|
                0 <= i < j < pairs@.len() ==> (#[trigger] pairs@[i]).0@ != (#[trigger] pairs@[j]).0@,
    {
        let mut pairs: Vec<(String, String)> = Vec::new();
        let ghost mut from: Seq<int> = Seq::empty();
        let mut i: usize = 0;
        while i < self.entries.len()
            invariant
                i <= self.entries@.len(),
                from.len() == pairs@.len(),
                forall|m: int|
                    0 <= m < from.len() ==> {
                        &&& 0 <= #[trigger] from[m] < i
                        &&& last_with_key(self.entries@, from[m], self.entries@[from[m]].0@)
                        &&& pairs@[m].0@ == self.entries@[from[m]].0@
                        &&& pairs@[m].1@ == self.entries@[from[m]].1@
                    },
                forall|m: int, n: int| 0 <= m < n < from.len() ==> from[m] < from[n],
                forall|j: int|
                    0 <= j < i && last_with_key(
                        self.entries@,
                        j,
                        (#[trigger] self.entries@[j]).0@,
                    ) ==> from.contains(j),
            decreases self.entries@.len() - i,
        {
            let ghost before = from;
            match self.index_of(self.entries[i].0.as_str()) {
                Some(at) => {
                    if at == i {
                        pairs.push((self.entries[i].0.clone(), self.entries[i].1.clone()));
                        proof {
                            from = from.push(i as int);
                        }
                    }
                },
                None => {
                    proof {
                        lemma_keys(self.entries@, self.entries@[i as int].0@);
                    }
                },
            }
            proof {
                assert forall|j: int|
                    0 <= j < i + 1 && last_with_key(
                        self.entries@,
                        j,
                        (#[trigger] self.entries@[j]).0@,
                    ) implies from.contains(j) by {
                    if j < i {
                        let m = choose|m: int| 0 <= m < before.len() && before[m] == j;
                        assert(from[m] == j);
                    } else {
                        assert(from[from.len() - 1] == j);
                    }
                }
            }
            i += 1;
        }
        proof {
            assert forall|m: int| 0 <= m < pairs@.len() implies self@.contains_key(
                (#[trigger] pairs@[m]).0@,
            ) && self@[pairs@[m].0@] == pairs@[m].1@ by {
                lemma_value(self.entries@, from[m]);
            }
            assert forall|key: Seq<char>| self@.contains_key(key) implies exists|m: int|
                0 <= m < pairs@.len() && (#[trigger] pairs@[m]).0@ == key by {
                lemma_keys(self.entries@, key);
                let at = lemma_last_entry(self.entries@, key);
                assert(from.contains(at));
                let m = choose|m: int| 0 <= m < from.len() && from[m] == at;
                assert(pairs@[m].0@ == key);
            }
            assert forall|m: int, n: int| 0 <= m < n < pairs@.len() implies (#[trigger] pairs@[m]).0@
                != (#[trigger] pairs@[n]).0@ by {
                if pairs@[m].0@ == pairs@[n].0@ {
                    assert(from[m] < from[n]);
                    assert(self.entries@[from[n]].0@ != self.entries@[from[m]].0@);
                }
            }
        }
        pairs
    }

    /// Whether the map has no entries.
    pub fn is_empty(&self) -> (empty: bool)
        ensures
            empty == (self@ == Map::<Seq<char>, Seq<char>>::empty()),
    {
        proof {
            if self.entries@.len() > 0 {
                assert(entries_map(self.entries@).contains_key(self.entries@.last().0@));
            }
        }
        self.entries.len() == 0
    }
}

} // verus!
