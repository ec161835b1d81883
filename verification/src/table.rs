//! A small table from texts to values, in the order in which the keys came.

use vstd::prelude::*;

verus! {

/// Values by key, each key once.
pub struct Table<V> {
    entries: Vec<(String, V)>,
}

/// Some entry has the key `k`.
pub open spec fn has_key<V>(entries: Seq<(String, V)>, k: Seq<char>) -> bool {
    exists|i: int| 0 <= i < entries.len() && (#[trigger] entries[i]).0@ == k
}

/// The value of an entry with the key `k`.
pub open spec fn value_of<V>(entries: Seq<(String, V)>, k: Seq<char>) -> V {
    entries[place_of(entries, k)].1
}

/// Where an entry with the key `k` stands.
pub open spec fn place_of<V>(entries: Seq<(String, V)>, k: Seq<char>) -> int {
    choose|i: int| 0 <= i < entries.len() && (#[trigger] entries[i]).0@ == k
}

/// The entries with `value` under `key`: in the place of the earlier one, or
/// at the end.
pub open spec fn put_list<V>(entries: Seq<(String, V)>, key: String, value: V) -> Seq<(String, V)> {
    if has_key(entries, key@) {
        entries.update(place_of(entries, key@), (key, value))
    } else {
        entries.push((key, value))
    }
}

/// No key stands twice.
pub open spec fn keys_unique<V>(entries: Seq<(String, V)>) -> bool {
    forall|i: int, j: int|
        0 <= i < j < entries.len() ==> (#[trigger] entries[i]).0@ != (#[trigger] entries[j]).0@
}

/// The entries as a map.
pub open spec fn as_map<V>(entries: Seq<(String, V)>) -> Map<Seq<char>, V> {
    Map::new(|k: Seq<char>| has_key(entries, k), |k: Seq<char>| value_of(entries, k))
}

impl<V> View for Table<V> {
    type V = Map<Seq<char>, V>;

    closed spec fn view(&self) -> Map<Seq<char>, V> {
        as_map(self.entries@)
    }
}

impl<V> Table<V> {
    /// The entries, in order.
    pub closed spec fn list(self) -> Seq<(String, V)> {
        self.entries@
    }

    /// No key stands twice.
    pub open spec fn wf(self) -> bool {
        keys_unique(self.list())
    }

    /// An empty table.
    pub fn new() -> (res: Self)
        ensures
            res.wf(),
            res@ == Map::<Seq<char>, V>::empty(),
            res.list().len() == 0,
    {
        let res: Self = Table { entries: Vec::new() };
        assert(res@ =~= Map::<Seq<char>, V>::empty());
        res
    }

    /// Where the key stands.
    fn find(&self, key: &str) -> (res: Option<usize>)
        requires
            self.wf(),
        ensures
            match res {
                Some(i) => i < self.entries@.len() && self.entries@[i as int].0@ == key@
                    && self@.contains_pair(key@, self.entries@[i as int].1),
                None => !self@.contains_key(key@) && forall|i: int|
                    0 <= i < self.entries@.len() ==> (#[trigger] self.entries@[i]).0@ != key@,
            },
    {
        let mut i: usize = 0;
        while i < self.entries.len()
            invariant
                0 <= i <= self.entries@.len(),
                self.wf(),
                forall|j: int| 0 <= j < i ==> (#[trigger] self.entries@[j]).0@ != key@,
            decreases self.entries@.len() - i,
        {
            if crate::text::same(self.entries[i].0.as_str(), key) {
                proof {
                    assert(has_key(self.entries@, key@));
                }
                return Some(i);
            }
            i = i + 1;
        }
        None
    }

    /// The value under a key.
    pub fn get(&self, key: &str) -> (res: Option<&V>)
        requires
            self.wf(),
        ensures
            match res {
                Some(v) => self@.contains_pair(key@, *v),
                None => !self@.contains_key(key@),
            },
    {
        match self.find(key) {
            Some(i) => Some(&self.entries[i].1),
            None => None,
        }
    }

    /// Sets the value under a key: in the place of the earlier one, or at the end.
    pub fn put(&mut self, key: String, value: V)
        requires
            old(self).wf(),
        ensures
            final(self).wf(),
            final(self)@ == old(self)@.insert(key@, value),
            final(self).list() == put_list(old(self).list(), key, value),
    {
        let ghost before = self.entries@;
        let ghost k = key@;
        match self.find(key.as_str()) {
            Some(i) => {
                self.entries.set(i, (key, value));
                proof {
                    let after = self.entries@;
                    assert(after == before.update(i as int, (key, value)));
                    assert forall|a: int, b: int| 0 <= a < b < after.len() implies (
                    #[trigger] after[a]).0@ != (#[trigger] after[b]).0@ by {
                        assert(before[a].0@ != before[b].0@);
                    }
                    assert(before[i as int].0@ == k && has_key(before, k));
                    assert(place_of(before, k) == i);
                    lemma_updated(before, i as int, (key, value));
                    lemma_as_map(after);
                    lemma_as_map(before);
                    assert(as_map(after) =~= as_map(before).insert(k, value));
                }
            },
            None => {
                self.entries.push((key, value));
                proof {
                    let after = self.entries@;
                    assert forall|a: int, b: int| 0 <= a < b < after.len() implies (
                    #[trigger] after[a]).0@ != (#[trigger] after[b]).0@ by {
                        if b == before.len() {
                            assert(before[a].0@ != k);
                        } else {
                            assert(before[a].0@ != before[b].0@);
                        }
                    }
                    lemma_pushed(before, (key, value));
                    assert(as_map(after) =~= as_map(before).insert(k, value));
                }
            },
        }
    }

    /// The number of keys.
    pub fn len(&self) -> (res: usize)
        ensures
            res == self.list().len(),
    {
        self.entries.len()
    }

    /// The entry at a position.
    pub fn at(&self, i: usize) -> (res: &(String, V))
        requires
            i < self.list().len(),
        ensures
            *res == self.list()[i as int],
    {
        &self.entries[i]
    }
}

/// An entry of a list with unique keys is what the map holds under its key.
pub proof fn lemma_as_map<V>(entries: Seq<(String, V)>)
    requires
        keys_unique(entries),
    ensures
        forall|i: int|
            0 <= i < entries.len() ==> as_map(entries).contains_pair(
                (#[trigger] entries[i]).0@,
                entries[i].1,
            ),
{
    assert forall|i: int| 0 <= i < entries.len() implies as_map(entries).contains_pair(
        (#[trigger] entries[i]).0@,
        entries[i].1,
    ) by {
        assert(has_key(entries, entries[i].0@));
    }
}

proof fn lemma_updated<V>(before: Seq<(String, V)>, i: int, e: (String, V))
    requires
        keys_unique(before),
        0 <= i < before.len(),
        before[i].0@ == e.0@,
        keys_unique(before.update(i, e)),
    ensures
        forall|k: Seq<char>| #[trigger]
            as_map(before.update(i, e)).contains_key(k) <==> as_map(before).contains_key(k),
        forall|k: Seq<char>| #[trigger]
            as_map(before).contains_key(k) && k != e.0@ ==> as_map(before.update(i, e))[k]
                == as_map(before)[k],
{
    let after = before.update(i, e);
    assert forall|k: Seq<char>| #[trigger] as_map(after).contains_key(k) <==> as_map(
        before,
    ).contains_key(k) by {
        if has_key(before, k) {
            let j = choose|j: int| 0 <= j < before.len() && (#[trigger] before[j]).0@ == k;
            assert(after[j].0@ == k);
        }
        if has_key(after, k) {
            let j = choose|j: int| 0 <= j < after.len() && (#[trigger] after[j]).0@ == k;
            assert(before[j].0@ == k);
        }
    }
    assert forall|k: Seq<char>| #[trigger]
        as_map(before).contains_key(k) && k != e.0@ implies as_map(after)[k] == as_map(before)[k] by {
        let j = choose|j: int| 0 <= j < before.len() && (#[trigger] before[j]).0@ == k;
        assert(after[j].0@ == k);
        lemma_as_map(before);
        lemma_as_map(after);
        assert(as_map(before).contains_pair(before[j].0@, before[j].1));
        assert(as_map(after).contains_pair(after[j].0@, after[j].1));
    }
}

proof fn lemma_pushed<V>(before: Seq<(String, V)>, e: (String, V))
    requires
        keys_unique(before),
        keys_unique(before.push(e)),
    ensures
        forall|k: Seq<char>| #[trigger]
            as_map(before.push(e)).contains_key(k) <==> as_map(before).contains_key(k) || k == e.0@,
        forall|k: Seq<char>| #[trigger]
            as_map(before).contains_key(k) && k != e.0@ ==> as_map(before.push(e))[k] == as_map(
                before,
            )[k],
        as_map(before.push(e))[e.0@] == e.1,
{
    let after = before.push(e);
    lemma_as_map(after);
    assert(as_map(after).contains_pair(after[before.len() as int].0@, after[before.len() as int].1));
    assert forall|k: Seq<char>| #[trigger] as_map(after).contains_key(k) <==> as_map(
        before,
    ).contains_key(k) || k == e.0@ by {
        if has_key(before, k) {
            let j = choose|j: int| 0 <= j < before.len() && (#[trigger] before[j]).0@ == k;
            assert(after[j].0@ == k);
        }
        if has_key(after, k) {
            let j = choose|j: int| 0 <= j < after.len() && (#[trigger] after[j]).0@ == k;
            if j < before.len() {
                assert(before[j].0@ == k);
            }
        }
    }
    assert forall|k: Seq<char>| #[trigger]
        as_map(before).contains_key(k) && k != e.0@ implies as_map(after)[k] == as_map(before)[k] by {
        let j = choose|j: int| 0 <= j < before.len() && (#[trigger] before[j]).0@ == k;
        assert(after[j].0@ == k);
        lemma_as_map(before);
        assert(as_map(before).contains_pair(before[j].0@, before[j].1));
        assert(as_map(after).contains_pair(after[j].0@, after[j].1));
    }
}

} // verus!
