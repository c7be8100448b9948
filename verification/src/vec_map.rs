//! A small map whose keys are compared one by one.

use vstd::prelude::*;

verus! {

/// A key that can be compared with another.
pub trait MapKey: View + Sized {
    fn same_key(&self, other: &Self) -> (r: bool)
        ensures
            r == (self@ == other@),
    ;
}

/// The map that a list of entries stands for; of two entries with one key the later counts.
pub open spec fn entries_map<K: MapKey, V>(entries: Seq<(K, V)>) -> Map<K::V, V>
    decreases entries.len(),
{
    if entries.len() == 0 {
        Map::<K::V, V>::empty()
    } else {
        entries_map(entries.drop_last()).insert(entries.last().0@, entries.last().1)
    }
}

/// Whether no key occurs twice.
pub open spec fn distinct_keys<K: MapKey, V>(entries: Seq<(K, V)>) -> bool {
    forall|i: int, j: int|
        0 <= i < j < entries.len() ==> (#[trigger] entries[i]).0@ != (#[trigger] entries[j]).0@
}

/// What the map says of a key that stands at a known place.
pub proof fn entry_is_mapped<K: MapKey, V>(entries: Seq<(K, V)>, i: int)
    requires
        distinct_keys(entries),
        0 <= i < entries.len(),
    ensures
        entries_map(entries).contains_key(entries[i].0@),
        entries_map(entries)[entries[i].0@] == entries[i].1,
    decreases entries.len(),
{
    if i < entries.len() - 1 {
        assert(entries.drop_last()[i] == entries[i]);
        entry_is_mapped(entries.drop_last(), i);
        assert(entries[i].0@ != entries[entries.len() - 1].0@);
    }
}

/// Every key of the map stands at some place.
pub proof fn mapped_is_an_entry<K: MapKey, V>(entries: Seq<(K, V)>, k: K::V)
    requires
        entries_map(entries).contains_key(k),
    ensures
        exists|i: int| 0 <= i < entries.len() && (#[trigger] entries[i]).0@ == k,
    decreases entries.len(),
{
    if entries.last().0@ == k {
        assert(entries[entries.len() - 1].0@ == k);
    } else {
        mapped_is_an_entry(entries.drop_last(), k);
        let i = choose|i: int|
            0 <= i < entries.drop_last().len() && (#[trigger] entries.drop_last()[i]).0@ == k;
        assert(entries[i].0@ == k);
    }
}

/// A map on a list, for keys that no hash or order is known of.
pub struct VecMap<K: MapKey, V> {
    entries: Vec<(K, V)>,
}

impl<K: MapKey, V> View for VecMap<K, V> {
    type V = Map<K::V, V>;

    closed spec fn view(&self) -> Map<K::V, V> {
        entries_map(self.entries@)
    }
}

impl<K: MapKey, V> VecMap<K, V> {
    /// Whether each key occurs once.
    pub closed spec fn wf(&self) -> bool {
        distinct_keys(self.entries@)
    }

    /// The entries in the order in which their keys came in.
    pub closed spec fn listed(&self) -> Seq<(K, V)> {
        self.entries@
    }

    /// The list holds each key of the map once, with its value.
    pub proof fn listed_is_the_map(&self)
        requires
            self.wf(),
        ensures
            entries_map(self.listed()) == self@,
            distinct_keys(self.listed()),
            self@.dom().finite(),
            self@.len() == self.listed().len(),
    {
        entries_map_len(self.entries@);
    }

    pub fn new() -> (r: Self)
        ensures
            r.wf(),
            r@ == Map::<K::V, V>::empty(),
    {
        VecMap { entries: Vec::new() }
    }

    pub fn len(&self) -> (r: usize)
        requires
            self.wf(),
        ensures
            r == self@.len(),
            r == self.listed().len(),
    {
        proof {
            entries_map_len(self.entries@);
        }
        self.entries.len()
    }

    /// The entry at a place of the list.
    pub fn entry(&self, i: usize) -> (r: &(K, V))
        requires
            i < self.listed().len(),
        ensures
            *r == self.listed()[i as int],
    {
        &self.entries[i]
    }

    /// The place of a key.
    fn position(&self, key: &K) -> (r: Option<usize>)
        requires
            self.wf(),
        ensures
            match r {
                Some(i) => i < self.entries@.len() && self.entries@[i as int].0@ == key@,
                None => !self@.contains_key(key@),
            },
    {
        for i in 0..self.entries.len()
            invariant
                forall|k: int| 0 <= k < i ==> (#[trigger] self.entries@[k]).0@ != key@,
        {
            if self.entries[i].0.same_key(key) {
                return Some(i);
            }
        }
        proof {
            if self@.contains_key(key@) {
                mapped_is_an_entry(self.entries@, key@);
            }
        }
        None
    }

    pub fn get(&self, key: &K) -> (r: Option<&V>)
        requires
            self.wf(),
        ensures
            match r {
                Some(v) => self@.contains_key(key@) && *v == self@[key@],
                None => !self@.contains_key(key@),
            },
    {
        match self.position(key) {
            Some(i) => {
                proof {
                    entry_is_mapped(self.entries@, i as int);
                }
                Some(&self.entries[i].1)
            },
            None => None,
        }
    }

    /// Takes a key out and gives its value.
    pub fn remove(&mut self, key: &K) -> (r: Option<V>)
        requires
            old(self).wf(),
        ensures
            final(self).wf(),
            final(self)@ == old(self)@.remove(key@),
            match r {
                Some(v) => old(self)@.contains_key(key@) && v == old(self)@[key@],
                None => !old(self)@.contains_key(key@),
            },
    {
        let ghost before = self.entries@;
        match self.position(key) {
            Some(i) => {
                proof {
                    entry_is_mapped(before, i as int);
                    entries_map_remove(before, i as int);
                }
                let entry = self.entries.remove(i);
                Some(entry.1)
            },
            None => {
                assert(self@.remove(key@) == self@);
                None
            },
        }
    }

    /// Puts a value under a key, in place of the one that was there.
    pub fn insert(&mut self, key: K, value: V) -> (r: Option<V>)
        requires
            old(self).wf(),
        ensures
            final(self).wf(),
            final(self)@ == old(self)@.insert(key@, value),
            match r {
                Some(v) => old(self)@.contains_key(key@) && v == old(self)@[key@],
                None => !old(self)@.contains_key(key@),
            },
    {
        let replaced = self.remove(&key);
        let ghost before = self.entries@;
        self.entries.push((key, value));
        proof {
            assert(self.entries@.drop_last() == before);
            assert(old(self)@.remove(key@).insert(key@, value) == old(self)@.insert(key@, value));
            assert forall|i: int, j: int| 0 <= i < j < self.entries@.len() implies (
            #[trigger] self.entries@[i]).0@ != (#[trigger] self.entries@[j]).0@ by {
                if j == before.len() {
                    entry_is_mapped(before, i);
                    assert(before[i] == self.entries@[i]);
                } else {
                    assert(before[i] == self.entries@[i]);
                    assert(before[j] == self.entries@[j]);
                }
            }
        }
        replaced
    }
}

proof fn entries_map_len<K: MapKey, V>(entries: Seq<(K, V)>)
    requires
        distinct_keys(entries),
    ensures
        entries_map(entries).dom().finite(),
        entries_map(entries).len() == entries.len(),
    decreases entries.len(),
{
    if entries.len() > 0 {
        let front = entries.drop_last();
        assert forall|i: int, j: int| 0 <= i < j < front.len() implies (#[trigger] front[i]).0@
            != (#[trigger] front[j]).0@ by {
            assert(front[i] == entries[i]);
            assert(front[j] == entries[j]);
        }
        entries_map_len(front);
        if entries_map(front).contains_key(entries.last().0@) {
            mapped_is_an_entry(front, entries.last().0@);
            let i = choose|i: int|
                0 <= i < front.len() && (#[trigger] front[i]).0@ == entries.last().0@;
            assert(entries[i].0@ != entries[entries.len() - 1].0@);
        }
    }
}

/// Taking out one entry of a list with distinct keys takes its key out of the map.
proof fn entries_map_remove<K: MapKey, V>(entries: Seq<(K, V)>, i: int)
    requires
        distinct_keys(entries),
        0 <= i < entries.len(),
    ensures
        distinct_keys(entries.remove(i)),
        entries_map(entries.remove(i)) == entries_map(entries).remove(entries[i].0@),
{
    let rest = entries.remove(i);
    assert forall|a: int, b: int| 0 <= a < b < rest.len() implies (#[trigger] rest[a]).0@ != (
    #[trigger] rest[b]).0@ by {
        let x = if a < i { a } else { a + 1 };
        let y = if b < i { b } else { b + 1 };
        assert(rest[a] == entries[x]);
        assert(rest[b] == entries[y]);
    }
    let whole = entries_map(entries).remove(entries[i].0@);
    let part = entries_map(rest);
    assert forall|k: K::V|
        #![trigger part.dom().contains(k)]
        #![trigger whole.dom().contains(k)]
        part.dom().contains(k) == whole.dom().contains(k) && (whole.dom().contains(k) ==> part[k]
            == whole[k]) by {
        if whole.contains_key(k) {
            mapped_is_an_entry(entries, k);
            let x = choose|x: int| 0 <= x < entries.len() && (#[trigger] entries[x]).0@ == k;
            let a = if x < i { x } else { x - 1 };
            assert(rest[a] == entries[x]);
            entry_is_mapped(entries, x);
            entry_is_mapped(rest, a);
        }
        if part.contains_key(k) {
            mapped_is_an_entry(rest, k);
            let a = choose|a: int| 0 <= a < rest.len() && (#[trigger] rest[a]).0@ == k;
            let x = if a < i { a } else { a + 1 };
            assert(rest[a] == entries[x]);
            entry_is_mapped(entries, x);
            if x < i {
                assert(entries[x].0@ != entries[i].0@);
            } else {
                assert(entries[i].0@ != entries[x].0@);
            }
        }
    }
    assert(part == whole);
}

} // verus!
