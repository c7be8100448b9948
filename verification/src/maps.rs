//! Listing what a map or a set holds.

use std::collections::{BTreeMap, HashMap, HashSet};
use std::hash::Hash;

use vstd::prelude::*;

verus! {

broadcast use {
    vstd::std_specs::hash::group_hash_axioms,
    vstd::std_specs::btree::group_btree_axioms,
    vstd::laws_cmp::group_laws_cmp,
};

/// Whether the list holds exactly the elements of the set, each once, in whatever order.
pub open spec fn lists<K>(list: Seq<K>, set: Set<K>) -> bool {
    &&& list.no_duplicates()
    &&& list.to_set() == set
    &&& set.finite()
    &&& list.len() == set.len()
}

/// What stands in a list after one more element.
pub proof fn push_adds_to_set<K>(list: Seq<K>, k: K)
    ensures
        list.push(k).to_set() == list.to_set().insert(k),
        list.no_duplicates() && !list.to_set().contains(k) ==> list.push(k).no_duplicates(),
{
    assert forall|x: K| list.push(k).to_set().contains(x) == list.to_set().insert(k).contains(x) by {
        vstd::seq_lib::lemma_seq_contains_after_push(list, k, x);
    }
    assert(list.push(k).to_set() =~= list.to_set().insert(k));
    if list.no_duplicates() && !list.to_set().contains(k) {
        assert forall|i: int, j: int|
            0 <= i < list.push(k).len() && 0 <= j < list.push(k).len() && i != j implies list.push(
            k,
        )[i] != list.push(k)[j] by {
            if i == list.len() {
                assert(list.to_set().contains(list[j]));
            }
            if j == list.len() {
                assert(list.to_set().contains(list[i]));
            }
        }
    }
}

/// What is left of a map while its keys are walked and some of them are dropped.
pub open spec fn kept<K, V>(
    m: Map<K, V>,
    walked: Seq<K>,
    dropped: spec_fn(K) -> bool,
) -> Map<K, V> {
    m.filter_keys(|k: K| !walked.contains(k) || !dropped(k))
}

/// Before the walk everything is left.
pub proof fn walk_begins<K, V>(m: Map<K, V>, keys: Seq<K>, dropped: spec_fn(K) -> bool)
    ensures
        kept(m, keys.take(0), dropped) == m,
        m.dom().difference(kept(m, keys.take(0), dropped).dom()) == Set::<K>::empty(),
{
    assert(kept(m, keys.take(0), dropped) =~= m);
    assert(m.dom().difference(m.dom()) =~= Set::<K>::empty());
}

/// One step of the walk: the next key is still there, and is gone afterwards if it is dropped.
pub proof fn walk_goes_on<K, V>(
    m: Map<K, V>,
    keys: Seq<K>,
    i: int,
    dropped: spec_fn(K) -> bool,
)
    requires
        lists(keys, m.dom()),
        0 <= i < keys.len(),
    ensures
        ({
            let before = kept(m, keys.take(i), dropped);
            let after = kept(m, keys.take(i + 1), dropped);
            &&& before.contains_key(keys[i])
            &&& before[keys[i]] == m[keys[i]]
            &&& dropped(keys[i]) ==> after == before.remove(keys[i]) && m.dom().difference(
                after.dom(),
            ) == m.dom().difference(before.dom()).insert(keys[i])
            &&& !dropped(keys[i]) ==> after == before
        }),
{
    let before = kept(m, keys.take(i), dropped);
    let after = kept(m, keys.take(i + 1), dropped);
    let key = keys[i];
    assert(keys.to_set().contains(key));
    assert(keys.take(i + 1) == keys.take(i).push(key));
    assert(!keys.take(i).contains(key));
    assert forall|k: K| #[trigger]
        keys.take(i + 1).contains(k) == (keys.take(i).contains(k) || k == key) by {
        vstd::seq_lib::lemma_seq_contains_after_push(keys.take(i), key, k);
    }
    if dropped(key) {
        assert(after =~= before.remove(key));
        assert(m.dom().difference(after.dom()) =~= m.dom().difference(before.dom()).insert(key));
    } else {
        assert(after =~= before);
    }
}

/// After the walk just what is not dropped is left.
pub proof fn walk_ends<K, V>(m: Map<K, V>, keys: Seq<K>, dropped: spec_fn(K) -> bool)
    requires
        lists(keys, m.dom()),
    ensures
        kept(m, keys.take(keys.len() as int), dropped) == m.filter_keys(|k: K| !dropped(k)),
{
    assert(keys.take(keys.len() as int) == keys);
    assert forall|k: K| #[trigger] m.dom().contains(k) implies keys.contains(k) by {
        assert(keys.to_set().contains(k));
    }
    assert(kept(m, keys, dropped) =~= m.filter_keys(|k: K| !dropped(k)));
}

/// The keys of a hash map, in whatever order it is walked.
pub fn keys_of<K: Copy + Eq + Hash, V>(m: &HashMap<K, V>) -> (r: Vec<K>)
    requires
        vstd::std_specs::hash::obeys_key_model::<K>(),
    ensures
        lists(r@, m@.dom()),
{
    let ghost keys = vstd::std_specs::iter::IteratorSpec::remaining(
        &vstd::std_specs::hash::spec_keys_iter(m),
    );
    let mut out: Vec<K> = Vec::new();
    for k in it: m.keys()
        invariant
            it.seq() == keys,
            out@ == keys.unref().take(it.index() as int),
    {
        out.push(*k);
    }
    proof {
        assert(keys.unref().take(keys.len() as int) == keys.unref());
        assert forall|i: int, j: int|
            0 <= i < out@.len() && 0 <= j < out@.len() && i != j implies out@[i] != out@[j] by {
            assert(*keys[i] == out@[i] && *keys[j] == out@[j]);
        }
    }
    out
}

/// A set with the same numbers.
pub fn copy_of(set: &HashSet<u32>) -> (r: HashSet<u32>)
    ensures
        r@ == set@,
{
    let ghost keys = vstd::std_specs::iter::IteratorSpec::remaining(
        &vstd::std_specs::hash::spec_hash_keys_iter(set),
    );
    let mut out: HashSet<u32> = HashSet::new();
    assert(keys.unref().take(0).to_set() =~= Set::<u32>::empty());
    for k in it: set.iter()
        invariant
            it.seq() == keys,
            out@ == keys.unref().take(it.index() as int).to_set(),
    {
        let ghost i = it.index() as int;
        out.insert(*k);
        assert(keys.unref().take(i + 1) =~= keys.unref().take(i).push(*k));
        proof {
            push_adds_to_set(keys.unref().take(i), *k);
        }
    }
    assert(keys.unref().take(keys.len() as int) == keys.unref());
    out
}

/// Whether each number is greater than those before it.
pub open spec fn ascending(list: Seq<u32>) -> bool {
    forall|i: int, j: int| 0 <= i < j < list.len() ==> list[i] < list[j]
}

proof fn increasing_is_ascending(list: Seq<u32>)
    requires
        vstd::std_specs::btree::increasing_seq(list),
    ensures
        ascending(list),
{
    assert(vstd::laws_cmp::obeys_cmp::<u32>());
    assert forall|i: int, j: int| 0 <= i < j < list.len() implies list[i] < list[j] by {
        assert(vstd::std_specs::cmp::OrdSpec::cmp_spec(&list[i], &list[j]) is Less);
    }
}

/// The keys of an ordered map, in their order.
pub fn sorted_keys_of<V>(m: &BTreeMap<u32, V>) -> (r: Vec<u32>)
    ensures
        ascending(r@),
        lists(r@, m@.dom()),
{
    let ghost entries = vstd::std_specs::iter::IteratorSpec::remaining(
        &vstd::std_specs::btree::spec_btree_map_iter(m),
    );
    let ghost keys = entries.map_values(|kv: (&u32, &V)| *kv.0);
    let mut out: Vec<u32> = Vec::new();
    for kv in it: m.iter()
        invariant
            it.seq() == entries,
            keys == entries.map_values(|kv: (&u32, &V)| *kv.0),
            out@ == keys.take(it.index() as int),
    {
        out.push(*kv.0);
    }
    assert(keys.take(keys.len() as int) == keys);
    proof {
        increasing_is_ascending(keys);
    }
    assert(keys.to_set() =~= m@.dom()) by {
        assert forall|k: u32| m@.dom().contains(k) implies keys.to_set().contains(k) by {
            assert(m@.contains_key(k));
            let i = choose|i: int| 0 <= i < entries.len() && entries[i] == (&k, &m@[k]);
            assert(keys[i] == k);
        }
        assert forall|k: u32| keys.to_set().contains(k) implies m@.dom().contains(k) by {
            let i = choose|i: int| 0 <= i < keys.len() && keys[i] == k;
            assert(m@.contains_key(*entries[i].0));
        }
    }
    out
}

/// A list of a set holds all of it and nothing else, each once.
pub proof fn list_holds_the_set<K>(list: Seq<K>, set: Set<K>, k: K, i: int, j: int)
    requires
        lists(list, set),
    ensures
        set.contains(k) <==> list.contains(k),
        list.len() == set.len(),
        0 <= i < j < list.len() ==> list[i] != list[j],
{
    assert(list.to_set().contains(k) <==> list.contains(k));
}

/// In an ascending list no number comes before a smaller one or twice.
pub proof fn ascending_goes_up(list: Seq<u32>, i: int, j: int)
    requires
        ascending(list),
        0 <= i < j < list.len(),
    ensures
        list[i] < list[j],
{
}

} // verus!
