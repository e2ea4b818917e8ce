//! Fundamental helper functions.

use std::collections::{HashMap, HashSet};
use std::hash::Hash;
use vstd::prelude::*;
use vstd::std_specs::hash::obeys_key_model;
use vstd::std_specs::hash::spec_hash_keys_iter;
use vstd::std_specs::hash::spec_hash_map_iter;
use vstd::std_specs::iter::IteratorSpec;

verus! {

broadcast use vstd::std_specs::hash::group_hash_axioms;

/// Taking one more element of a sequence adds that element to the set of
/// those taken.
pub proof fn lemma_take_one_more<T>(s: Seq<T>, k: int)
    requires
        0 <= k < s.len(),
    ensures
        s.take(k + 1).to_set() == s.take(k).to_set().insert(s[k]),
{
    let grown = s.take(k + 1);
    let short = s.take(k);
    assert forall|x: T| grown.to_set().contains(x) <==> short.to_set().insert(s[k]).contains(
        x,
    ) by {
        if grown.to_set().contains(x) {
            let w = choose|w: int| 0 <= w < grown.len() && grown[w] == x;
            if w < k {
                assert(short[w] == x);
            }
        }
        if short.to_set().contains(x) {
            let w = choose|w: int| 0 <= w < short.len() && short[w] == x;
            assert(grown[w] == x);
        }
        if x == s[k] {
            assert(grown[k] == x);
        }
    }
    assert(grown.to_set() =~= short.to_set().insert(s[k]));
}

/// The members of a set, each once, in the order in which the set hands
/// them out.
pub fn set_members<K: Copy + Eq + Hash>(set: &HashSet<K>) -> (members: Vec<K>)
    requires
        obeys_key_model::<K>(),
    ensures
        members@.no_duplicates(),
        members@.to_set() == set@,
{
    let mut members: Vec<K> = Vec::new();
    for member in it: set.iter()
        invariant
            it.seq() == spec_hash_keys_iter(set).remaining(),
            members@.len() == it.index(),
            forall|i: int| 0 <= i < members@.len() ==> members@[i] == *it.seq()[i],
    {
        members.push(*member);
    }
    proof {
        let walked = spec_hash_keys_iter(set).remaining();
        assert(members@ =~= walked.unref());
        assert forall|i: int, j: int| 0 <= i < j < members@.len() implies members@[i]
            != members@[j] by {
            assert(walked[i] != walked[j]);
        }
    }
    members
}

/// The keys of a map, each once, in the order in which the map hands them
/// out.
pub fn map_keys<V>(map: &HashMap<u32, V>) -> (ids: Vec<u32>)
    ensures
        ids@.no_duplicates(),
        ids@.to_set() == map@.dom(),
{
    let mut ids: Vec<u32> = Vec::new();
    for entry in it: map.iter()
        invariant
            it.seq() == spec_hash_map_iter(map).remaining(),
            ids@.len() == it.index(),
            forall|i: int| 0 <= i < ids@.len() ==> ids@[i] == *it.seq()[i].0,
    {
        ids.push(*entry.0);
    }
    proof {
        let walked = spec_hash_map_iter(map).remaining();
        assert forall|i: int, j: int| 0 <= i < j < ids@.len() implies ids@[i] != ids@[j] by {
            assert(walked[i] != walked[j]);
            assert(map@[*walked[i].0] == *walked[i].1);
            assert(map@[*walked[j].0] == *walked[j].1);
        }
        assert forall|id: u32| map@.dom().contains(id) implies ids@.to_set().contains(
            id,
        ) by {
            assert(map@.contains_key(id));
            assert(walked.contains((&id, &map@[id])));
            let i = choose|i: int| 0 <= i < walked.len() && walked[i] == (&id, &map@[id]);
            assert(ids@[i] == id);
        }
        assert forall|id: u32| ids@.to_set().contains(id) implies map@.dom().contains(
            id,
        ) by {
            let i = choose|i: int| 0 <= i < ids@.len() && ids@[i] == id;
            assert(map@.contains_key(*walked[i].0));
        }
        assert(ids@.to_set() =~= map@.dom());
    }
    ids
}


/// What `swap_remove` leaves: the last element takes the place of the one
/// removed.
pub open spec fn swap_removed<T>(v: Seq<T>, index: int) -> Seq<T> {
    v.update(index, v.last()).drop_last()
}

/// The first position at which `indices` holds `index`, if it holds it.
pub open spec fn first_position(indices: Seq<usize>, index: int) -> Option<int> {
    if holds(indices, index) {
        Some(choose|j: int| is_first_position(indices, index, j))
    } else {
        None
    }
}

/// `indices` holds `index` at some position.
pub open spec fn holds(indices: Seq<usize>, index: int) -> bool {
    exists|j: int| 0 <= j < indices.len() && indices[j] == index
}

/// `j` is the first position at which `indices` holds `index`.
pub open spec fn is_first_position(indices: Seq<usize>, index: int, j: int) -> bool {
    &&& 0 <= j < indices.len()
    &&& indices[j] == index
    &&& forall|k: int| 0 <= k < j ==> indices[k] != index
}

/// The indices after an element was removed at `removed` and the element at
/// `last` has taken its place: the first index that pointed to `last` now
/// points to `removed`.
pub open spec fn retargeted(indices: Seq<usize>, last: int, removed: usize) -> Seq<usize> {
    match first_position(indices, last) {
        Some(j) => indices.update(j, removed),
        None => indices,
    }
}

/// Retargeting keeps the number of indices.
pub proof fn lemma_retargeted_len(indices: Seq<usize>, last: int, removed: usize)
    ensures
        retargeted(indices, last, removed).len() == indices.len(),
{
    if holds(indices, last) {
        lemma_first_position_exists(indices, last);
    }
}

/// Where `indices` holds `index`, there is a first position at which it does.
pub proof fn lemma_first_position_exists(indices: Seq<usize>, index: int)
    requires
        holds(indices, index),
    ensures
        first_position(indices, index) matches Some(j) && is_first_position(indices, index, j),
    decreases indices.len(),
{
    if indices[0] == index {
        assert(is_first_position(indices, index, 0));
    } else {
        let rest = indices.drop_first();
        let w = choose|w: int| 0 <= w < indices.len() && indices[w] == index;
        assert(rest[w - 1] == index);
        lemma_first_position_exists(rest, index);
        let j = first_position(rest, index)->0;
        assert forall|k: int| 0 <= k < j + 1 implies indices[k] != index by {
            if k > 0 {
                assert(rest[k - 1] != index);
            }
        }
        assert(is_first_position(indices, index, j + 1));
    }
}

/// Each of the indices from position `from` on points into the vector at
/// the time it is reached, as `remove_multiple` goes through them.
pub open spec fn removal_in_bounds(len: int, indices: Seq<usize>, from: int) -> bool
    decreases indices.len() - from,
{
    if 0 <= from < indices.len() {
        &&& indices[from] < len
        &&& {
            proof {
                lemma_retargeted_len(indices, len - 1, indices[from]);
            }
            removal_in_bounds(len - 1, retargeted(indices, len - 1, indices[from]), from + 1)
        }
    } else {
        true
    }
}

/// The vector after `remove_multiple` has gone through the indices from
/// position `from` on: each in turn is removed by `swap_remove`, and the
/// indices are retargeted to follow the element that was moved.
pub open spec fn spec_remove_multiple<T>(v: Seq<T>, indices: Seq<usize>, from: int) -> Seq<T>
    decreases indices.len() - from,
{
    if 0 <= from < indices.len() {
        proof {
            lemma_retargeted_len(indices, v.len() - 1, indices[from]);
        }
        spec_remove_multiple(
            swap_removed(v, indices[from] as int),
            retargeted(indices, v.len() - 1, indices[from]),
            from + 1,
        )
    } else {
        v
    }
}

/// Indices in falling order, none of them twice and the first of them
/// within the vector, are all within the vector when they are reached:
/// what `swap_remove` moves lies beyond every index that is still to come.
pub proof fn lemma_falling_indices_in_bounds(len: int, indices: Seq<usize>, from: int)
    requires
        0 <= from <= indices.len(),
        from < indices.len() ==> indices[from] < len,
        forall|i: int, j: int| from <= i < j < indices.len() ==> indices[i] > indices[j],
    ensures
        removal_in_bounds(len, indices, from),
    decreases indices.len() - from,
{
    if from < indices.len() {
        let next = retargeted(indices, len - 1, indices[from]);
        lemma_retargeted_len(indices, len - 1, indices[from]);
        if holds(indices, len - 1) {
            lemma_first_position_exists(indices, len - 1);
            let first = first_position(indices, len - 1)->0;
            assert(first <= from) by {
                if first > from {
                    assert(indices[from] > indices[first]);
                }
            }
        }
        assert forall|i: int| from < i < indices.len() implies next[i] == indices[i] by {
        }
        if from + 1 < indices.len() {
            assert(indices[from] > indices[from + 1]);
        }
        lemma_falling_indices_in_bounds(len - 1, next, from + 1);
    }
}

/// `remove_multiple` takes out one element for each index.
pub proof fn lemma_remove_multiple_len<T>(v: Seq<T>, indices: Seq<usize>, from: int)
    requires
        0 <= from <= indices.len(),
        removal_in_bounds(v.len() as int, indices, from),
    ensures
        spec_remove_multiple(v, indices, from).len() == v.len() - (indices.len() - from),
    decreases indices.len() - from,
{
    if from < indices.len() {
        let next = retargeted(indices, v.len() - 1, indices[from]);
        lemma_retargeted_len(indices, v.len() - 1, indices[from]);
        lemma_remove_multiple_len(swap_removed(v, indices[from] as int), next, from + 1);
    }
}

/// Removes multiple elements from a vector, given a collection of indices to
/// remove.
///
/// The elements are taken out one at a time by `swap_remove`, which moves
/// the last element into the gap, and after each the first index that
/// pointed to the moved element is redirected to its new place.
pub fn remove_multiple<T>(vector: &mut Vec<T>, to_remove: &Vec<usize>)
    requires
        removal_in_bounds(old(vector)@.len() as int, to_remove@, 0),
    ensures
        final(vector)@ == spec_remove_multiple(old(vector)@, to_remove@, 0),
        final(vector)@.len() == old(vector)@.len() - to_remove@.len(),
{
    // As items are removed, their indices will change, so we have to keep
    // track of the new indices.
    let mut to_remove = to_remove.clone();
    let ghost given = to_remove@;
    proof {
        lemma_remove_multiple_len(vector@, given, 0);
    }
    let mut i_tr: usize = 0;
    while i_tr < to_remove.len()
        invariant
            i_tr <= to_remove@.len(),
            removal_in_bounds(vector@.len() as int, to_remove@, i_tr as int),
            spec_remove_multiple(vector@, to_remove@, i_tr as int) == spec_remove_multiple(
                old(vector)@,
                given,
                0,
            ),
        decreases to_remove@.len() - i_tr,
    {
        let index_last = vector.len() - 1;
        let tr = to_remove[i_tr];
        let ghost before = to_remove@;
        vector.swap_remove(tr);

        // Find and swap any corresponding to_remove entry: any index
        // pointing to the previously last item.
        let mut to_swap: Option<usize> = None;
        let mut j_tr: usize = 0;
        while j_tr < to_remove.len()
            invariant_except_break
                j_tr <= to_remove@.len(),
                to_swap is None,
                forall|k: int| 0 <= k < j_tr ==> to_remove@[k] != index_last,
            ensures
                match to_swap {
                    Some(j) => is_first_position(to_remove@, index_last as int, j as int),
                    None => !holds(to_remove@, index_last as int),
                },
            decreases to_remove@.len() - j_tr,
        {
            if to_remove[j_tr] == index_last {
                to_swap = Some(j_tr);
                break ;
            }
            j_tr += 1;
        }
        proof {
            if holds(to_remove@, index_last as int) {
                lemma_first_position_exists(to_remove@, index_last as int);
                let first = first_position(to_remove@, index_last as int)->0;
                let found = to_swap->0 as int;
                assert(first == found) by {
                    if first < found {
                        assert(to_remove@[first] != index_last);
                    }
                    if found < first {
                        assert(to_remove@[found] != index_last);
                    }
                }
            }
        }
        if let Some(to_swap) = to_swap {
            to_remove.set(to_swap, tr);
        }
        proof {
            assert(to_remove@ == retargeted(before, index_last as int, tr));
        }
        i_tr += 1;
    }
}

/// The elements of a slice as a set.
fn slice_to_set<T: Copy + Eq + Hash>(items: &[T]) -> (set: HashSet<T>)
    requires
        obeys_key_model::<T>(),
    ensures
        set@ == items@.to_set(),
{
    let mut set: HashSet<T> = HashSet::new();
    let mut i: usize = 0;
    proof {
        assert(items@.take(0).to_set() =~= Set::<T>::empty());
    }
    while i < items.len()
        invariant
            i <= items@.len(),
            obeys_key_model::<T>(),
            set@ == items@.take(i as int).to_set(),
        decreases items@.len() - i,
    {
        set.insert(items[i]);
        proof {
            lemma_take_one_more(items@, i as int);
        }
        i += 1;
    }
    proof {
        assert(items@.take(items@.len() as int) =~= items@);
    }
    set
}

/// Whether every member of `part` is a member of `whole`.
fn is_subset<T: Copy + Eq + Hash>(part: &HashSet<T>, whole: &HashSet<T>) -> (within: bool)
    requires
        obeys_key_model::<T>(),
    ensures
        within == part@.subset_of(whole@),
{
    let members = set_members(part);
    let mut i: usize = 0;
    while i < members.len()
        invariant
            i <= members@.len(),
            obeys_key_model::<T>(),
            members@.to_set() == part@,
            forall|k: int| 0 <= k < i ==> whole@.contains(members@[k]),
        decreases members@.len() - i,
    {
        if !whole.contains(&members[i]) {
            proof {
                assert(members@.to_set().contains(members@[i as int]));
            }
            return false;
        }
        i += 1;
    }
    proof {
        assert forall|x: T| part@.contains(x) implies whole@.contains(x) by {
            assert(members@.to_set().contains(x));
        }
    }
    true
}

/// Tests whether the given slices contain the same items, regardless of
/// order and of how often an item comes.
pub fn set_eq<T: Copy + Eq + Hash>(a: &[T], b: &[T]) -> (same: bool)
    requires
        obeys_key_model::<T>(),
    ensures
        same == (a@.to_set() == b@.to_set()),
{
    let a = slice_to_set(a);
    let b = slice_to_set(b);
    let same = is_subset(&a, &b) && is_subset(&b, &a);
    proof {
        if same {
            assert(a@ =~= b@);
        }
    }
    same
}

} // verus!
