use std::collections::HashMap;
use vstd::prelude::*;

verus! {

broadcast use vstd::std_specs::hash::group_hash_axioms;

/// Whether `id` is the smallest positive integer that is not in `taken`.
pub open spec fn is_first_free(taken: Set<i32>, id: i32) -> bool {
    &&& 1 <= id
    &&& !taken.contains(id)
    &&& forall|k: i32| 1 <= k < id ==> taken.contains(k)
}

/// The smallest positive integer that is not in `taken`; none where every
/// positive integer is.
pub open spec fn first_free(taken: Set<i32>) -> Option<i32> {
    if exists|id: i32| is_first_free(taken, id) {
        Some(choose|id: i32| is_first_free(taken, id))
    } else {
        None
    }
}

/// There is one smallest free id at most.
pub proof fn lemma_first_free_is(taken: Set<i32>, id: i32)
    requires
        is_first_free(taken, id),
    ensures
        first_free(taken) == Some(id),
{
    let other = choose|id: i32| is_first_free(taken, id);
    if other < id {
        assert(taken.contains(other));
    } else if id < other {
        assert(taken.contains(id));
    }
}

/// An id that is handed out is positive and new, and no smaller positive id
/// is free: none is skipped. Asking again, with nothing taken in between,
/// gives the same id.
pub proof fn lemma_first_free_fresh(taken: Set<i32>)
    ensures
        match first_free(taken) {
            Some(id) => is_first_free(taken, id),
            None => forall|k: i32| 1 <= k ==> taken.contains(k),
        },
{
    if !exists|id: i32| is_first_free(taken, id) {
        assert forall|k: i32| 1 <= k implies taken.contains(k) by {
            lemma_all_taken(taken, k);
        }
    }
}

proof fn lemma_all_taken(taken: Set<i32>, k: i32)
    requires
        !exists|id: i32| is_first_free(taken, id),
        1 <= k,
    ensures
        forall|j: i32| 1 <= j <= k ==> taken.contains(j),
    decreases k,
{
    if k > 1 {
        lemma_all_taken(taken, (k - 1) as i32);
    }
    if !taken.contains(k) {
        assert(is_first_free(taken, k));
    }
}

/// The smallest positive key that the map does not hold, found by trying
/// 1, 2, 3 and so on.
pub fn smallest_unused<V>(m: &HashMap<i32, V>) -> (r: Option<i32>)
    ensures
        r == first_free(m@.dom()),
{
    let mut key: i32 = 1;
    loop
        invariant
            1 <= key,
            forall|k: i32| 1 <= k < key ==> m@.dom().contains(k),
        decreases i32::MAX - key,
    {
        if !m.contains_key(&key) {
            proof {
                lemma_first_free_is(m@.dom(), key);
            }
            return Some(key);
        }
        if key == i32::MAX {
            proof {
                lemma_first_free_fresh(m@.dom());
                if first_free(m@.dom()) is Some {
                    let id = first_free(m@.dom())->0;
                    assert(m@.dom().contains(id));
                }
            }
            return None;
        }
        key += 1;
    }
}

} // verus!
