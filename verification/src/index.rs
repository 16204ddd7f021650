//! Operations on one account's list of identifiers.
//!
//! Membership is what the list means; its order is disturbed by removal.

use vstd::prelude::*;

verus! {

/// `i` is the position of the first occurrence of `id` in `list`.
pub open spec fn is_first_match(list: Seq<u32>, id: u32, i: int) -> bool {
    &&& 0 <= i < list.len()
    &&& list[i] == id
    &&& forall|j: int| 0 <= j < i ==> list[j] != id
}

/// The position of the first occurrence of `id` in `list`, where there is one.
pub open spec fn first_match(list: Seq<u32>, id: u32) -> int {
    choose|i: int| is_first_match(list, id, i)
}

/// `list` with the element at `i` replaced by the last one, and the last one dropped.
pub open spec fn swap_removed(list: Seq<u32>, i: int) -> Seq<u32> {
    list.update(i, list.last()).drop_last()
}

/// `list` without the first occurrence of `id`, removed by swapping in the last element.
pub open spec fn without_first(list: Seq<u32>, id: u32) -> Seq<u32> {
    swap_removed(list, first_match(list, id))
}

/// No identifier occurs twice in `list`.
pub open spec fn distinct(list: Seq<u32>) -> bool {
    forall|i: int, j: int| 0 <= i < j < list.len() ==> list[i] != list[j]
}

/// The first occurrence is unique: whatever position satisfies
/// `is_first_match` is the one `first_match` names.
pub proof fn lemma_first_match_unique(list: Seq<u32>, id: u32, i: int)
    requires
        is_first_match(list, id, i),
    ensures
        first_match(list, id) == i,
{
    let c = first_match(list, id);
    assert(is_first_match(list, id, c));
    if c < i {
        assert(list[c] != id);
    } else if i < c {
        assert(list[i] != id);
    }
}

/// A list that contains `id` has a first occurrence of it.
pub proof fn lemma_first_match_exists(list: Seq<u32>, id: u32)
    requires
        list.contains(id),
    ensures
        is_first_match(list, id, first_match(list, id)),
    decreases list.len(),
{
    let k = choose|k: int| 0 <= k < list.len() && list[k] == id;
    if exists|j: int| 0 <= j < k && list[j] == id {
        let j = choose|j: int| 0 <= j < k && list[j] == id;
        let shorter = list.subrange(0, k);
        assert(shorter[j] == id);
        lemma_first_match_exists(shorter, id);
        let f = first_match(shorter, id);
        assert(list[f] == shorter[f]);
        assert forall|m: int| 0 <= m < f implies list[m] != id by {
            assert(shorter[m] != id);
        }
        assert(is_first_match(list, id, f));
    } else {
        assert(is_first_match(list, id, k));
    }
}

/// Removing the first occurrence of `id` from a list without repetitions
/// leaves exactly the other members, still without repetitions.
pub proof fn lemma_without_first(list: Seq<u32>, id: u32)
    requires
        distinct(list),
        list.contains(id),
    ensures
        distinct(without_first(list, id)),
        !without_first(list, id).contains(id),
        without_first(list, id).len() == list.len() - 1,
        forall|x: u32| x != id ==> (without_first(list, id).contains(x) <==> list.contains(x)),
{
    lemma_first_match_exists(list, id);
    let i = first_match(list, id);
    let out = without_first(list, id);
    assert forall|a: int| 0 <= a < out.len() implies out[a] != id && list.contains(#[trigger] out[a]) by {
        if a == i {
            assert(out[a] == list[list.len() - 1]);
        } else {
            assert(out[a] == list[a]);
        }
    }
    assert forall|x: u32| x != id && list.contains(x) implies out.contains(x) by {
        let k = choose|k: int| 0 <= k < list.len() && list[k] == x;
        if k == list.len() - 1 {
            assert(out[i] == x);
        } else {
            assert(out[k] == x);
        }
    }
    assert forall|a: int, b: int| 0 <= a < b < out.len() implies out[a] != out[b] by {
        let pa = if a == i { list.len() - 1 } else { a };
        let pb = if b == i { list.len() - 1 } else { b };
        assert(out[a] == list[pa] && out[b] == list[pb]);
    }
}

/// The position of the first element of `list` equal to `id`, or `None` where
/// `id` does not occur.
pub fn position(list: &Vec<u32>, id: u32) -> (r: Option<usize>)
    ensures
        match r {
            Some(i) => is_first_match(list@, id, i as int),
            None => !list@.contains(id),
        },
{
    let mut i: usize = 0;
    while i < list.len()
        invariant
            i <= list.len(),
            forall|j: int| 0 <= j < i ==> list@[j] != id,
        decreases list.len() - i,
    {
        if list[i] == id {
            return Some(i);
        }
        i += 1;
    }
    None
}

/// Removes the first occurrence of `id` from `list` by moving the last
/// element into its place. Returns whether `id` was found; a list without
/// `id` is left as it was.
pub fn remove_first_match(list: &mut Vec<u32>, id: u32) -> (found: bool)
    ensures
        found == old(list)@.contains(id),
        found ==> final(list)@ == without_first(old(list)@, id),
        !found ==> final(list)@ == old(list)@,
{
    match position(list, id) {
        Some(i) => {
            proof {
                lemma_first_match_unique(list@, id, i as int);
            }
            list.swap_remove(i);
            true
        },
        None => false,
    }
}

} // verus!
