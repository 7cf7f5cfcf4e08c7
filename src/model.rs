//! The mathematical model of a cache: the sequence of its values in id order.
use vstd::prelude::*;

verus! {

/// A sequence of values that a cache can hold: no value twice, and every id fits in `u32`.
pub open spec fn valid(vals: Seq<Seq<char>>) -> bool {
    &&& vals.no_duplicates()
    &&& vals.len() <= u32::MAX
}

/// The id of `v` among `vals`: its position, if it occurs.
pub open spec fn id_of(vals: Seq<Seq<char>>, v: Seq<char>) -> Option<u32> {
    if vals.contains(v) {
        Some((choose|i: int| 0 <= i < vals.len() && vals[i] == v) as u32)
    } else {
        None
    }
}

/// The value under `id`, if that id has been assigned.
pub open spec fn value_at(vals: Seq<Seq<char>>, id: u32) -> Option<Seq<char>> {
    if id < vals.len() {
        Some(vals[id as int])
    } else {
        None
    }
}

/// The values after interning `v`: unchanged if `v` is present, else `v` appended.
pub open spec fn interned(vals: Seq<Seq<char>>, v: Seq<char>) -> Seq<Seq<char>> {
    if vals.contains(v) {
        vals
    } else {
        vals.push(v)
    }
}

/// The values after interning each of `vs` in order.
pub open spec fn interned_all(vals: Seq<Seq<char>>, vs: Seq<Seq<char>>) -> Seq<Seq<char>>
    decreases vs.len(),
{
    if vs.len() == 0 {
        vals
    } else {
        interned(interned_all(vals, vs.drop_last()), vs.last())
    }
}

/// `duplicate` is the first position whose value occurs earlier, and `first` is that earlier
/// position.
pub open spec fn first_duplicate(vals: Seq<Seq<char>>, first: int, duplicate: int) -> bool {
    &&& 0 <= first < duplicate < vals.len()
    &&& vals[first] == vals[duplicate]
    &&& vals.take(duplicate).no_duplicates()
}

/// In a sequence without duplicates, the id of the value at position `i` is `i`.
pub proof fn lemma_id_of_position(vals: Seq<Seq<char>>, i: int)
    requires
        valid(vals),
        0 <= i < vals.len(),
    ensures
        id_of(vals, vals[i]) == Some(i as u32),
{
    assert(vals.contains(vals[i]));
    let j = choose|j: int| 0 <= j < vals.len() && vals[j] == vals[i];
    assert(j == i);
}

} // verus!
