//! The dense id-indexed store behind a cache: an `id_collections::IdVec<u32, String>`.
use id_collections::IdVec;
use vstd::prelude::*;

verus! {

/// An append-only vector of strings indexed by sequential `u32` ids.
#[verifier::external_body]
pub struct DenseStore {
    inner: IdVec<u32, String>,
}

/// The strings held by a store, in id order.
pub uninterp spec fn items(s: DenseStore) -> Seq<Seq<char>>;

/// The views of a sequence of strings.
pub open spec fn views(v: Seq<String>) -> Seq<Seq<char>> {
    v.map_values(|s: String| s@)
}

/// Relies on `IdVec::new`: a new vector holds nothing.
#[verifier::external_body]
pub(crate) fn store_new() -> (r: DenseStore)
    ensures
        items(r) == Seq::<Seq<char>>::empty(),
{
    DenseStore { inner: IdVec::new() }
}

/// Relies on `IdVec::with_capacity`: a new vector holds nothing, whatever its capacity.
#[verifier::external_body]
pub(crate) fn store_with_capacity(capacity: usize) -> (r: DenseStore)
    ensures
        items(r) == Seq::<Seq<char>>::empty(),
{
    DenseStore { inner: IdVec::with_capacity(capacity) }
}

/// Relies on `IdVec::from_vec`: the vector holds the given items in order, id `i` at
/// position `i`. It panics when the length does not fit in `u32`.
#[verifier::external_body]
pub(crate) fn store_from_vec(v: Vec<String>) -> (r: DenseStore)
    requires
        v@.len() <= u32::MAX,
    ensures
        items(r) == views(v@),
{
    DenseStore { inner: IdVec::from_vec(v) }
}

/// Relies on `IdVec::len`: the number of items.
#[verifier::external_body]
pub(crate) fn store_len(s: &DenseStore) -> (r: usize)
    ensures
        r == items(*s).len(),
{
    s.inner.len()
}

/// Relies on `IdVec::is_empty`: whether there are no items.
#[verifier::external_body]
pub(crate) fn store_is_empty(s: &DenseStore) -> (r: bool)
    ensures
        r == (items(*s).len() == 0),
{
    s.inner.is_empty()
}

/// Relies on `IdVec::count` and `Count::to_value`: the number of assigned ids. The count is
/// built from the length with an unchecked conversion, so the length must fit in `u32`.
#[verifier::external_body]
pub(crate) fn store_count(s: &DenseStore) -> (r: u32)
    requires
        items(*s).len() <= u32::MAX,
    ensures
        r == items(*s).len(),
{
    s.inner.count().to_value()
}

/// Relies on `IdVec::push`: appends the value under the next id, the old length, and returns
/// that id. It panics when the id after it would not fit in `u32`.
#[verifier::external_body]
pub(crate) fn store_push(s: &mut DenseStore, value: String) -> (r: u32)
    requires
        items(*old(s)).len() < u32::MAX,
    ensures
        r == items(*old(s)).len(),
        items(*final(s)) == items(*old(s)).push(value@),
{
    s.inner.push(value)
}

/// Relies on `IdVec::get`: the item under `id`, if that id has been assigned.
#[verifier::external_body]
pub(crate) fn store_get(s: &DenseStore, id: u32) -> (r: Option<&String>)
    ensures
        match r {
            Some(v) => id < items(*s).len() && v@ == items(*s)[id as int],
            None => id >= items(*s).len(),
        },
{
    s.inner.get(id)
}

/// Relies on `IdVec`'s `PartialEq`: two vectors are equal when their items are, id by id.
#[verifier::external_body]
pub(crate) fn store_eq(a: &DenseStore, b: &DenseStore) -> (r: bool)
    ensures
        r == (items(*a) == items(*b)),
{
    a.inner == b.inner
}

/// Relies on `IdVec`'s `Clone`: the copy holds clones of the same strings, in the same order.
#[verifier::external_body]
pub(crate) fn store_clone(s: &DenseStore) -> (r: DenseStore)
    ensures
        items(r) == items(*s),
{
    DenseStore { inner: s.inner.clone() }
}

/// The text that `IdVec`'s `Debug` writes for these items: a map from each id to its value.
pub uninterp spec fn debug_text(vals: Seq<Seq<char>>) -> Seq<char>;

/// Relies on `IdVec`'s `Debug`: it writes the ids and their values, which depend on the items
/// alone.
#[verifier::external_body]
pub(crate) fn store_debug(s: &DenseStore) -> (r: String)
    ensures
        r@ == debug_text(items(*s)),
{
    format!("{:?}", s.inner)
}

} // verus!
