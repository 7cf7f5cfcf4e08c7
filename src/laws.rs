//! Laws that relate the cache's operations to one another.
use crate::cache::IdCache;
use crate::dense::views;
use crate::model::{id_of, interned, interned_all, lemma_id_of_position, valid, value_at};
use vstd::prelude::*;

verus! {

/// In a well-formed cache (and every cache that `new`, `make_id` and `from_values` produce is
/// one), the value under an assigned id is present, and looking it up gives that id back.
pub proof fn lemma_id_value_round_trip(c: &IdCache, id: u32)
    requires
        c.wf(),
        id < c@.len(),
    ensures
        value_at(c@, id) == Some(c@[id as int]),
        id_of(c@, c@[id as int]) == Some(id),
{
    c.lemma_wf_valid();
    lemma_id_of_position(c@, id as int);
}

/// Interning a value a second time changes nothing and gives the same id; a value that was
/// absent adds exactly one entry over both calls.
pub proof fn lemma_intern_twice(vals: Seq<Seq<char>>, v: Seq<char>)
    ensures
        interned(interned(vals, v), v) == interned(vals, v),
        id_of(interned(interned(vals, v), v), v) == id_of(interned(vals, v), v),
        !vals.contains(v) ==> interned(interned(vals, v), v).len() == vals.len() + 1,
{
    if !vals.contains(v) {
        assert(vals.push(v)[vals.len() as int] == v);
        assert(vals.push(v).contains(v));
    }
}

/// Interning pairwise distinct values into an empty cache stores them in call order, so
/// the `k`-th call gets id `k` and the count equals the number of calls.
pub proof fn lemma_distinct_interns_dense(vs: Seq<Seq<char>>)
    requires
        vs.no_duplicates(),
        vs.len() <= u32::MAX,
    ensures
        interned_all(Seq::empty(), vs) == vs,
        forall|i: int| 0 <= i < vs.len() ==> id_of(vs, #[trigger] vs[i]) == Some(i as u32),
    decreases vs.len(),
{
    if vs.len() > 0 {
        let prefix = vs.drop_last();
        assert(prefix.no_duplicates()) by {
            assert forall|a: int, b: int|
                0 <= a < prefix.len() && 0 <= b < prefix.len() && a != b implies #[trigger] prefix[a]
                != #[trigger] prefix[b] by {
                assert(prefix[a] == vs[a] && prefix[b] == vs[b]);
            }
        }
        lemma_distinct_interns_dense(prefix);
        assert(!prefix.contains(vs.last())) by {
            if prefix.contains(vs.last()) {
                let j = choose|j: int| 0 <= j < prefix.len() && prefix[j] == vs.last();
                assert(vs[j] == vs[vs.len() - 1]);
            }
        }
        assert(prefix.push(vs.last()) =~= vs);
    }
    assert forall|i: int| 0 <= i < vs.len() implies id_of(vs, #[trigger] vs[i]) == Some(i as u32) by {
        lemma_id_of_position(vs, i);
    }
}

/// The values that `to_values` hands out for a well-formed cache always decode: `from_values`
/// returns `Ok` with a cache equal to `c`.
pub proof fn lemma_encode_decode_round_trip(c: &IdCache, encoded: Seq<String>)
    requires
        c.wf(),
        views(encoded) == c@,
    ensures
        valid(views(encoded)),
{
    c.lemma_wf_valid();
}

/// A sequence that holds one value at two different positions never decodes.
pub proof fn lemma_duplicates_rejected(vals: Seq<Seq<char>>, i: int, j: int)
    requires
        0 <= i < vals.len(),
        0 <= j < vals.len(),
        i != j,
        vals[i] == vals[j],
    ensures
        !valid(vals),
{
}

} // verus!
