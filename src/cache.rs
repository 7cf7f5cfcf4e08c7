//! The interning cache.
use crate::dense::{
    debug_text, items, store_clone, store_count, store_debug, store_eq, store_from_vec,
    store_get, store_is_empty, store_len, store_new, store_push, store_with_capacity, views,
    DenseStore,
};
use crate::model::{first_duplicate, id_of, interned, lemma_id_of_position, valid, value_at};
use vstd::hash_map::StringHashMap;
use vstd::prelude::*;

verus! {

/// Assigns sequential ids to unique strings: the first new string gets id 0, the next 1, and
/// so on. Interning a string that is already present gives back its id.
pub struct IdCache {
    id_to_value: DenseStore,
    value_to_id: StringHashMap<u32>,
}

/// Why an external sequence of values does not decode to a cache.
#[derive(Debug, Clone, PartialEq, Eq)]
pub enum DecodeError {
    /// The sequence has more values than there are `u32` ids.
    TooManyValues,
    /// The value at position `duplicate` equals the one at the earlier position `first`.
    DuplicateValue { first: u32, duplicate: u32 },
}

/// `m` maps each value of `vals` to its position, and nothing else.
spec fn indexes(vals: Seq<Seq<char>>, m: Map<Seq<char>, u32>) -> bool {
    &&& forall|k: Seq<char>| #[trigger]
        m.contains_key(k) ==> m[k] < vals.len() && vals[m[k] as int] == k
    &&& forall|j: int| 0 <= j < vals.len() ==> #[trigger] m.contains_key(vals[j]) && m[vals[j]] == j
}

impl View for IdCache {
    type V = Seq<Seq<char>>;

    closed spec fn view(&self) -> Seq<Seq<char>> {
        items(self.id_to_value)
    }
}

/// Builds the reverse index of a store, or finds its first repeated value.
fn build_index(store: &DenseStore) -> (r: Result<StringHashMap<u32>, (u32, u32)>)
    requires
        items(*store).len() <= u32::MAX,
    ensures
        match r {
            Ok(m) => valid(items(*store)) && indexes(items(*store), m@),
            Err((first, duplicate)) => first_duplicate(
                items(*store),
                first as int,
                duplicate as int,
            ),
        },
{
    let ghost vals = items(*store);
    let n = store_len(store);
    let mut m: StringHashMap<u32> = StringHashMap::with_capacity(n);
    let mut i: usize = 0;
    while i < n
        invariant
            n == vals.len(),
            vals == items(*store),
            vals.len() <= u32::MAX,
            i <= n,
            vals.take(i as int).no_duplicates(),
            forall|k: Seq<char>| #[trigger]
                m@.contains_key(k) ==> m@[k] < i && vals[m@[k] as int] == k,
            forall|j: int| 0 <= j < i ==> #[trigger] m@.contains_key(vals[j]) && m@[vals[j]] == j,
        decreases n - i,
    {
        let id = i as u32;
        let value = match store_get(store, id) {
            Some(v) => v,
            None => {
                proof {
                    assert(false);
                }
                return Err((0, 0));
            },
        };
        match m.get(value.as_str()) {
            Some(first) => {
                let first = *first;
                return Err((first, id));
            },
            None => {
                proof {
                    let t = vals.take(i + 1);
                    assert forall|a: int, b: int|
                        0 <= a < t.len() && 0 <= b < t.len() && a != b implies #[trigger] t[a]
                        != #[trigger] t[b] by {
                        if a < i && b < i {
                            assert(vals.take(i as int)[a] == vals[a]);
                            assert(vals.take(i as int)[b] == vals[b]);
                        } else if a == i {
                            assert(m@.contains_key(vals[b]));
                        } else {
                            assert(m@.contains_key(vals[a]));
                        }
                    }
                }
                m.insert(value.clone(), id);
            },
        }
        i = i + 1;
    }
    proof {
        assert(vals.take(n as int) =~= vals);
    }
    Ok(m)
}

impl IdCache {
    /// The two structures agree: the index maps each value to its id and nothing else, and
    /// the values are distinct with every id fitting in `u32`.
    pub closed spec fn wf(&self) -> bool {
        &&& valid(self@)
        &&& indexes(self@, self.value_to_id@)
    }

    /// Constructs a new, empty cache.
    pub fn new() -> (r: Self)
        ensures
            r.wf(),
            r@ == Seq::<Seq<char>>::empty(),
    {
        IdCache { id_to_value: store_new(), value_to_id: StringHashMap::new() }
    }

    /// Constructs a new, empty cache with room for at least `capacity` unique values.
    pub fn with_capacity(capacity: usize) -> (r: Self)
        ensures
            r.wf(),
            r@ == Seq::<Seq<char>>::empty(),
    {
        IdCache {
            id_to_value: store_with_capacity(capacity),
            value_to_id: StringHashMap::with_capacity(capacity),
        }
    }

    /// Rebuilds a cache from its values in id order, rejecting a sequence that is too long
    /// for `u32` ids or that holds a value twice.
    pub fn from_values(values: Vec<String>) -> (r: Result<Self, DecodeError>)
        ensures
            r is Ok <==> valid(views(values@)),
            match r {
                Ok(c) => c.wf() && c@ == views(values@),
                Err(DecodeError::TooManyValues) => values@.len() > u32::MAX,
                Err(DecodeError::DuplicateValue { first, duplicate }) => values@.len()
                    <= u32::MAX && first_duplicate(
                    views(values@),
                    first as int,
                    duplicate as int,
                ),
            },
    {
        if values.len() > u32::MAX as usize {
            return Err(DecodeError::TooManyValues);
        }
        let id_to_value = store_from_vec(values);
        match build_index(&id_to_value) {
            Ok(value_to_id) => Ok(IdCache { id_to_value, value_to_id }),
            Err((first, duplicate)) => Err(DecodeError::DuplicateValue { first, duplicate }),
        }
    }

    /// The values in id order, id 0 first.
    pub fn to_values(&self) -> (r: Vec<String>)
        requires
            self.wf(),
        ensures
            views(r@) == self@,
    {
        let n = store_len(&self.id_to_value);
        let mut out: Vec<String> = Vec::with_capacity(n);
        let mut i: usize = 0;
        while i < n
            invariant
                self.wf(),
                n == self@.len(),
                i <= n,
                views(out@) == self@.take(i as int),
            decreases n - i,
        {
            match store_get(&self.id_to_value, i as u32) {
                Some(v) => {
                    out.push(v.clone());
                },
                None => {
                    proof {
                        assert(false);
                    }
                },
            }
            proof {
                assert(self@.take(i + 1) =~= self@.take(i as int).push(self@[i as int]));
                assert(views(out@) =~= views(out@.drop_last()).push(out@.last()@));
            }
            i = i + 1;
        }
        proof {
            assert(self@.take(n as int) =~= self@);
        }
        out
    }

    /// Returns the id of `value`, assigning the next id to it if it is not present yet. A value
    /// equal to one already present is dropped, and the earlier one is kept.
    pub fn make_id(&mut self, value: String) -> (r: u32)
        requires
            old(self).wf(),
            old(self)@.contains(value@) || old(self)@.len() < u32::MAX,
        ensures
            final(self).wf(),
            final(self)@ == interned(old(self)@, value@),
            id_of(final(self)@, value@) == Some(r),
    {
        match self.value_to_id.get(value.as_str()) {
            Some(id) => {
                let id = *id;
                proof {
                    assert(self@.contains(value@));
                    lemma_id_of_position(self@, id as int);
                }
                id
            },
            None => {
                let ghost vals = self@;
                proof {
                    assert(!vals.contains(value@));
                }
                let key = value.clone();
                let id = store_push(&mut self.id_to_value, value);
                self.value_to_id.insert(key, id);
                proof {
                    let nv = self@;
                    assert(nv == vals.push(key@));
                    assert(nv.no_duplicates()) by {
                        assert forall|a: int, b: int|
                            0 <= a < nv.len() && 0 <= b < nv.len() && a != b implies #[trigger] nv[a]
                            != #[trigger] nv[b] by {
                            if a < vals.len() && b < vals.len() {
                            } else if a == vals.len() {
                                assert(vals.contains(vals[b]));
                            } else {
                                assert(vals.contains(vals[a]));
                            }
                        }
                    }
                    assert(indexes(nv, self.value_to_id@));
                    lemma_id_of_position(nv, id as int);
                }
                id
            },
        }
    }

    /// Returns the id of `value`, or `None` if it is not present.
    pub fn get_id(&self, value: &str) -> (r: Option<u32>)
        requires
            self.wf(),
        ensures
            r == id_of(self@, value@),
    {
        match self.value_to_id.get(value) {
            Some(id) => {
                proof {
                    lemma_id_of_position(self@, *id as int);
                }
                Some(*id)
            },
            None => {
                proof {
                    if self@.contains(value@) {
                        let j = choose|j: int| 0 <= j < self@.len() && self@[j] == value@;
                        assert(self.value_to_id@.contains_key(self@[j]));
                    }
                }
                None
            },
        }
    }

    /// Returns the value under `id`, or `None` if that id has not been assigned.
    pub fn get_value(&self, id: u32) -> (r: Option<&String>)
        requires
            self.wf(),
        ensures
            match r {
                Some(v) => value_at(self@, id) == Some(v@),
                None => value_at(self@, id) is None,
            },
    {
        store_get(&self.id_to_value, id)
    }

    /// Returns the value under `id`, which must have been assigned.
    pub fn index(&self, id: u32) -> (r: &String)
        requires
            self.wf(),
            id < self@.len(),
        ensures
            value_at(self@, id) == Some(r@),
    {
        match store_get(&self.id_to_value, id) {
            Some(v) => v,
            None => {
                proof {
                    assert(false);
                }
                unreached()
            },
        }
    }

    /// The number of ids assigned so far.
    pub fn count(&self) -> (r: u32)
        requires
            self.wf(),
        ensures
            r == self@.len(),
    {
        store_count(&self.id_to_value)
    }

    /// The number of unique values.
    pub fn len(&self) -> (r: usize)
        ensures
            r == self@.len(),
    {
        store_len(&self.id_to_value)
    }

    /// Whether no value has been interned.
    pub fn is_empty(&self) -> (r: bool)
        ensures
            r == (self@.len() == 0),
    {
        store_is_empty(&self.id_to_value)
    }
}

impl IdCache {
    /// The values by id, as `IdVec`'s `Debug` writes them; the reverse index does not appear.
    pub fn debug_string(&self) -> (r: String)
        ensures
            r@ == debug_text(self@),
    {
        store_debug(&self.id_to_value)
    }

    /// A well-formed cache holds distinct values, and each id fits in `u32`.
    pub proof fn lemma_wf_valid(&self)
        requires
            self.wf(),
        ensures
            valid(self@),
    {
    }
}

impl Clone for IdCache {
    /// An independent copy with the same values under the same ids.
    fn clone(&self) -> (r: Self)
        ensures
            r@ == self@,
            self.wf() ==> r.wf(),
    {
        let id_to_value = store_clone(&self.id_to_value);
        if store_len(&id_to_value) <= u32::MAX as usize {
            if let Ok(value_to_id) = build_index(&id_to_value) {
                return IdCache { id_to_value, value_to_id };
            }
        }
        IdCache { id_to_value, value_to_id: StringHashMap::new() }
    }
}

impl PartialEq for IdCache {
    /// Two caches are equal when they hold equal values under the same ids.
    fn eq(&self, other: &Self) -> (r: bool)
        ensures
            r == (self@ == other@),
    {
        store_eq(&self.id_to_value, &other.id_to_value)
    }
}

impl vstd::std_specs::cmp::PartialEqSpecImpl for IdCache {
    open spec fn obeys_eq_spec() -> bool {
        true
    }

    open spec fn eq_spec(&self, other: &IdCache) -> bool {
        self@ == other@
    }
}

impl Eq for IdCache {

}

impl Default for IdCache {
    fn default() -> (r: Self)
        ensures
            r.wf(),
            r@ == Seq::<Seq<char>>::empty(),
    {
        IdCache::new()
    }
}

} // verus!
