//! The sparse set: a backend that maps ids to slots, and two parallel dense
//! sequences, one of ids and one of values.
use crate::model::{swap_removed, swapped, SparseSetView};
use crate::sparse_storage::{batch_slots, SparseStorage, VecStorage};
use std::collections::{BTreeMap, HashMap};
use vstd::prelude::*;

verus! {

/// The bijection between backend entries and dense positions: the id at
/// position `i` has slot index `i + 1`, and every entry of the backend points
/// at the position where its id sits.
pub open spec fn slots_match<E>(slots: Map<E, usize>, ids: Seq<E>) -> bool {
    &&& forall|i: int|
        0 <= i < ids.len() ==> slots.contains_key(#[trigger] ids[i]) && slots[ids[i]] == i + 1
    &&& forall|id: E| #[trigger]
        slots.contains_key(id) ==> 1 <= slots[id] <= ids.len() && ids[slots[id] - 1] == id
}

/// Under the bijection no id occurs twice in the dense sequence, the ids in it
/// are those with an entry in the backend, and the entry of each is its
/// position plus one.
pub proof fn lemma_slots_match<E>(slots: Map<E, usize>, ids: Seq<E>)
    requires
        slots_match(slots, ids),
    ensures
        ids.no_duplicates(),
        forall|id: E| ids.contains(id) <==> slots.contains_key(id),
        forall|id: E| #[trigger] ids.contains(id) ==> ids.index_of(id) + 1 == slots[id],
{
    assert forall|id: E| slots.contains_key(id) implies ids.contains(id) by {
        assert(ids[slots[id] - 1] == id);
    }
    assert forall|id: E| #[trigger] ids.contains(id) implies ids.index_of(id) + 1 == slots[id] by {
        let k = ids.index_of(id);
        assert(ids[k] == id);
    }
}

/// Registering a batch of fresh, distinct ids with consecutive slot indices
/// after the last one in use keeps the bijection, over the dense sequence with
/// the batch appended.
pub proof fn lemma_batch_slots_match<E>(slots: Map<E, usize>, ids: Seq<E>, batch: Seq<E>)
    requires
        slots_match(slots, ids),
        ids.len() + batch.len() <= usize::MAX,
        batch.no_duplicates(),
        forall|i: int| 0 <= i < batch.len() ==> !ids.contains(#[trigger] batch[i]),
    ensures
        slots_match(batch_slots(slots, batch, ids.len() as int + 1), ids + batch),
    decreases batch.len(),
{
    if batch.len() == 0 {
        assert(ids + batch =~= ids);
    } else {
        let front = batch.drop_last();
        let id = batch.last();
        lemma_batch_slots_match(slots, ids, front);
        let before = batch_slots(slots, front, ids.len() as int + 1);
        let after = batch_slots(slots, batch, ids.len() as int + 1);
        assert(ids + batch =~= (ids + front).push(id));
        assert(!before.contains_key(id)) by {
            if before.contains_key(id) {
                let k = before[id] - 1;
                assert((ids + front)[k] == id);
                if k < ids.len() {
                    assert(ids[k] == id);
                    assert(ids.contains(id));
                    assert(batch[batch.len() - 1] == id);
                } else {
                    assert(batch[k - ids.len()] == id);
                }
            }
        }
        assert forall|i: int| 0 <= i < (ids + batch).len() implies after.contains_key(
            #[trigger] (ids + batch)[i],
        ) && after[(ids + batch)[i]] == i + 1 by {
            if i < (ids + front).len() {
                assert((ids + batch)[i] == (ids + front)[i]);
            }
        }
    }
}

/// Values addressed by id, packed densely.
#[derive(Debug, Clone)]
pub struct SparseSet<E, T, S> {
    sparse: S,
    dense: Vec<E>,
    data: Vec<T>,
}

/// SparseSet with `Vec` as SparseStorage
pub type SparseSetVec<E, T> = SparseSet<E, T, VecStorage<E>>;

/// SparseSet with `HashMap` as SparseStorage
pub type SparseSetHashMap<E, T> = SparseSet<E, T, HashMap<E, usize>>;

/// SparseSet with `BTreeMap` as SparseStorage
pub type SparseSetBTreeMap<E, T> = SparseSet<E, T, BTreeMap<E, usize>>;

impl<E, T, S> View for SparseSet<E, T, S> {
    type V = SparseSetView<E, T>;

    closed spec fn view(&self) -> SparseSetView<E, T> {
        SparseSetView { ids: self.dense@, data: self.data@ }
    }
}

impl<E, T, S> SparseSet<E, T, S> where E: Copy, S: SparseStorage<EntityId = E> {
    /// The backend of the set.
    pub closed spec fn storage(&self) -> S {
        self.sparse
    }

    /// The invariant of the set: a consistent backend, two dense sequences of
    /// one length, and the bijection between the backend's entries and the
    /// dense positions.
    pub open spec fn wf(&self) -> bool {
        &&& self.storage().wf()
        &&& self@.ids.len() == self@.data.len()
        &&& self@.ids.len() <= usize::MAX
        &&& slots_match(self.storage().slots(), self@.ids)
    }

    /// A well-formed set has a well-formed model, its backend has an entry for
    /// exactly the ids of the model, and the slot index of each is its dense
    /// position plus one.
    pub proof fn lemma_view_wf(&self)
        requires
            self.wf(),
        ensures
            self@.wf(),
            forall|id: E| self@.contains(id) <==> self.storage().slots().contains_key(id),
            forall|id: E| #[trigger]
                self@.contains(id) ==> self@.get_index(id) is Some && self.storage().slots()[id]
                    == self@.get_index(id).unwrap() + 1,
    {
        lemma_slots_match(self.storage().slots(), self@.ids);
    }

    /// Create sparse set with sparse storage
    ///
    /// The storage handed in has no entry.
    pub fn with_storage(sparse_storage: S) -> (set: Self)
        requires
            sparse_storage.wf(),
            sparse_storage.slots() =~= Map::<E, usize>::empty(),
        ensures
            set.wf(),
            set.storage() == sparse_storage,
            set@ == SparseSetView::<E, T>::empty(),
    {
        SparseSet { sparse: sparse_storage, dense: Vec::new(), data: Vec::new() }
    }

    /// Clear the sparse set
    pub fn clear(&mut self)
        requires
            old(self).wf(),
        ensures
            final(self).wf(),
            final(self)@ == SparseSetView::<E, T>::empty(),
    {
        self.sparse.clear();
        self.dense.clear();
        self.data.clear();
    }

    /// Get the count of entities in sparse set
    pub fn len(&self) -> (n: usize)
        ensures
            n == self@.len(),
    {
        self.dense.len()
    }

    /// Check sparse set is empty
    pub fn is_empty(&self) -> (empty: bool)
        ensures
            empty == (self@.len() == 0),
    {
        self.dense.len() == 0
    }

    /// Check if the sparse set has id
    pub fn contains(&self, id: E) -> (present: bool)
        requires
            self.wf(),
        ensures
            present == self@.contains(id),
    {
        proof {
            self.lemma_view_wf();
        }
        self.sparse.get_index(id).is_some()
    }

    /// Get the index of the entity was given by `id` in sparse set
    /// # Returns
    /// Return None if sparse set doesn't contain this `id`
    pub fn get_index(&self, id: E) -> (index: Option<usize>)
        requires
            self.wf(),
        ensures
            index == self@.get_index(id),
            index matches Some(k) ==> k < self@.len() && self@.ids[k as int] == id,
    {
        proof {
            lemma_slots_match(self.sparse.slots(), self.dense@);
        }
        match self.sparse.get_index(id) {
            Some(slot) => Some(slot - 1),
            None => None,
        }
    }

    /// Get the Id from index
    /// # Return
    /// Return None if index is not valid
    pub fn get_id(&self, index: usize) -> (id: Option<E>)
        ensures
            id == self@.get_id(index as int),
    {
        if index < self.dense.len() {
            Some(self.dense[index])
        } else {
            None
        }
    }

    /// Get the reference of data by given `id`
    /// # Returns
    /// Return None if sparse set doesn't contain this `id`
    pub fn get(&self, id: E) -> (value: Option<&T>)
        requires
            self.wf(),
        ensures
            value == (match self@.get(id) {
                Some(v) => Some(&v),
                None => None,
            }),
    {
        match self.get_index(id) {
            Some(index) => Some(&self.data[index]),
            None => None,
        }
    }

    /// Get the slice of data
    pub fn data(&self) -> (values: &[T])
        ensures
            values@ == self@.data,
    {
        self.data.as_slice()
    }

    /// Get the slice of ID , or the dense array
    /// # Details
    /// There is no `ids_mut`: the mapping between the backend and the dense
    /// sequence is kept by the set, and a mutable slice of ids would let a
    /// caller break it.
    pub fn ids(&self) -> (ids: &[E])
        ensures
            ids@ == self@.ids,
    {
        self.dense.as_slice()
    }

    /// Insert the `dat` with `id` into sparse set
    /// # return
    /// It returns Some(T) if sparse set has this id ,
    /// otherwise returns None
    pub fn insert(&mut self, id: E, dat: T) -> (previous: Option<T>)
        requires
            old(self).wf(),
            !old(self)@.contains(id) ==> S::accepts(id) && old(self)@.len() < usize::MAX,
        ensures
            final(self).wf(),
            final(self)@ == old(self)@.insert(id, dat),
            previous == old(self)@.get(id),
    {
        proof {
            lemma_slots_match(self.sparse.slots(), self.dense@);
        }
        match self.sparse.get_index(id) {
            Some(slot) => {
                let mut dat = dat;
                let index: usize = slot - 1;
                core::mem::swap(&mut self.data[index], &mut dat);
                Some(dat)
            },
            None => {
                let new_index: usize = self.dense.len() + 1;
                self.sparse.set_index(id, Some(new_index));
                self.dense.push(id);
                self.data.push(dat);
                None
            },
        }
    }

    /// Insert a lot of data
    ///
    /// A pure append: the batch has as many ids as values, and names no id
    /// twice, nor an id that the set already holds.
    pub fn insert_batch(&mut self, ids: &mut Vec<E>, data: &mut Vec<T>)
        requires
            old(self).wf(),
            old(self)@.admits_batch(old(ids)@, old(data)@),
            old(self)@.len() < usize::MAX,
            old(self)@.len() + old(ids)@.len() <= usize::MAX,
            forall|i: int| 0 <= i < old(ids)@.len() ==> S::accepts(#[trigger] old(ids)@[i]),
        ensures
            final(self).wf(),
            final(self)@ == old(self)@.insert_batch(old(ids)@, old(data)@),
            final(ids)@ == Seq::<E>::empty(),
            final(data)@ == Seq::<T>::empty(),
    {
        let start_index: usize = self.data.len() + 1;
        proof {
            lemma_batch_slots_match(self.sparse.slots(), self.dense@, ids@);
        }
        self.sparse.set_indices(ids.as_slice(), start_index);
        self.dense.append(ids);
        self.data.append(data);
    }

    /// Remove from sparse set
    /// # return
    /// It returns Some(T) if sparse set has this id ,
    /// otherwise returns None
    pub fn swap_remove_by_id(&mut self, id: E) -> (removed: Option<T>)
        requires
            old(self).wf(),
        ensures
            final(self).wf(),
            final(self)@ == old(self)@.swap_remove_by_id(id),
            removed == old(self)@.get(id),
            !old(self)@.contains(id) ==> *final(self) == *old(self),
    {
        match self.get_index(id) {
            Some(index) => self.swap_remove_by_index(index),
            None => None,
        }
    }

    /// Remove from sparse set
    /// # return
    /// It returns Some(T) if index is valid,
    /// otherwise returns None
    pub fn swap_remove_by_index(&mut self, index: usize) -> (removed: Option<T>)
        requires
            old(self).wf(),
        ensures
            final(self).wf(),
            final(self)@ == old(self)@.swap_remove(index as int),
            removed == (if index < old(self)@.len() {
                Some(old(self)@.data[index as int])
            } else {
                None
            }),
            index >= old(self)@.len() ==> *final(self) == *old(self),
    {
        if index >= self.dense.len() {
            return None;
        }
        let id: E = self.dense[index];
        let last: usize = self.dense.len() - 1;
        self.swap_by_index(index, last);
        proof {
            lemma_slots_match(self.sparse.slots(), self.dense@);
        }
        self.sparse.set_index(id, None);
        self.dense.pop();
        let removed = self.data.pop();
        proof {
            assert(self.dense@ =~= swap_removed(old(self)@.ids, index as int));
            assert(self.data@ =~= swap_removed(old(self)@.data, index as int));
        }
        removed
    }

    /// swap 2 entities in sparse set by entity id
    /// # Details
    /// Do nothing if `id_a` or `id_b` is NOT in sparse set
    pub fn swap_by_entity_id(&mut self, id_a: E, id_b: E)
        requires
            old(self).wf(),
        ensures
            final(self).wf(),
            final(self)@ == old(self)@.swap_by_id(id_a, id_b),
            !old(self)@.contains(id_a) || !old(self)@.contains(id_b) ==> *final(self) == *old(
                self,
            ),
    {
        let index_a = self.get_index(id_a);
        let index_b = self.get_index(id_b);
        match (index_a, index_b) {
            (Some(a), Some(b)) => self.swap_by_index_unchecked(a, b),
            _ => {},
        }
    }

    /// swap 2 entities in sparse set by index
    ///
    /// Both indices are in range.
    pub fn swap_by_index(&mut self, index_a: usize, index_b: usize)
        requires
            old(self).wf(),
            index_a < old(self)@.len(),
            index_b < old(self)@.len(),
        ensures
            final(self).wf(),
            final(self)@ == old(self)@.swap(index_a as int, index_b as int),
    {
        self.swap_by_index_unchecked(index_a, index_b)
    }

    /// swap 2 entities in sparse set by index with out any check
    ///
    /// The caller has already shown that `index_a` and `index_b` are less than
    /// `self.len()`; the bijection is what lets the backend be updated without
    /// looking the two ids up again.
    pub fn swap_by_index_unchecked(&mut self, index_a: usize, index_b: usize)
        requires
            old(self).wf(),
            index_a < old(self)@.len(),
            index_b < old(self)@.len(),
        ensures
            final(self).wf(),
            final(self)@ == old(self)@.swap(index_a as int, index_b as int),
    {
        if index_a == index_b {
            proof {
                assert(self.dense@ =~= swapped(self.dense@, index_a as int, index_b as int));
                assert(self.data@ =~= swapped(self.data@, index_a as int, index_b as int));
            }
            return ;
        }
        let id_a: E = self.dense[index_a];
        let id_b: E = self.dense[index_b];
        proof {
            lemma_slots_match(self.sparse.slots(), self.dense@);
        }
        self.sparse.swap(id_a, id_b);
        self.dense[index_a] = id_b;
        self.dense[index_b] = id_a;
        swap_items(&mut self.data, index_a, index_b);
    }

    /// Get the MUTABLE reference by data by given `id`
    /// # Returns
    /// Return None if sparse set doesn't contain this `id`
    pub fn get_mut(&mut self, id: E) -> (value: Option<&mut T>)
        requires
            old(self).wf(),
        ensures
            final(self).wf(),
            final(self).storage() == old(self).storage(),
            final(self)@.ids == old(self)@.ids,
            match old(self)@.get_index(id) {
                Some(k) => {
                    &&& value is Some
                    &&& *value.unwrap() == old(self)@.data[k as int]
                    &&& final(self)@.data == old(self)@.data.update(
                        k as int,
                        *final(value.unwrap()),
                    )
                },
                None => value is None && final(self)@.data == old(self)@.data,
            },
    {
        match self.get_index(id) {
            Some(index) => Some(&mut self.data[index]),
            None => None,
        }
    }

    /// Get the slice of data
    ///
    /// Only the contents of the elements can change through it: the ids and the
    /// backend stay as they are, so the set stays well-formed as long as the
    /// slice keeps its length.
    pub fn data_mut(&mut self) -> (values: &mut [T])
        ensures
            values@ == old(self)@.data,
            final(self)@.data == final(values)@,
            final(self)@.ids == old(self)@.ids,
            final(self).storage() == old(self).storage(),
            old(self).wf() && final(values)@.len() == values@.len() ==> final(self).wf(),
    {
        self.data.as_mut_slice()
    }
}

impl<E, T, S> Default for SparseSet<E, T, S> where E: Copy, S: SparseStorage<EntityId = E> + Default {
    /// An empty set over the backend's default value: well-formed where that
    /// value is a well-formed backend without entries.
    fn default() -> (set: Self)
        ensures
            call_ensures(S::default, (), set.storage()),
            set@ == SparseSetView::<E, T>::empty(),
            set.storage().wf() && set.storage().slots() =~= Map::<E, usize>::empty() ==> set.wf(),
    {
        SparseSet { sparse: S::default(), dense: Vec::new(), data: Vec::new() }
    }
}

/// Exchanges the elements of `v` at two distinct positions.
fn swap_items<T>(v: &mut Vec<T>, a: usize, b: usize)
    requires
        a < old(v)@.len(),
        b < old(v)@.len(),
        a != b,
    ensures
        final(v)@ == swapped(old(v)@, a as int, b as int),
{
    let lo: usize = if a < b { a } else { b };
    let hi: usize = if a < b { b } else { a };
    let (left, right) = v.as_mut_slice().split_at_mut(hi);
    let (_, mid) = left.split_at_mut(lo);
    match (mid.first_mut(), right.first_mut()) {
        (Some(x), Some(y)) => core::mem::swap(x, y),
        _ => {},
    }
    proof {
        assert(v@ =~= swapped(old(v)@, a as int, b as int));
    }
}

} // verus!
