//! Index storage backends: the "sparse" half of a sparse set.
//!
//! A backend records, for each id it holds, a slot index. Slot indices are
//! 1-based; an id without an entry is absent.
use core::marker::PhantomData;
use vstd::prelude::*;

verus! {

/// What a backend holds after `ids` have been registered one after another with
/// the slot indices `start`, `start + 1`, ... on top of `slots`.
pub open spec fn batch_slots<E>(slots: Map<E, usize>, ids: Seq<E>, start: int) -> Map<E, usize>
    decreases ids.len(),
{
    if ids.len() == 0 {
        slots
    } else {
        batch_slots(slots, ids.drop_last(), start).insert(
            ids.last(),
            (start + ids.len() - 1) as usize,
        )
    }
}

/// The capability set of an index storage backend.
pub trait SparseStorage: Sized {
    /// The type of the ids this backend is keyed by.
    type EntityId: Copy;

    /// The backend's own consistency condition.
    spec fn wf(&self) -> bool;

    /// Whether the backend is able to hold an entry for `id`.
    spec fn accepts(id: Self::EntityId) -> bool;

    /// The entries of the backend: each present id with its slot index.
    spec fn slots(&self) -> Map<Self::EntityId, usize>;

    /// The slot index recorded for `id`, if there is one.
    fn get_index(&self, id: Self::EntityId) -> (index: Option<usize>)
        requires
            self.wf(),
        ensures
            index == (if self.slots().contains_key(id) {
                Some(self.slots()[id])
            } else {
                None
            }),
    ;

    /// Records `index` for `id`, or drops the entry of `id` when `index` is `None`.
    fn set_index(&mut self, id: Self::EntityId, index: Option<usize>)
        requires
            old(self).wf(),
            index matches Some(k) ==> k >= 1 && Self::accepts(id),
        ensures
            final(self).wf(),
            final(self).slots() == (match index {
                Some(k) => old(self).slots().insert(id, k),
                None => old(self).slots().remove(id),
            }),
    ;

    /// Records consecutive slot indices for `ids`, in the order given, beginning
    /// at `start_index`.
    fn set_indices(&mut self, ids: &[Self::EntityId], start_index: usize)
        requires
            old(self).wf(),
            start_index >= 1,
            start_index + ids@.len() <= usize::MAX + 1,
            forall|i: int| 0 <= i < ids@.len() ==> Self::accepts(#[trigger] ids@[i]),
        ensures
            final(self).wf(),
            final(self).slots() == batch_slots(old(self).slots(), ids@, start_index as int),
    {
        let n: usize = ids.len();
        let mut i: usize = 0;
        while i < n
            invariant
                n == ids@.len(),
                i <= n,
                start_index >= 1,
                start_index + n <= usize::MAX + 1,
                forall|j: int| 0 <= j < ids@.len() ==> Self::accepts(#[trigger] ids@[j]),
                self.wf(),
                self.slots() == batch_slots(
                    old(self).slots(),
                    ids@.take(i as int),
                    start_index as int,
                ),
            decreases n - i,
        {
            proof {
                assert(ids@.take(i + 1).drop_last() =~= ids@.take(i as int));
            }
            self.set_index(ids[i], Some(start_index + i));
            i = i + 1;
        }
        proof {
            assert(ids@.take(n as int) =~= ids@);
        }
    }

    /// Drops the entry of `id`.
    fn remove_index(&mut self, id: Self::EntityId)
        requires
            old(self).wf(),
        ensures
            final(self).wf(),
            final(self).slots() == old(self).slots().remove(id),
    {
        self.set_index(id, None);
    }

    /// Exchanges the slot indices recorded for two present ids.
    fn swap(&mut self, id_a: Self::EntityId, id_b: Self::EntityId)
        requires
            old(self).wf(),
            old(self).slots().contains_key(id_a),
            old(self).slots().contains_key(id_b),
        ensures
            final(self).wf(),
            final(self).slots() == old(self).slots().insert(id_a, old(self).slots()[id_b]).insert(
                id_b,
                old(self).slots()[id_a],
            ),
    ;

    /// Drops every entry.
    fn clear(&mut self)
        requires
            old(self).wf(),
        ensures
            final(self).wf(),
            final(self).slots() == Map::<Self::EntityId, usize>::empty(),
    ;
}

/// An id that names an offset into an array, losslessly.
pub trait ArrayId: Copy {
    /// The array offset that the id stands for.
    spec fn offset_spec(self) -> usize;

    /// The array offset that the id stands for.
    fn offset(self) -> (off: usize)
        ensures
            off == self.offset_spec(),
    ;

    /// Two ids with the same offset are the same id.
    proof fn offset_is_lossless(a: Self, b: Self)
        requires
            a.offset_spec() == b.offset_spec(),
        ensures
            a == b,
    ;
}

impl ArrayId for usize {
    open spec fn offset_spec(self) -> usize {
        self
    }

    fn offset(self) -> (off: usize) {
        self
    }

    proof fn offset_is_lossless(a: Self, b: Self) {
    }
}

impl ArrayId for u32 {
    open spec fn offset_spec(self) -> usize {
        self as usize
    }

    fn offset(self) -> (off: usize) {
        self as usize
    }

    proof fn offset_is_lossless(a: Self, b: Self) {
    }
}

impl ArrayId for u16 {
    open spec fn offset_spec(self) -> usize {
        self as usize
    }

    fn offset(self) -> (off: usize) {
        self as usize
    }

    proof fn offset_is_lossless(a: Self, b: Self) {
    }
}

impl ArrayId for u8 {
    open spec fn offset_spec(self) -> usize {
        self as usize
    }

    fn offset(self) -> (off: usize) {
        self as usize
    }

    proof fn offset_is_lossless(a: Self, b: Self) {
    }
}

/// The array-backed index storage: the slot index of an id sits at the id's
/// offset, and a zero there means that the id is absent.
#[derive(Debug)]
pub struct VecStorage<E> {
    table: Vec<usize>,
    marker: PhantomData<E>,
}

impl<E: ArrayId> VecStorage<E> {
    /// What the table holds at `off`; zero beyond its end.
    pub closed spec fn entry(&self, off: int) -> usize {
        if 0 <= off < self.table@.len() {
            self.table@[off]
        } else {
            0
        }
    }

    /// An empty storage.
    pub fn new() -> (storage: Self)
        ensures
            storage.wf(),
            storage.slots() == Map::<E, usize>::empty(),
    {
        let storage = VecStorage { table: Vec::new(), marker: PhantomData };
        assert(storage.slots() =~= Map::<E, usize>::empty());
        storage
    }
}

impl<E: ArrayId> Clone for VecStorage<E> {
    /// A storage with the same entries.
    fn clone(&self) -> (copy: Self)
        ensures
            copy.wf(),
            copy.slots() == self.slots(),
    {
        let copy = VecStorage { table: self.table.clone(), marker: PhantomData };
        proof {
            assert(copy.table@ =~= self.table@);
            assert(copy.slots() =~= self.slots());
        }
        copy
    }
}

impl<E: ArrayId> Default for VecStorage<E> {
    /// An empty storage.
    fn default() -> (storage: Self)
        ensures
            storage.wf(),
            storage.slots() == Map::<E, usize>::empty(),
    {
        VecStorage::new()
    }
}

impl<E: ArrayId> SparseStorage for VecStorage<E> {
    type EntityId = E;

    open spec fn wf(&self) -> bool {
        true
    }

    open spec fn accepts(id: E) -> bool {
        id.offset_spec() < usize::MAX
    }

    closed spec fn slots(&self) -> Map<E, usize> {
        Map::new(
            |id: E| self.entry(id.offset_spec() as int) != 0,
            |id: E| self.entry(id.offset_spec() as int),
        )
    }

    fn get_index(&self, id: E) -> (index: Option<usize>) {
        let off: usize = id.offset();
        if off < self.table.len() && self.table[off] != 0 {
            Some(self.table[off])
        } else {
            None
        }
    }

    fn set_index(&mut self, id: E, index: Option<usize>) {
        let off: usize = id.offset();
        match index {
            Some(k) => {
                if self.table.len() <= off {
                    self.table.resize(off + 1, 0);
                }
                self.table[off] = k;
                proof {
                    assert forall|other: E| other.offset_spec() == off implies other == id by {
                        E::offset_is_lossless(other, id);
                    }
                    assert(self.slots() =~= old(self).slots().insert(id, k));
                }
            },
            None => {
                if off < self.table.len() {
                    self.table[off] = 0;
                }
                proof {
                    assert forall|other: E| other.offset_spec() == off implies other == id by {
                        E::offset_is_lossless(other, id);
                    }
                    assert(self.slots() =~= old(self).slots().remove(id));
                }
            },
        }
    }

    fn swap(&mut self, id_a: E, id_b: E) {
        let off_a: usize = id_a.offset();
        let off_b: usize = id_b.offset();
        let slot_a: usize = self.table[off_a];
        let slot_b: usize = self.table[off_b];
        self.table[off_a] = slot_b;
        self.table[off_b] = slot_a;
        proof {
            assert forall|other: E| other.offset_spec() == off_a implies other == id_a by {
                E::offset_is_lossless(other, id_a);
            }
            assert forall|other: E| other.offset_spec() == off_b implies other == id_b by {
                E::offset_is_lossless(other, id_b);
            }
            assert(self.slots() =~= old(self).slots().insert(id_a, old(self).slots()[id_b]).insert(
                id_b,
                old(self).slots()[id_a],
            ));
        }
    }

    fn clear(&mut self) {
        self.table.clear();
        proof {
            assert(self.slots() =~= Map::<E, usize>::empty());
        }
    }
}

} // verus!
