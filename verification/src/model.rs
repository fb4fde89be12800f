//! The mathematical model of a sparse set: the ids in dense order, the value
//! of each at the same position, and what each operation does to the two.
use vstd::prelude::*;

verus! {

/// The dense position of `id` in `ids`, if it occurs there.
pub open spec fn position_of<E>(ids: Seq<E>, id: E) -> Option<usize> {
    if ids.contains(id) {
        Some(ids.index_of(id) as usize)
    } else {
        None
    }
}

/// `s` with the elements at `a` and `b` exchanged.
pub open spec fn swapped<A>(s: Seq<A>, a: int, b: int) -> Seq<A> {
    s.update(a, s[b]).update(b, s[a])
}

/// `s` after the element at `i` has been replaced by the last one and the last
/// position dropped.
pub open spec fn swap_removed<A>(s: Seq<A>, i: int) -> Seq<A> {
    swapped(s, i, s.len() - 1).drop_last()
}

/// What a sparse set holds: the ids in dense order, and the value of each at
/// the same position.
#[verifier::ext_equal]
pub struct SparseSetView<E, T> {
    pub ids: Seq<E>,
    pub data: Seq<T>,
}

impl<E, T> SparseSetView<E, T> {
    /// The two sequences are parallel, their length fits a `usize`, and no id
    /// occurs twice.
    pub open spec fn wf(self) -> bool {
        &&& self.ids.len() == self.data.len()
        &&& self.ids.len() <= usize::MAX
        &&& self.ids.no_duplicates()
    }

    /// The set without any element.
    pub open spec fn empty() -> Self {
        SparseSetView { ids: Seq::empty(), data: Seq::empty() }
    }

    /// The number of elements.
    pub open spec fn len(self) -> nat {
        self.ids.len()
    }

    /// Whether `id` is present.
    pub open spec fn contains(self, id: E) -> bool {
        self.ids.contains(id)
    }

    /// The dense position of `id`, if it is present.
    pub open spec fn get_index(self, id: E) -> Option<usize> {
        position_of(self.ids, id)
    }

    /// The id at a dense position, if the position is in range.
    pub open spec fn get_id(self, index: int) -> Option<E> {
        if 0 <= index < self.ids.len() {
            Some(self.ids[index])
        } else {
            None
        }
    }

    /// The value of `id`, if it is present.
    pub open spec fn get(self, id: E) -> Option<T> {
        match self.get_index(id) {
            Some(k) => Some(self.data[k as int]),
            None => None,
        }
    }

    /// The set after `insert`: a present id keeps its position and gets the new
    /// value; an absent one is appended with it.
    pub open spec fn insert(self, id: E, dat: T) -> Self {
        match self.get_index(id) {
            Some(k) => SparseSetView { ids: self.ids, data: self.data.update(k as int, dat) },
            None => SparseSetView { ids: self.ids.push(id), data: self.data.push(dat) },
        }
    }

    /// The set after a batch has been appended.
    pub open spec fn insert_batch(self, ids: Seq<E>, data: Seq<T>) -> Self {
        SparseSetView { ids: self.ids + ids, data: self.data + data }
    }

    /// Whether a batch can be appended: as many ids as values, no id twice in
    /// it, and none that is present.
    pub open spec fn admits_batch(self, ids: Seq<E>, data: Seq<T>) -> bool {
        &&& ids.len() == data.len()
        &&& ids.no_duplicates()
        &&& forall|i: int| 0 <= i < ids.len() ==> !self.ids.contains(#[trigger] ids[i])
    }

    /// The set after the elements at two positions in range have been exchanged.
    pub open spec fn swap(self, a: int, b: int) -> Self {
        SparseSetView { ids: swapped(self.ids, a, b), data: swapped(self.data, a, b) }
    }

    /// The set after the elements of two ids have been exchanged; unchanged
    /// where one of them is absent.
    pub open spec fn swap_by_id(self, id_a: E, id_b: E) -> Self {
        match (self.get_index(id_a), self.get_index(id_b)) {
            (Some(a), Some(b)) => self.swap(a as int, b as int),
            _ => self,
        }
    }

    /// The set after a swap-remove at `index`: the last element takes the place
    /// of the removed one; unchanged where `index` is out of range.
    pub open spec fn swap_remove(self, index: int) -> Self {
        if 0 <= index < self.ids.len() {
            SparseSetView {
                ids: swap_removed(self.ids, index),
                data: swap_removed(self.data, index),
            }
        } else {
            self
        }
    }

    /// The set after a swap-remove of `id`; unchanged where `id` is absent.
    pub open spec fn swap_remove_by_id(self, id: E) -> Self {
        match self.get_index(id) {
            Some(k) => self.swap_remove(k as int),
            None => self,
        }
    }
}

} // verus!
