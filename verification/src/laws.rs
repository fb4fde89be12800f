//! What holds of the model's operations, whatever the ids and the values.
use crate::model::{position_of, SparseSetView};
use vstd::prelude::*;

verus! {

/// In a sequence without duplicates, the position of an element is the one
/// place where it sits.
pub proof fn lemma_position_is_unique<E>(ids: Seq<E>, k: int)
    requires
        ids.no_duplicates(),
        ids.len() <= usize::MAX,
        0 <= k < ids.len(),
    ensures
        position_of(ids, ids[k]) == Some(k as usize),
{
    let id = ids[k];
    assert(ids.contains(id));
    let j = ids.index_of(id);
    assert(ids[j] == id);
}

/// An insertion keeps the model well-formed: always for a present id, and for
/// an absent one while there is room for one more.
pub proof fn lemma_insert_keeps_wf<E, T>(v: SparseSetView<E, T>, id: E, dat: T)
    requires
        v.wf(),
        v.contains(id) || v.len() < usize::MAX,
    ensures
        v.insert(id, dat).wf(),
{
    if v.contains(id) {
        lemma_position_is_unique(v.ids, v.ids.index_of(id));
    }
}

/// A swap of two positions in range, and a swap of two ids, keep the model
/// well-formed.
pub proof fn lemma_swap_keeps_wf<E, T>(v: SparseSetView<E, T>, a: int, b: int, id_a: E, id_b: E)
    requires
        v.wf(),
    ensures
        0 <= a < v.len() && 0 <= b < v.len() ==> v.swap(a, b).wf(),
        v.swap_by_id(id_a, id_b).wf(),
{
    if v.contains(id_a) {
        lemma_position_is_unique(v.ids, v.ids.index_of(id_a));
    }
    if v.contains(id_b) {
        lemma_position_is_unique(v.ids, v.ids.index_of(id_b));
    }
}

/// A swap-remove, by position or by id, keeps the model well-formed.
pub proof fn lemma_swap_remove_keeps_wf<E, T>(v: SparseSetView<E, T>, index: int, id: E)
    requires
        v.wf(),
    ensures
        v.swap_remove(index).wf(),
        v.swap_remove_by_id(id).wf(),
{
    if v.contains(id) {
        lemma_position_is_unique(v.ids, v.ids.index_of(id));
    }
}

/// Appending a batch that the model admits keeps it well-formed, as long as
/// the length still fits.
pub proof fn lemma_insert_batch_keeps_wf<E, T>(v: SparseSetView<E, T>, ids: Seq<E>, data: Seq<T>)
    requires
        v.wf(),
        v.admits_batch(ids, data),
        v.len() + ids.len() <= usize::MAX,
    ensures
        v.insert_batch(ids, data).wf(),
{
    let all = v.ids + ids;
    assert forall|i: int, j: int| 0 <= i < all.len() && 0 <= j < all.len() && i != j implies all[i]
        != all[j] by {
        if i < v.ids.len() && j >= v.ids.len() {
            assert(ids[j - v.ids.len()] == all[j]);
            assert(v.ids.contains(all[i]));
        }
        if j < v.ids.len() && i >= v.ids.len() {
            assert(ids[i - v.ids.len()] == all[i]);
            assert(v.ids.contains(all[j]));
        }
    }
}

/// The bijection between ids and dense positions: a present id resolves to a
/// position that holds this id and its value, and the id at a position in
/// range resolves to that position.
pub proof fn lemma_bijection<E, T>(v: SparseSetView<E, T>)
    requires
        v.wf(),
    ensures
        forall|id: E| #[trigger]
            v.contains(id) ==> {
                &&& v.get_index(id) is Some
                &&& v.get_index(id).unwrap() < v.len()
                &&& v.get_id(v.get_index(id).unwrap() as int) == Some(id)
                &&& v.get(id) == Some(v.data[v.get_index(id).unwrap() as int])
            },
        forall|id: E| !v.contains(id) ==> v.get_index(id) is None && v.get(id) is None,
        forall|j: int|
            0 <= j < v.len() ==> v.contains(#[trigger] v.ids[j]) && v.get_index(v.ids[j]) == Some(
                j as usize,
            ) && v.get_id(j) == Some(v.ids[j]),
{
    assert forall|id: E| #[trigger] v.contains(id) implies {
        &&& v.get_index(id) is Some
        &&& v.get_index(id).unwrap() < v.len()
        &&& v.get_id(v.get_index(id).unwrap() as int) == Some(id)
        &&& v.get(id) == Some(v.data[v.get_index(id).unwrap() as int])
    } by {
        let k = v.ids.index_of(id);
        assert(v.ids[k] == id);
    }
    assert forall|j: int| 0 <= j < v.len() implies v.contains(#[trigger] v.ids[j]) && v.get_index(
        v.ids[j],
    ) == Some(j as usize) && v.get_id(j) == Some(v.ids[j]) by {
        lemma_position_is_unique(v.ids, j);
    }
}

/// Inserting a present id hands back its value and changes neither its
/// position, nor any id, nor the length.
pub proof fn lemma_insert_present_keeps_position<E, T>(v: SparseSetView<E, T>, id: E, dat: T)
    requires
        v.wf(),
        v.contains(id),
    ensures
        v.get(id) is Some,
        v.insert(id, dat).get_index(id) == v.get_index(id),
        v.insert(id, dat).ids == v.ids,
        v.insert(id, dat).len() == v.len(),
{
    lemma_bijection(v);
}

/// Right after an insertion the id is present with the value just given: at
/// its old position where it was present, at the end where it was not.
pub proof fn lemma_insert_then_get<E, T>(v: SparseSetView<E, T>, id: E, dat: T)
    requires
        v.wf(),
        v.contains(id) || v.len() < usize::MAX,
    ensures
        v.insert(id, dat).contains(id),
        v.insert(id, dat).get(id) == Some(dat),
        !v.contains(id) ==> v.insert(id, dat).get_index(id) == Some(v.len() as usize) && v.insert(
            id,
            dat,
        ).len() == v.len() + 1,
{
    lemma_bijection(v);
    let w = v.insert(id, dat);
    lemma_insert_keeps_wf(v, id, dat);
    if !v.contains(id) {
        assert(w.ids[v.len() as int] == id);
        lemma_position_is_unique(w.ids, v.len() as int);
    }
}

/// An insertion leaves every other id as it was: present or absent, with the
/// same position and the same value.
pub proof fn lemma_insert_keeps_others<E, T>(v: SparseSetView<E, T>, id: E, dat: T, other: E)
    requires
        v.wf(),
        v.contains(id) || v.len() < usize::MAX,
        other != id,
    ensures
        v.insert(id, dat).contains(other) == v.contains(other),
        v.insert(id, dat).get_index(other) == v.get_index(other),
        v.insert(id, dat).get(other) == v.get(other),
{
    lemma_bijection(v);
    let w = v.insert(id, dat);
    lemma_insert_keeps_wf(v, id, dat);
    if v.contains(other) {
        let k = v.ids.index_of(other);
        assert(w.ids[k] == other);
        lemma_position_is_unique(w.ids, k);
    } else if w.contains(other) {
        let k = w.ids.index_of(other);
        assert(w.ids[k] == other);
        if k < v.len() {
            assert(v.ids[k] == other);
        }
    }
}

/// After a batch has been appended each of its ids is present with its value,
/// at its place behind the elements that were there.
pub proof fn lemma_insert_batch_then_get<E, T>(
    v: SparseSetView<E, T>,
    ids: Seq<E>,
    data: Seq<T>,
    i: int,
)
    requires
        v.wf(),
        v.admits_batch(ids, data),
        v.len() + ids.len() <= usize::MAX,
        0 <= i < ids.len(),
    ensures
        v.insert_batch(ids, data).get_index(ids[i]) == Some((v.len() + i) as usize),
        v.insert_batch(ids, data).get(ids[i]) == Some(data[i]),
{
    let w = v.insert_batch(ids, data);
    lemma_insert_batch_keeps_wf(v, ids, data);
    assert(w.ids[v.len() + i] == ids[i]);
    lemma_position_is_unique(w.ids, v.len() + i);
}

/// Appending a batch leaves every id that was present at its position, with
/// its value.
pub proof fn lemma_insert_batch_keeps_others<E, T>(
    v: SparseSetView<E, T>,
    ids: Seq<E>,
    data: Seq<T>,
    other: E,
)
    requires
        v.wf(),
        v.admits_batch(ids, data),
        v.len() + ids.len() <= usize::MAX,
        v.contains(other),
    ensures
        v.insert_batch(ids, data).get_index(other) == v.get_index(other),
        v.insert_batch(ids, data).get(other) == v.get(other),
{
    let w = v.insert_batch(ids, data);
    lemma_insert_batch_keeps_wf(v, ids, data);
    lemma_bijection(v);
    let k = v.ids.index_of(other);
    assert(w.ids[k] == other);
    lemma_position_is_unique(w.ids, k);
}

/// A swap of two positions exchanges what the two ids resolve to and moves
/// each value with its id: every id keeps its value.
pub proof fn lemma_swap_keeps_values<E, T>(v: SparseSetView<E, T>, a: int, b: int, id: E)
    requires
        v.wf(),
        0 <= a < v.len(),
        0 <= b < v.len(),
    ensures
        v.swap(a, b).len() == v.len(),
        v.swap(a, b).get_index(v.ids[a]) == Some(b as usize),
        v.swap(a, b).get_index(v.ids[b]) == Some(a as usize),
        v.swap(a, b).contains(id) == v.contains(id),
        v.swap(a, b).get(id) == v.get(id),
        id != v.ids[a] && id != v.ids[b] ==> v.swap(a, b).get_index(id) == v.get_index(id),
{
    let w = v.swap(a, b);
    lemma_bijection(v);
    lemma_swap_keeps_wf(v, a, b, id, id);
    lemma_position_is_unique(w.ids, a);
    lemma_position_is_unique(w.ids, b);
    if v.contains(id) {
        let k = v.ids.index_of(id);
        if k != a && k != b {
            assert(w.ids[k] == id);
            lemma_position_is_unique(w.ids, k);
        }
    } else if w.contains(id) {
        let k = w.ids.index_of(id);
        assert(w.ids[k] == id);
        assert(v.ids[k] == id || v.ids[a] == id || v.ids[b] == id);
    }
}

/// A swap-remove at a position in range takes exactly one element away: the
/// id that sat there is gone, and the id that was last, if it was another, now
/// resolves to that position.
pub proof fn lemma_swap_remove_reorders<E, T>(v: SparseSetView<E, T>, index: int)
    requires
        v.wf(),
        0 <= index < v.len(),
    ensures
        v.swap_remove(index).len() == v.len() - 1,
        !v.swap_remove(index).contains(v.ids[index]),
        v.swap_remove(index).get_index(v.ids[index]) is None,
        index < v.len() - 1 ==> v.swap_remove(index).get_index(v.ids[v.len() - 1]) == Some(
            index as usize,
        ),
{
    let w = v.swap_remove(index);
    let last = v.len() - 1;
    lemma_swap_remove_keeps_wf(v, index, v.ids[index]);
    if w.contains(v.ids[index]) {
        let k = w.ids.index_of(v.ids[index]);
        assert(w.ids[k] == v.ids[index]);
        assert(v.ids[if k == index { last } else { k }] == v.ids[index]);
    }
    if index < last {
        assert(w.ids[index] == v.ids[last]);
        lemma_position_is_unique(w.ids, index);
    }
}

/// A swap-remove leaves every id but the removed one present, with its value;
/// all but the one that was last keep their position too.
pub proof fn lemma_swap_remove_keeps_others<E, T>(v: SparseSetView<E, T>, index: int, other: E)
    requires
        v.wf(),
        0 <= index < v.len(),
        other != v.ids[index],
    ensures
        v.swap_remove(index).contains(other) == v.contains(other),
        v.swap_remove(index).get(other) == v.get(other),
        other != v.ids[v.len() - 1] ==> v.swap_remove(index).get_index(other) == v.get_index(
            other,
        ),
{
    let w = v.swap_remove(index);
    let last = v.len() - 1;
    lemma_bijection(v);
    lemma_swap_remove_keeps_wf(v, index, other);
    if v.contains(other) {
        let k = v.ids.index_of(other);
        let j = if k == last { index } else { k };
        assert(w.ids[j] == other);
        lemma_position_is_unique(w.ids, j);
    } else if w.contains(other) {
        let k = w.ids.index_of(other);
        assert(w.ids[k] == other);
        assert(v.ids[if k == index { last } else { k }] == other);
    }
}

/// Removing by id is removing at the position that the id resolves to, and
/// does nothing for an absent id.
pub proof fn lemma_swap_remove_by_id<E, T>(v: SparseSetView<E, T>, id: E)
    requires
        v.wf(),
    ensures
        !v.swap_remove_by_id(id).contains(id),
        v.contains(id) ==> v.swap_remove_by_id(id).len() == v.len() - 1,
        !v.contains(id) ==> v.swap_remove_by_id(id) == v,
{
    lemma_bijection(v);
    if v.contains(id) {
        lemma_swap_remove_reorders(v, v.ids.index_of(id));
    }
}

/// The empty set holds nothing: no id is present, resolves to a position or
/// has a value, and removing one changes nothing.
pub proof fn lemma_empty_holds_nothing<E, T>(id: E)
    ensures
        SparseSetView::<E, T>::empty().wf(),
        SparseSetView::<E, T>::empty().len() == 0,
        SparseSetView::<E, T>::empty().ids.len() == 0,
        SparseSetView::<E, T>::empty().data.len() == 0,
        !SparseSetView::<E, T>::empty().contains(id),
        SparseSetView::<E, T>::empty().get_index(id) is None,
        SparseSetView::<E, T>::empty().get(id) is None,
        SparseSetView::<E, T>::empty().get_id(0) is None,
        SparseSetView::<E, T>::empty().swap_remove_by_id(id) == SparseSetView::<E, T>::empty(),
{
}

} // verus!
