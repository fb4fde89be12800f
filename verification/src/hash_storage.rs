//! The hash-backed index storage: a `HashMap` from id to slot index.
use crate::sparse_storage::SparseStorage;
use std::collections::hash_map::RandomState;
use std::collections::HashMap;
use std::hash::Hash;
use vstd::prelude::*;
use vstd::std_specs::hash::*;

verus! {

impl<E: Copy + Eq + Hash> SparseStorage for HashMap<E, usize> {
    type EntityId = E;

    /// The map behaves as a mathematical map only for keys whose `Hash` and `Eq`
    /// agree with equality of values.
    open spec fn wf(&self) -> bool {
        obeys_key_model::<E>() && builds_valid_hashers::<RandomState>()
    }

    open spec fn accepts(id: E) -> bool {
        true
    }

    open spec fn slots(&self) -> Map<E, usize> {
        self@
    }

    fn get_index(&self, id: E) -> (index: Option<usize>) {
        broadcast use {axiom_contains_deref_key, axiom_maps_deref_key_to_value};

        match self.get(&id) {
            Some(slot) => Some(*slot),
            None => None,
        }
    }

    fn set_index(&mut self, id: E, index: Option<usize>) {
        broadcast use axiom_deref_key_removed;

        match index {
            Some(k) => {
                self.insert(id, k);
            },
            None => {
                self.remove(&id);
            },
        }
    }

    fn swap(&mut self, id_a: E, id_b: E) {
        broadcast use {axiom_contains_deref_key, axiom_maps_deref_key_to_value};

        let slot_a = self.get(&id_a);
        let slot_b = self.get(&id_b);
        match (slot_a, slot_b) {
            (Some(a), Some(b)) => {
                let a: usize = *a;
                let b: usize = *b;
                self.insert(id_a, b);
                self.insert(id_b, a);
            },
            _ => {},
        }
    }

    fn clear(&mut self) {
        HashMap::clear(self);
    }
}

} // verus!
