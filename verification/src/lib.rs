//! A sparse set: values addressed by caller-chosen ids, kept densely packed for
//! iteration, with a pluggable backend that maps each id to its slot.
pub mod hash_storage;
pub mod laws;
pub mod model;
pub mod ordered_storage;
pub mod sparse_set;
pub mod sparse_storage;

pub use model::SparseSetView;
pub use sparse_set::{SparseSet, SparseSetBTreeMap, SparseSetHashMap, SparseSetVec};
pub use sparse_storage::{ArrayId, SparseStorage, VecStorage};
