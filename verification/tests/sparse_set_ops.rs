use std::collections::{BTreeMap, HashMap};

use xsparseset::{
    SparseSet, SparseSetBTreeMap, SparseSetHashMap, SparseSetVec, SparseStorage, VecStorage,
};

fn abc<S: SparseStorage<EntityId = usize>>(storage: S) -> SparseSet<usize, char, S> {
    let mut set = SparseSet::with_storage(storage);
    assert_eq!(set.insert(1, 'a'), None);
    assert_eq!(set.insert(2, 'b'), None);
    assert_eq!(set.insert(3, 'c'), None);
    set
}

fn run_scenario<S: SparseStorage<EntityId = usize>>(storage: S) {
    let mut set = abc(storage);
    assert_eq!(set.ids(), &[1, 2, 3]);
    assert_eq!(set.data(), &['a', 'b', 'c']);

    assert_eq!(set.swap_remove_by_id(2), Some('b'));
    assert_eq!(set.ids(), &[1, 3]);
    assert_eq!(set.data(), &['a', 'c']);
    assert_eq!(set.get_index(3), Some(1));

    assert_eq!(set.insert(2, 'z'), None);
    assert_eq!(set.ids(), &[1, 3, 2]);
    assert_eq!(set.data(), &['a', 'c', 'z']);
    assert_eq!(set.get_index(2), Some(2));

    let mut ids = vec![4, 5];
    let mut data = vec!['d', 'e'];
    set.insert_batch(&mut ids, &mut data);
    assert!(ids.is_empty());
    assert!(data.is_empty());
    assert_eq!(set.ids(), &[1, 3, 2, 4, 5]);
    assert_eq!(set.data(), &['a', 'c', 'z', 'd', 'e']);
    assert_eq!(set.get_index(4), Some(3));
    assert_eq!(set.get_index(5), Some(4));
    assert_eq!(set.get(4), Some(&'d'));
    assert_eq!(set.get(5), Some(&'e'));
    assert_eq!(set.len(), 5);
}

fn check_bijection<S: SparseStorage<EntityId = usize>>(set: &SparseSet<usize, char, S>) {
    assert_eq!(set.ids().len(), set.len());
    assert_eq!(set.data().len(), set.len());
    for j in 0..set.len() {
        let id = set.get_id(j).unwrap();
        assert_eq!(set.ids()[j], id);
        assert!(set.contains(id));
        assert_eq!(set.get_index(id), Some(j));
        assert_eq!(set.get(id), Some(&set.data()[j]));
    }
    assert_eq!(set.get_id(set.len()), None);
}

#[test]
fn scenario_on_array_backend() {
    run_scenario(VecStorage::<usize>::new());
}

#[test]
fn scenario_on_hash_backend() {
    run_scenario(HashMap::<usize, usize>::new());
}

#[test]
fn scenario_on_ordered_backend() {
    run_scenario(BTreeMap::<usize, usize>::new());
}

#[test]
fn aliases_name_the_three_backends() {
    let mut a: SparseSetVec<usize, char> = SparseSet::default();
    let mut b: SparseSetHashMap<usize, char> = SparseSet::default();
    let mut c: SparseSetBTreeMap<usize, char> = SparseSet::default();
    assert_eq!(a.insert(9, 'x'), None);
    assert_eq!(b.insert(9, 'x'), None);
    assert_eq!(c.insert(9, 'x'), None);
    assert_eq!(a.get(9), Some(&'x'));
    assert_eq!(b.get(9), Some(&'x'));
    assert_eq!(c.get(9), Some(&'x'));
}

#[test]
fn bijection_holds_after_every_operation() {
    let mut set = abc(VecStorage::<usize>::new());
    check_bijection(&set);
    set.insert(40, 'd');
    check_bijection(&set);
    set.insert(2, 'q');
    check_bijection(&set);
    set.swap_by_index(0, 3);
    check_bijection(&set);
    set.swap_by_entity_id(2, 3);
    check_bijection(&set);
    set.swap_remove_by_index(1);
    check_bijection(&set);
    set.swap_remove_by_id(40);
    check_bijection(&set);
    let mut ids = vec![7, 8, 9];
    let mut data = vec!['x', 'y', 'z'];
    set.insert_batch(&mut ids, &mut data);
    check_bijection(&set);
    set.clear();
    check_bijection(&set);
}

#[test]
fn bijection_holds_on_hash_and_ordered_backends() {
    let mut h = abc(HashMap::<usize, usize>::new());
    h.swap_remove_by_id(1);
    h.swap_by_index(0, 1);
    check_bijection(&h);
    assert_eq!(h.ids(), &[2, 3]);
    let mut o = abc(BTreeMap::<usize, usize>::new());
    o.swap_remove_by_id(1);
    o.swap_by_index(0, 1);
    check_bijection(&o);
    assert_eq!(o.ids(), &[2, 3]);
}

#[test]
fn insert_of_present_id_keeps_position() {
    let mut set = abc(VecStorage::<usize>::new());
    assert_eq!(set.get_index(2), Some(1));
    assert_eq!(set.insert(2, 'x'), Some('b'));
    assert_eq!(set.get_index(2), Some(1));
    assert_eq!(set.ids(), &[1, 2, 3]);
    assert_eq!(set.data(), &['a', 'x', 'c']);
    assert_eq!(set.len(), 3);
}

#[test]
fn value_stays_until_removed_or_reinserted() {
    let mut set = abc(HashMap::<usize, usize>::new());
    assert_eq!(set.get(1), Some(&'a'));
    set.insert(10, 'k');
    assert_eq!(set.get(1), Some(&'a'));
    set.swap_by_index(0, 3);
    assert_eq!(set.get(1), Some(&'a'));
    assert_eq!(set.get(10), Some(&'k'));
    set.swap_remove_by_id(2);
    assert_eq!(set.get(1), Some(&'a'));
    assert_eq!(set.get(3), Some(&'c'));
    assert_eq!(set.insert(1, 'n'), Some('a'));
    assert_eq!(set.get(1), Some(&'n'));
    assert_eq!(set.swap_remove_by_id(1), Some('n'));
    assert_eq!(set.get(1), None);
}

#[test]
fn swap_remove_moves_last_into_the_gap() {
    let mut set = abc(VecStorage::<usize>::new());
    set.insert(4, 'd');
    assert_eq!(set.swap_remove_by_index(1), Some('b'));
    assert_eq!(set.len(), 3);
    assert_eq!(set.get_index(4), Some(1));
    assert_eq!(set.get_index(2), None);
    assert!(!set.contains(2));
    assert_eq!(set.ids(), &[1, 4, 3]);
    assert_eq!(set.data(), &['a', 'd', 'c']);
}

#[test]
fn swap_remove_of_last_only_truncates() {
    let mut set = abc(BTreeMap::<usize, usize>::new());
    assert_eq!(set.swap_remove_by_index(2), Some('c'));
    assert_eq!(set.ids(), &[1, 2]);
    assert_eq!(set.data(), &['a', 'b']);
    assert_eq!(set.get_index(1), Some(0));
    assert_eq!(set.get_index(2), Some(1));
    assert!(!set.contains(3));
}

#[test]
fn swap_remove_out_of_range_is_absent() {
    let mut set = abc(VecStorage::<usize>::new());
    assert_eq!(set.swap_remove_by_index(3), None);
    assert_eq!(set.swap_remove_by_index(usize::MAX), None);
    assert_eq!(set.ids(), &[1, 2, 3]);
    assert_eq!(set.data(), &['a', 'b', 'c']);
    assert_eq!(set.swap_remove_by_id(77), None);
    assert_eq!(set.len(), 3);
}

#[test]
fn empty_and_cleared_sets_hold_nothing() {
    let mut fresh: SparseSet<usize, char, VecStorage<usize>> =
        SparseSet::with_storage(VecStorage::new());
    assert_eq!(fresh.len(), 0);
    assert!(fresh.is_empty());
    assert!(fresh.data().is_empty());
    assert!(fresh.ids().is_empty());
    assert_eq!(fresh.get(5), None);
    assert!(!fresh.contains(5));
    assert_eq!(fresh.get_index(5), None);
    assert_eq!(fresh.get_id(0), None);
    assert_eq!(fresh.get_mut(5), None);
    assert_eq!(fresh.swap_remove_by_id(5), None);
    assert_eq!(fresh.swap_remove_by_index(0), None);

    let mut set = abc(HashMap::<usize, usize>::new());
    set.clear();
    assert_eq!(set.len(), 0);
    assert!(set.is_empty());
    assert!(set.data().is_empty());
    assert!(set.ids().is_empty());
    for id in [1usize, 2, 3, 4] {
        assert_eq!(set.get(id), None);
        assert!(!set.contains(id));
        assert_eq!(set.swap_remove_by_id(id), None);
    }
    assert_eq!(set.insert(3, 'r'), None);
    assert_eq!(set.get_index(3), Some(0));
}

#[test]
fn swap_by_index_exchanges_two_positions() {
    let mut set = abc(VecStorage::<usize>::new());
    set.swap_by_index(0, 2);
    assert_eq!(set.ids(), &[3, 2, 1]);
    assert_eq!(set.data(), &['c', 'b', 'a']);
    assert_eq!(set.get_index(1), Some(2));
    assert_eq!(set.get_index(3), Some(0));
    assert_eq!(set.get(1), Some(&'a'));
    assert_eq!(set.get(3), Some(&'c'));
    set.swap_by_index(2, 1);
    assert_eq!(set.ids(), &[3, 1, 2]);
    assert_eq!(set.data(), &['c', 'a', 'b']);
}

#[test]
fn swap_of_a_position_with_itself_changes_nothing() {
    let mut set = abc(HashMap::<usize, usize>::new());
    set.swap_by_index_unchecked(1, 1);
    set.swap_by_index(2, 2);
    assert_eq!(set.ids(), &[1, 2, 3]);
    assert_eq!(set.data(), &['a', 'b', 'c']);
    assert_eq!(set.get_index(2), Some(1));
}

#[test]
fn swap_by_index_unchecked_exchanges_two_positions() {
    let mut set = abc(BTreeMap::<usize, usize>::new());
    set.swap_by_index_unchecked(2, 0);
    assert_eq!(set.ids(), &[3, 2, 1]);
    assert_eq!(set.data(), &['c', 'b', 'a']);
    assert_eq!(set.get_index(1), Some(2));
    assert_eq!(set.get_index(3), Some(0));
}

#[test]
fn swap_by_entity_id_exchanges_or_does_nothing() {
    let mut set = abc(VecStorage::<usize>::new());
    set.swap_by_entity_id(1, 3);
    assert_eq!(set.ids(), &[3, 2, 1]);
    assert_eq!(set.data(), &['c', 'b', 'a']);
    assert_eq!(set.get_index(1), Some(2));
    set.swap_by_entity_id(1, 99);
    set.swap_by_entity_id(99, 2);
    set.swap_by_entity_id(98, 99);
    assert_eq!(set.ids(), &[3, 2, 1]);
    assert_eq!(set.data(), &['c', 'b', 'a']);
    set.swap_by_entity_id(2, 2);
    assert_eq!(set.ids(), &[3, 2, 1]);
}

#[test]
fn get_mut_changes_one_value_in_place() {
    let mut set = abc(VecStorage::<usize>::new());
    match set.get_mut(2) {
        Some(v) => *v = 'B',
        None => panic!("id 2 is present"),
    }
    assert_eq!(set.data(), &['a', 'B', 'c']);
    assert_eq!(set.ids(), &[1, 2, 3]);
    assert_eq!(set.get_index(2), Some(1));
    assert!(set.get_mut(9).is_none());
}

#[test]
fn data_mut_changes_contents_only() {
    let mut set = abc(HashMap::<usize, usize>::new());
    for v in set.data_mut().iter_mut() {
        *v = v.to_ascii_uppercase();
    }
    assert_eq!(set.data(), &['A', 'B', 'C']);
    assert_eq!(set.ids(), &[1, 2, 3]);
    assert_eq!(set.get(3), Some(&'C'));
    assert_eq!(set.data_mut().len(), 3);
}

#[test]
fn get_id_resolves_positions() {
    let set = abc(VecStorage::<usize>::new());
    assert_eq!(set.get_id(0), Some(1));
    assert_eq!(set.get_id(2), Some(3));
    assert_eq!(set.get_id(3), None);
}

#[test]
fn insert_batch_on_empty_set_starts_at_position_zero() {
    let mut set: SparseSet<usize, char, VecStorage<usize>> = SparseSet::default();
    let mut ids = vec![30, 10, 20];
    let mut data = vec!['x', 'y', 'z'];
    set.insert_batch(&mut ids, &mut data);
    assert_eq!(set.ids(), &[30, 10, 20]);
    assert_eq!(set.data(), &['x', 'y', 'z']);
    assert_eq!(set.get_index(30), Some(0));
    assert_eq!(set.get_index(10), Some(1));
    assert_eq!(set.get_index(20), Some(2));
    let mut none_ids: Vec<usize> = Vec::new();
    let mut none_data: Vec<char> = Vec::new();
    set.insert_batch(&mut none_ids, &mut none_data);
    assert_eq!(set.len(), 3);
}

#[test]
fn values_that_are_not_copy_move_in_and_out() {
    let mut set: SparseSet<u32, String, VecStorage<u32>> = SparseSet::default();
    assert_eq!(set.insert(5, String::from("five")), None);
    assert_eq!(set.insert(6, String::from("six")), None);
    assert_eq!(set.insert(5, String::from("FIVE")), Some(String::from("five")));
    set.swap_by_index(0, 1);
    assert_eq!(set.data(), &[String::from("six"), String::from("FIVE")]);
    assert_eq!(set.swap_remove_by_id(6), Some(String::from("six")));
    assert_eq!(set.data(), &[String::from("FIVE")]);
    assert_eq!(set.get_index(5), Some(0));
}

#[test]
fn clone_of_a_set_is_independent() {
    let set = abc(VecStorage::<usize>::new());
    let mut copy = set.clone();
    assert_eq!(copy.ids(), &[1, 2, 3]);
    assert_eq!(copy.data(), &['a', 'b', 'c']);
    assert_eq!(copy.swap_remove_by_id(1), Some('a'));
    assert_eq!(copy.ids(), &[3, 2]);
    assert_eq!(set.ids(), &[1, 2, 3]);
    assert_eq!(set.get_index(1), Some(0));
    check_bijection(&copy);
    check_bijection(&set);
}
