use il2cpp_bridge_rs::collections::{Il2cppArray, Il2cppDictionary, Il2cppList};

fn array(values: &[i32]) -> Il2cppArray<i32> {
    Il2cppArray::from_elements(0x10, 0, 0, values.to_vec())
}

#[test]
fn array_set_then_get() {
    let mut a = array(&[1, 2, 3]);
    a.set(1, 20);
    assert_eq!(a.get(1), 20);
    assert_eq!(a.at(0), 1);
    assert_eq!(a.get(2), 3);
    assert_eq!(a.len(), 3);
    assert!(!a.is_empty());
    assert!(array(&[]).is_empty());
}

#[test]
fn array_insert_clamps_to_length() {
    let mut a = array(&[0, 0, 0, 0]);
    a.insert(&[7, 8, 9], 3, 2);
    assert_eq!(a.to_vector(), vec![0, 0, 7, 8]);
    let mut b = array(&[0, 0, 0]);
    b.insert(&[5, 6], 1, 0);
    assert_eq!(b.to_vector(), vec![5, 0, 0]);
    let mut c = array(&[1, 2]);
    c.insert(&[9], 1, 5);
    assert_eq!(c.to_vector(), vec![1, 2]);
}

#[test]
fn array_fill_sets_every_slot() {
    let mut a = array(&[1, 2, 3]);
    a.fill(4);
    assert_eq!(a.to_vector(), vec![4, 4, 4]);
}

#[test]
fn array_remove_at_shifts_left() {
    let mut a = array(&[1, 2, 3, 4]);
    a.remove_at(1);
    assert_eq!(a.to_vector(), vec![1, 3, 4, 4]);
    a.remove_at(9);
    assert_eq!(a.to_vector(), vec![1, 3, 4, 4]);
    let mut b = array(&[1, 2]);
    b.remove_at(1);
    assert_eq!(b.to_vector(), vec![1, 2]);
}

#[test]
fn array_remove_range_shifts_tail() {
    let mut a = array(&[1, 2, 3, 4, 5]);
    a.remove_range(1, 2);
    assert_eq!(a.to_vector(), vec![1, 4, 5, 4, 5]);
    let mut b = array(&[1, 2, 3]);
    b.remove_range(1, 10);
    assert_eq!(b.to_vector(), vec![1, 2, 3]);
    b.remove_range(0, 0);
    assert_eq!(b.to_vector(), vec![1, 2, 3]);
    b.remove_all();
    assert_eq!(b.len(), 3);
}

fn list(values: &[i32], size: i32) -> Il2cppList<i32> {
    Il2cppList { klass: 0, monitor: 0, items: Some(array(values)), size, version: 0 }
}

#[test]
fn list_reads_first_size_items() {
    let l = list(&[1, 2, 3, 0, 0], 3);
    assert_eq!(l.len(), 3);
    assert_eq!(l.to_vec(), vec![1, 2, 3]);
    assert_eq!(l.iter(), vec![1, 2, 3]);
    assert_eq!(l.get(2), Some(3));
    assert_eq!(l.get(3), None);
    assert_eq!(l.at(0), 1);
}

#[test]
fn list_negative_or_oversized_counts() {
    let l = list(&[1, 2], -4);
    assert_eq!(l.len(), 0);
    assert!(l.is_empty());
    assert!(l.to_vec().is_empty());
    let m = list(&[1, 2], 5);
    assert_eq!(m.len(), 5);
    assert_eq!(m.to_vec(), vec![1, 2]);
    assert_eq!(m.get(3), None);
    let n: Il2cppList<i32> = Il2cppList { klass: 0, monitor: 0, items: None, size: 2, version: 0 };
    assert_eq!(n.get(0), None);
    assert!(n.items_array().is_none());
}

#[test]
fn list_set_then_get() {
    let mut l = list(&[1, 2, 3], 2);
    assert!(l.set(1, 9));
    assert_eq!(l.get(1), Some(9));
    assert!(!l.set(2, 7));
    assert_eq!(l.items_array().unwrap().to_vector(), vec![1, 9, 3]);
}

#[test]
fn dictionary_keys_and_values() {
    let d: Il2cppDictionary<i32, i64> = Il2cppDictionary {
        klass: 0,
        monitor: 0,
        buckets: 0,
        entries: 0,
        keys: Some(array(&[1, 2])),
        values: Some(Il2cppArray::from_elements(0, 0, 0, vec![10i64, 20])),
        touched_slots: 2,
        empty_slot: -1,
        count: 2,
    };
    assert_eq!(d.get_keys(), vec![1, 2]);
    assert_eq!(d.get_values(), vec![10, 20]);
    assert!(d.keys_array().is_some());
}

#[test]
fn list_items_array_mut_writes_through() {
    let mut l = list(&[1, 2, 3], 3);
    match l.items_array_mut() {
        Some(a) => a.set(2, 30),
        None => panic!("list has a backing array"),
    }
    assert_eq!(l.to_vec(), vec![1, 2, 30]);
    let mut n: Il2cppList<i32> = Il2cppList { klass: 0, monitor: 0, items: None, size: 1, version: 0 };
    assert!(n.items_array_mut().is_none());
}
