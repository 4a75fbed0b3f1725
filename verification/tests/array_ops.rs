use stack_array::array::Array;

#[test]
fn push() {
    let mut list: Array<u8, 3> = Array::from_slice([1].as_slice());
    list.push(2);
    list.push(3);
    assert_eq!(list.as_slice(), [1, 2, 3]);
}

#[test]
fn pop() {
    let mut list: Array<u8, 3> = Array::from_slice([1, 2].as_slice());
    assert_eq!(list.pop(), 2);
    assert_eq!(list.pop(), 1);
    assert_eq!(list.len(), 0);
}

#[test]
fn remove() {
    let mut list: Array<u8, 3> = Array::from_slice([1, 2, 3].as_slice());
    assert_eq!(list.remove(0), 1);
    assert_eq!(list.remove(0), 2);
    assert_eq!(list.remove(0), 3);
}

#[test]
fn insert() {
    let mut list: Array<u8, 3> = Array::from_slice([3].as_slice());
    list.insert(0, 1);
    assert_eq!(list.as_slice(), [1, 3]);
    list.insert(1, 2);
    assert_eq!(list.as_slice(), [1, 2, 3]);
}

#[test]
fn list_from_buf() {
    assert_eq!(Array::<u8, 3>::new().len(), 0);
    assert_eq!(Array::<u8, 3>::from_slice([1, 2].as_slice()).len(), 2);
}

#[test]
fn list_from_slice() {
    assert_eq!(Array::<u8, 3>::new().len(), 0);
    assert_eq!(Array::<u8, 3>::from_slice([1, 2].as_ref()).len(), 2);
}

#[test]
fn capacity_is_fixed() {
    let mut list: Array<u8, 3> = Array::new();
    assert_eq!(list.capacity(), 3);
    assert_eq!(list.remaining(), 3);
    assert!(!list.is_full());
    list.push(1);
    list.push(2);
    list.push(3);
    assert_eq!(list.capacity(), 3);
    assert_eq!(list.remaining(), 0);
    assert!(list.is_full());
}

#[test]
fn clear_empties() {
    let mut list: Array<u8, 3> = Array::from_slice([1, 2, 3].as_slice());
    list.clear();
    assert_eq!(list.len(), 0);
    assert_eq!(list.as_slice(), []);
}

#[test]
fn get_reads_by_index() {
    let list: Array<u8, 3> = Array::from_slice([7, 8].as_slice());
    assert_eq!(*list.get(0), 7);
    assert_eq!(*list.get(1), 8);
}

#[test]
fn default_is_empty() {
    let list: Array<u8, 4> = Default::default();
    assert_eq!(list.len(), 0);
}
