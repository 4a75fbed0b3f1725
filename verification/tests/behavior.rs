use std::cell::Cell;
use std::rc::Rc;

use stack_array::{Array, ArrayBuf, Error};

#[test]
fn push_at_capacity_fails_without_altering_state() {
    let mut buf: ArrayBuf<u8, 2> = ArrayBuf::new();
    assert_eq!(buf.try_push(1), Ok(()));
    assert_eq!(buf.try_push(2), Ok(()));
    assert_eq!(buf.len(), 2);
    assert_eq!(buf.try_push(3), Err(Error::CapacityExceeded));
    assert_eq!(buf.len(), 2);
    assert_eq!(buf.as_slice(), [1, 2]);
    assert_eq!(buf.try_push(4), Err(Error::CapacityExceeded));
    assert_eq!(buf.as_slice(), [1, 2]);
}

#[test]
fn push_pop_round_trip_is_lifo() {
    let mut buf: ArrayBuf<u8, 8> = ArrayBuf::from_slice([9].as_slice());
    for v in [1, 2, 3, 4, 5] {
        buf.push(v);
    }
    let mut popped = Vec::new();
    for _ in 0..5 {
        popped.push(buf.pop().unwrap());
    }
    assert_eq!(popped, [5, 4, 3, 2, 1]);
    assert_eq!(buf.as_slice(), [9]);
    assert_eq!(buf.len(), 1);
}

#[test]
fn insert_remove_round_trip() {
    let mut list: stack_array::array::Array<u8, 4> =
        stack_array::array::Array::from_slice([1, 2, 3].as_slice());
    list.insert(1, 9);
    assert_eq!(list.as_slice(), [1, 9, 2, 3]);
    assert_eq!(list.remove(1), 9);
    assert_eq!(list.as_slice(), [1, 2, 3]);

    let mut buf: ArrayBuf<u8, 4> = ArrayBuf::from_slice([1, 2, 3].as_slice());
    buf.insert(3, 9);
    assert_eq!(buf.remove(3), 9);
    assert_eq!(buf.as_slice(), [1, 2, 3]);
}

#[test]
fn truncate_keeps_prefix() {
    let mut buf: ArrayBuf<u8, 4> = ArrayBuf::from_slice([1, 2, 3].as_slice());
    buf.truncate(3);
    assert_eq!(buf.as_slice(), [1, 2, 3]);
    buf.truncate(7);
    assert_eq!(buf.as_slice(), [1, 2, 3]);
    buf.truncate(2);
    assert_eq!(buf.as_slice(), [1, 2]);
    buf.truncate(0);
    assert_eq!(buf.as_slice(), []);
    assert!(buf.is_empty());
}

struct Counted {
    keep: bool,
    drops: Rc<Cell<u32>>,
}

impl Drop for Counted {
    fn drop(&mut self) {
        self.drops.set(self.drops.get() + 1);
    }
}

#[test]
fn retain_keeps_order_and_drops_exactly_once() {
    let counters: Vec<Rc<Cell<u32>>> = (0..4).map(|_| Rc::new(Cell::new(0))).collect();
    {
        let mut buf: ArrayBuf<Counted, 4> = ArrayBuf::new();
        for (i, c) in counters.iter().enumerate() {
            buf.push(Counted {
                keep: i % 2 == 0,
                drops: c.clone(),
            });
        }
        buf.retain(|c| c.keep);
        assert_eq!(buf.len(), 2);
        assert!(buf.get(0).keep && buf.get(1).keep);
        // the rejected elements were dropped during retain, exactly once
        assert_eq!(counters[1].get(), 1);
        assert_eq!(counters[3].get(), 1);
        assert_eq!(counters[0].get(), 0);
        assert_eq!(counters[2].get(), 0);
    }
    // the kept elements were dropped with the container, exactly once
    for c in &counters {
        assert_eq!(c.get(), 1);
    }
}

#[test]
fn retain_preserves_relative_order() {
    let mut buf: ArrayBuf<i32, 6> = ArrayBuf::from_slice([5, 1, 4, 2, 3, 6].as_slice());
    buf.retain(|&x| x >= 3);
    assert_eq!(buf.as_slice(), [5, 4, 3, 6]);
}

#[test]
fn drain_tail_yields_in_order() {
    let mut buf: ArrayBuf<u8, 3> = ArrayBuf::from_slice([1, 2, 3].as_slice());
    let mut d = buf.drain(1..3);
    assert_eq!(d.as_slice(), [2, 3]);
    assert_eq!(d.next(), Some(2));
    assert_eq!(d.next(), Some(3));
    assert_eq!(d.next(), None);
    assert_eq!(buf.as_slice(), [1]);
}

#[test]
fn drain_all_empties_and_yields_every_element_once() {
    let mut buf: ArrayBuf<u8, 4> = ArrayBuf::from_slice([1, 2, 3, 4].as_slice());
    let d = buf.drain(0..4);
    assert!(buf.is_empty());
    assert_eq!(d.into_vec(), [1, 2, 3, 4]);
}

#[test]
fn drain_supports_reverse_consumption() {
    let mut buf: ArrayBuf<u8, 4> = ArrayBuf::from_slice([1, 2, 3, 4].as_slice());
    let mut d = buf.drain(1..4);
    assert_eq!(d.len(), 3);
    assert_eq!(d.next_back(), Some(4));
    assert_eq!(d.next(), Some(2));
    assert_eq!(d.next_back(), Some(3));
    assert_eq!(d.next_back(), None);
    assert_eq!(buf.as_slice(), [1]);
}

#[test]
fn drain_middle_closes_the_gap() {
    let mut buf: ArrayBuf<u8, 5> = ArrayBuf::from_slice([1, 2, 3, 4, 5].as_slice());
    let d = buf.drain(1..3);
    assert_eq!(d.into_vec(), [2, 3]);
    assert_eq!(buf.as_slice(), [1, 4, 5]);
}

#[test]
fn try_drain_rejects_bad_ranges() {
    let mut buf: ArrayBuf<u8, 3> = ArrayBuf::from_slice([1, 2, 3].as_slice());
    match buf.try_drain(2..1) {
        Err(e) => assert_eq!(e, Error::IndexOutOfBounds),
        Ok(_) => panic!("range with start past end must be rejected"),
    }
    match buf.try_drain(1..4) {
        Err(e) => assert_eq!(e, Error::IndexOutOfBounds),
        Ok(_) => panic!("range past the length must be rejected"),
    }
    assert_eq!(buf.as_slice(), [1, 2, 3]);
    let d = buf.try_drain(0..2).unwrap();
    assert_eq!(d.into_vec(), [1, 2]);
    assert_eq!(buf.as_slice(), [3]);
}

#[test]
fn swap_remove_moves_last_into_gap() {
    let mut buf: ArrayBuf<&str, 4> = ArrayBuf::from_slice(["foo", "bar", "baz", "qux"].as_slice());
    assert_eq!(buf.swap_remove(1), "bar");
    assert_eq!(buf.as_slice(), ["foo", "qux", "baz"]);
    assert_eq!(buf.swap_remove(0), "foo");
    assert_eq!(buf.as_slice(), ["baz", "qux"]);
}

#[test]
fn oversized_initializer_is_rejected_whole() {
    let r: Result<ArrayBuf<u8, 2>, Error> = ArrayBuf::try_from_slice([1, 2, 3].as_slice());
    assert_eq!(r.err(), Some(Error::CapacityExceeded));
    let ok: ArrayBuf<u8, 3> = ArrayBuf::try_from_slice([1, 2, 3].as_slice()).unwrap();
    assert_eq!(ok.as_slice(), [1, 2, 3]);
}

#[test]
fn try_insert_checks_bounds_before_capacity() {
    let mut buf: ArrayBuf<u8, 2> = ArrayBuf::from_slice([1].as_slice());
    assert_eq!(buf.try_insert(5, 9), Err(Error::IndexOutOfBounds));
    assert_eq!(buf.as_slice(), [1]);
    assert_eq!(buf.try_insert(0, 0), Ok(()));
    assert_eq!(buf.as_slice(), [0, 1]);
    assert_eq!(buf.try_insert(1, 9), Err(Error::CapacityExceeded));
    assert_eq!(buf.as_slice(), [0, 1]);
}

#[test]
fn dedup_removes_consecutive_duplicates() {
    let mut buf: ArrayBuf<u8, 8> = ArrayBuf::from_slice([1, 1, 2, 2, 2, 3, 1].as_slice());
    buf.dedup();
    assert_eq!(buf.as_slice(), [1, 2, 3, 1]);
}

#[test]
fn dedup_by_uses_the_relation() {
    let mut buf: ArrayBuf<i32, 6> = ArrayBuf::from_slice([1, -1, 2, 3, -3, 4].as_slice());
    buf.dedup_by(|a, b| a.abs() == b.abs());
    assert_eq!(buf.as_slice(), [1, 2, 3, 4]);
}

#[test]
fn append_moves_everything() {
    let mut a: ArrayBuf<u8, 5> = ArrayBuf::from_slice([1, 2].as_slice());
    let mut b: ArrayBuf<u8, 5> = ArrayBuf::from_slice([3, 4, 5].as_slice());
    a.append(&mut b);
    assert_eq!(a.as_slice(), [1, 2, 3, 4, 5]);
    assert!(b.is_empty());
}

#[test]
fn extend_from_slice_copies_in() {
    let mut buf: ArrayBuf<u8, 4> = ArrayBuf::new();
    buf.extend_from_slice(&[1, 2]);
    buf.extend_from_slice(&[3]);
    assert_eq!(buf.as_slice(), [1, 2, 3]);
}

#[test]
fn byte_sink_refuses_overfull_writes() {
    let mut buf: ArrayBuf<u8, 4> = ArrayBuf::new();
    assert_eq!(buf.write(&[1, 2]), Ok(2));
    assert_eq!(buf.write(&[3, 4, 5]), Err(Error::CapacityExceeded));
    assert_eq!(buf.as_slice(), [1, 2]);
    assert_eq!(buf.write_all(&[3, 4]), Ok(()));
    assert_eq!(buf.as_slice(), [1, 2, 3, 4]);
    assert_eq!(buf.write_all(&[5]), Err(Error::CapacityExceeded));
    assert_eq!(buf.flush(), Ok(()));
    assert_eq!(buf.as_slice(), [1, 2, 3, 4]);
}

#[test]
fn vector_backend_grows_instead_of_refusing() {
    let mut v: Vec<u8> = Vec::new();
    Array::push(&mut v, 1);
    Array::push(&mut v, 2);
    Array::ensure_capacity(&mut v, 100);
    assert!(Array::capacity(&v) >= 100);
    assert_eq!(Array::len(&v), 2);
    assert!(Array::remaining_capacity(&v) >= 98);
    Array::insert(&mut v, 0, 0);
    assert_eq!(Array::as_slice(&v), [0, 1, 2]);
    assert_eq!(Array::remove(&mut v, 1), 1);
    assert_eq!(Array::swap_remove(&mut v, 0), 0);
    assert_eq!(Array::pop(&mut v), Some(2));
    assert_eq!(Array::pop(&mut v), None);
    Array::push(&mut v, 7);
    Array::append(&mut v, &mut vec![8, 9]);
    assert_eq!(Array::as_slice(&v), [7, 8, 9]);
    Array::truncate(&mut v, 1);
    assert_eq!(Array::as_slice(&v), [7]);
    Array::clear(&mut v);
    assert!(Array::is_empty(&v));
}

#[test]
fn slice_range_validates() {
    assert_eq!(stack_array::drain::slice_range(1..3, 5), Ok(1..3));
    assert_eq!(
        stack_array::drain::slice_range(3..1, 5),
        Err(Error::IndexOutOfBounds)
    );
    assert_eq!(
        stack_array::drain::slice_range(1..6, 5),
        Err(Error::IndexOutOfBounds)
    );
}

#[test]
fn fixed_backend_reports_its_bound() {
    let mut buf: ArrayBuf<u8, 3> = ArrayBuf::from_slice([1].as_slice());
    assert_eq!(buf.capacity(), 3);
    assert_eq!(buf.remaining_capacity(), 2);
    assert!(!buf.is_full());
    buf.ensure_capacity(3);
    assert_eq!(buf.as_slice(), [1]);
    buf.push(2);
    buf.push(3);
    assert!(buf.is_full());
    let empty: ArrayBuf<u8, 3> = Default::default();
    assert!(empty.is_empty());
}

#[test]
fn retain_mut_works_on_both_backends() {
    let mut buf: ArrayBuf<i32, 5> = ArrayBuf::from_slice([1, 2, 3, 4, 5].as_slice());
    stack_array::retain_mut(&mut buf, |&x| x % 2 == 1);
    assert_eq!(buf.as_slice(), [1, 3, 5]);

    let mut v: Vec<i32> = vec![1, 2, 3, 4, 5];
    stack_array::retain_mut(&mut v, |&x| x % 2 == 0);
    assert_eq!(v, [2, 4]);
}

#[test]
fn render_handles_signs_and_extremes() {
    let buf: ArrayBuf<isize, 4> = ArrayBuf::from_slice([-12, 0, 345].as_slice());
    assert_eq!("[-12, 0, 345]", buf.render());

    let edge: ArrayBuf<isize, 2> = ArrayBuf::from_slice([isize::MIN, isize::MAX].as_slice());
    assert_eq!(
        "[-9223372036854775808, 9223372036854775807]",
        edge.render()
    );
}
