use std::cell::RefCell;
use std::rc::Rc;

use sart::layout::{data_offset, header_offset};
use sart::vector::Vector;
use sart::FFISafe;

#[test]
fn push_thousand_then_pop_all() {
    let mut array: Vector<u32> = Vector::new();
    for i in 1..=1000u32 {
        array.push(i);
    }
    assert_eq!(array.len(), 1000);
    assert_eq!(*array.index(500), 501);
    for i in (1..=1000u32).rev() {
        assert_eq!(array.pop(), Some(i));
    }
    assert_eq!(array.len(), 0);
    assert_eq!(array.pop(), None);
    assert_eq!(array.len(), 0);
}

#[test]
fn new_array_starts_with_two_slots() {
    let array: Vector<u64> = Vector::new();
    assert_eq!(array.len(), 0);
    assert_eq!(array.cap(), 2);
}

#[test]
fn growth_doubles_capacity() {
    let mut array: Vector<u8> = Vector::new();
    array.push(1);
    array.push(2);
    assert_eq!(array.cap(), 2);
    array.push(3);
    assert_eq!(array.cap(), 4);
    array.push(4);
    array.push(5);
    assert_eq!(array.cap(), 8);
}

#[test]
fn allocate_grows_to_request_when_larger_than_double() {
    let mut array: Vector<u8> = Vector::new();
    array.allocate(None, 10);
    assert_eq!(array.cap(), 10);
    array.allocate(Some(10), 3);
    assert_eq!(array.cap(), 10);
    array.allocate(None, 11);
    assert_eq!(array.cap(), 20);
}

#[test]
fn push_pop_sequence_keeps_length_and_capacity() {
    let mut array: Vector<i32> = Vector::new();
    let calls = [true, true, true, false, true, false, false, true, true, true, true, false];
    let mut expected: usize = 0;
    for (k, push) in calls.iter().enumerate() {
        if *push {
            array.push(k as i32);
            expected += 1;
        } else {
            assert!(array.pop().is_some());
            expected -= 1;
        }
        assert_eq!(array.len(), expected);
        assert!(array.cap() >= array.len());
    }
    assert_eq!(array.len(), 4);
}

#[test]
fn extend_appends_in_order_and_reserves_once() {
    let mut array: Vector<u16> = Vector::new();
    array.push(7);
    array.extend(vec![1, 2, 3, 4, 5]);
    assert_eq!(array.len(), 6);
    assert_eq!(array.as_slice(), &[7, 1, 2, 3, 4, 5]);
    assert_eq!(array.cap(), 6);
    array.extend(Vec::new());
    assert_eq!(array.len(), 6);
    assert_eq!(array.cap(), 6);
}

#[test]
fn known_fast_paths_match_plain_calls() {
    let mut array: Vector<u64> = Vector::new();
    array.push_known(Some(0), Some(2), 10);
    array.push_known(Some(1), None, 20);
    array.extend_known(Some(2), Some(2), vec![30, 40]);
    assert_eq!(array.as_slice(), &[10, 20, 30, 40]);
    assert_eq!(array.get_known(Some(4), 3), Some(&40));
    assert_eq!(array.get_known(None, 4), None);
    assert_eq!(array.pop_known(Some(4)), Some(40));
    assert_eq!(array.len(), 3);
}

#[test]
fn get_past_length_is_none() {
    let mut array: Vector<u8> = Vector::new();
    assert_eq!(array.get_known(None, 0), None);
    array.push(9);
    assert_eq!(array.get_known(None, 0), Some(&9));
    assert_eq!(array.get_known(None, 1), None);
}

struct Logged {
    id: u32,
    log: Rc<RefCell<Vec<u32>>>,
}

impl FFISafe for Logged {}

impl Drop for Logged {
    fn drop(&mut self) {
        self.log.borrow_mut().push(self.id);
    }
}

#[test]
fn clear_destroys_last_element_first() {
    let log = Rc::new(RefCell::new(Vec::new()));
    let mut array: Vector<Logged> = Vector::new();
    for id in 0..4u32 {
        array.push(Logged { id, log: log.clone() });
    }
    let cap = array.cap();
    array.clear();
    assert_eq!(*log.borrow(), vec![3, 2, 1, 0]);
    assert_eq!(array.len(), 0);
    assert_eq!(array.cap(), cap);
}

#[test]
fn dropping_array_destroys_every_element_once() {
    let log = Rc::new(RefCell::new(Vec::new()));
    {
        let mut array: Vector<Logged> = Vector::new();
        for id in 0..5u32 {
            array.push(Logged { id, log: log.clone() });
        }
    }
    assert_eq!(*log.borrow(), vec![0, 1, 2, 3, 4]);
}

#[test]
fn clear_then_drop_destroys_last_element_first() {
    let log = Rc::new(RefCell::new(Vec::new()));
    {
        let mut array: Vector<Logged> = Vector::new();
        for id in 0..5u32 {
            array.push(Logged { id, log: log.clone() });
        }
        array.clear();
    }
    assert_eq!(*log.borrow(), vec![4, 3, 2, 1, 0]);
}

#[test]
fn payload_offset_follows_two_header_words() {
    let word = std::mem::size_of::<usize>() as isize;
    assert_eq!(data_offset::<u8>(), 2 * word);
    assert_eq!(data_offset::<u64>(), 2 * word);
    assert_eq!(header_offset::<u32>(), -2 * word);
}

#[test]
fn elements_changed_in_place() {
    let mut array: Vector<i64> = Vector::new();
    array.extend(vec![1, 2, 3]);
    *array.index_mut(1) = 20;
    if let Some(e) = array.get_mut_known(Some(3), 2) {
        *e += 100;
    }
    assert!(array.get_mut_known(None, 3).is_none());
    assert_eq!(array.as_slice(), &[1, 20, 103]);
    assert_eq!(array.cap(), 4);
}

#[test]
fn pops_on_empty_array_change_nothing() {
    let mut array: Vector<u8> = Vector::new();
    assert_eq!(array.pop(), None);
    array.push(1);
    array.push(2);
    array.push(3);
    assert_eq!(array.pop(), Some(3));
    assert_eq!(array.pop(), Some(2));
    assert_eq!(array.pop(), Some(1));
    assert_eq!(array.pop(), None);
    assert_eq!(array.len(), 0);
    assert_eq!(array.cap(), 4);
    array.push(9);
    assert_eq!(array.len(), 1);
    assert!(array.cap() >= array.len());
}
