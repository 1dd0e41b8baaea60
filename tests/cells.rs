use std::cell::Cell;
use std::rc::Rc;

use sart::arc::Arced;
use sart::boxed::RTSafeBoxWrapper;
use sart::FFISafe;

struct Counted {
    value: u64,
    drops: Rc<Cell<u32>>,
}

impl FFISafe for Counted {}

impl Drop for Counted {
    fn drop(&mut self) {
        self.drops.set(self.drops.get() + 1);
    }
}

#[test]
fn construct_then_read_gives_the_value() {
    let cell = RTSafeBoxWrapper::new(42u64);
    assert_eq!(*cell.deref(), 42);
    assert_eq!(cell.unwrap(), 42);
}

#[test]
fn cell_changed_in_place() {
    let mut cell = RTSafeBoxWrapper::new(5i32);
    *cell.deref_mut() += 10;
    assert_eq!(*cell.deref(), 15);
}

#[test]
fn dropping_unread_cell_destroys_value_once() {
    let drops = Rc::new(Cell::new(0));
    {
        let cell = RTSafeBoxWrapper::new(Counted { value: 3, drops: drops.clone() });
        assert_eq!(drops.get(), 0);
        let _ = &cell;
    }
    assert_eq!(drops.get(), 1);
}

#[test]
fn unwrapped_value_is_not_destroyed_by_the_cell() {
    let drops = Rc::new(Cell::new(0));
    let cell = RTSafeBoxWrapper::new(Counted { value: 8, drops: drops.clone() });
    let inner = cell.unwrap();
    assert_eq!(drops.get(), 0);
    assert_eq!(inner.value, 8);
    drop(inner);
    assert_eq!(drops.get(), 1);
}

#[test]
fn shared_value_destroyed_after_last_handle_only() {
    let drops = Rc::new(Cell::new(0));
    let first = Arced::new(Counted { value: 11, drops: drops.clone() });
    let second = Arced::from_raw(&first);
    let third = Arced::from_raw(&second);
    assert_eq!(second.deref().value, 11);
    drop(first);
    assert_eq!(drops.get(), 0);
    drop(third);
    assert_eq!(drops.get(), 0);
    assert_eq!(second.deref().value, 11);
    drop(second);
    assert_eq!(drops.get(), 1);
}
