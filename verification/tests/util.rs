use dsa::util::DropCounter;
use std::cell::Cell;
use std::rc::Rc;

#[test]
fn drop_counter_counts_each_drop_once() {
    let rc: Rc<Cell<usize>> = Rc::default();
    let a = DropCounter::new(&rc, "a");
    let b = DropCounter::new(&rc, "b");
    assert_eq!(a.count(), 0);
    assert_eq!(b.count(), 0);
    drop(a);
    assert_eq!(rc.get(), 1);
    assert_eq!(b.count(), 1);
    drop(b);
    assert_eq!(rc.get(), 2);
}

#[test]
fn drop_counter_shares_the_counter_it_was_given() {
    let rc: Rc<Cell<usize>> = Rc::default();
    let other: Rc<Cell<usize>> = Rc::default();
    let a = DropCounter::new(&rc, 1u8);
    assert_eq!(Rc::strong_count(&rc), 2);
    rc.set(41);
    assert_eq!(a.count(), 41);
    drop(a);
    assert_eq!(rc.get(), 42);
    assert_eq!(other.get(), 0);
    assert_eq!(Rc::strong_count(&rc), 1);
}

#[test]
fn drop_counter_stays_at_the_largest_count() {
    let rc: Rc<Cell<usize>> = Rc::new(Cell::new(usize::MAX));
    drop(DropCounter::new(&rc, ()));
    assert_eq!(rc.get(), usize::MAX);
}
