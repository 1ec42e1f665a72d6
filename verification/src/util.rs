//! A wrapper that counts, in a counter shared by many values, how many of
//! them have been dropped.

use std::cell::Cell;
use std::rc::Rc;
use vstd::prelude::*;

verus! {

/// `std::cell::Cell`, a memory location that can be written through a
/// shared reference. What it holds at a given moment is not a function of
/// the handle, so nothing is stated of it.
#[verifier::external_type_specification]
#[verifier::external_body]
#[verifier::reject_recursive_types(T)]
pub struct ExCell<T: ?Sized>(Cell<T>);

/// `Cell::get`: what the counter holds at this moment.
#[verifier::external_body]
fn read(counter: &Cell<usize>) -> usize
    opens_invariants none
    no_unwind
{
    counter.get()
}

/// `Cell::set`: makes the counter hold `count`.
#[verifier::external_body]
fn write(counter: &Cell<usize>, count: usize)
    opens_invariants none
    no_unwind
{
    counter.set(count)
}

/// `Rc::clone`: another handle on the same counter.
#[verifier::external_body]
fn share(counter: &Rc<Cell<usize>>) -> (shared: Rc<Cell<usize>>)
    ensures
        shared == *counter,
{
    Rc::clone(counter)
}

/// A value that adds one to a shared counter when it is dropped.
pub struct DropCounter<T> {
    _val: T,
    counter: Rc<Cell<usize>>,
}

impl<T> DropCounter<T> {
    /// The value that this counter wraps.
    pub closed spec fn value(&self) -> T {
        self._val
    }

    /// The counter that this value reports to.
    pub closed spec fn counter(&self) -> Rc<Cell<usize>> {
        self.counter
    }

    /// Wraps `val` in a value that reports its drop to `cell`.
    pub fn new(cell: &Rc<Cell<usize>>, val: T) -> (wrapped: Self)
        ensures
            wrapped.value() == val,
            wrapped.counter() == *cell,
    {
        Self { _val: val, counter: share(cell) }
    }

    /// How many drops the shared counter has seen so far. The number is
    /// read from a cell that every holder of the counter can write and that
    /// every drop changes, so it is bound to the moment of the call and no
    /// clause can say what it is.
    pub fn count(&self) -> usize {
        read(&*self.counter)
    }
}

impl<T> Drop for DropCounter<T> {
    /// Adds one to the shared counter. A counter that has reached the
    /// largest number stays there.
    fn drop(&mut self)
        opens_invariants none
        no_unwind
    {
        let count = read(&*self.counter);
        if count < usize::MAX {
            write(&*self.counter, count + 1);
        }
    }
}

} // verus!
