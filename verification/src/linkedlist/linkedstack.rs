//! A singly linked stack that owns its nodes and keeps nothing but the link
//! to the first of them.

use crate::chain::{self, elems, elems_from, node_of, Link, Node};
use crate::model::{spec_pop, spec_push, viewed};
use vstd::prelude::*;

verus! {

/// A last-in, first-out stack built as a singly linked chain of nodes.
///
/// Its view is the sequence of its elements, the top first.
pub struct LinkedStack<T> {
    head: Link<T>,
}

impl<T> View for LinkedStack<T> {
    type V = Seq<T>;

    closed spec fn view(&self) -> Seq<T> {
        elems(self.head)
    }
}

impl<T> LinkedStack<T> {
    /// An empty stack.
    pub fn new() -> (stack: Self)
        ensures
            stack@ == Seq::<T>::empty(),
    {
        Self { head: None }
    }

    /// Puts `elem` on top.
    pub fn push(&mut self, elem: T)
        ensures
            final(self)@ == spec_push(old(self)@, elem),
    {
        chain::push(&mut self.head, elem)
    }

    /// Takes the top element off and returns it, or returns `None` and
    /// changes nothing when the stack is empty.
    pub fn pop(&mut self) -> (elem: Option<T>)
        ensures
            (elem, final(self)@) == spec_pop(old(self)@),
        no_unwind
    {
        chain::pop(&mut self.head)
    }

    /// A shared view of the top element, or `None` when the stack is empty.
    pub fn peek(&self) -> (elem: Option<&T>)
        ensures
            viewed(elem) == spec_pop(self@).0,
    {
        chain::peek(&self.head)
    }

    /// An exclusive view of the top element, or `None` when the stack is
    /// empty. What is written through it replaces the top element; the
    /// elements below stay as they are.
    pub fn peek_mut(&mut self) -> (elem: Option<&mut T>)
        ensures
            old(self)@.len() == 0 ==> elem.is_none() && final(self)@ == old(self)@,
            old(self)@.len() > 0 ==> elem.is_some() && *elem.unwrap() == old(self)@.first()
                && final(self)@ == old(self)@.update(0, *final(elem.unwrap())),
        no_unwind
    {
        chain::peek_mut(&mut self.head)
    }

    /// An exclusive view of the element `pos` places below the top, or
    /// `None` when the stack holds no more than `pos` elements.
    fn elem_mut(&mut self, pos: usize) -> (elem: Option<&mut T>)
        ensures
            pos >= old(self)@.len() ==> elem.is_none() && final(self)@ == old(self)@,
            pos < old(self)@.len() ==> elem.is_some() && *elem.unwrap() == old(self)@[pos as int]
                && final(self)@ == old(self)@.update(pos as int, *final(elem.unwrap())),
        no_unwind
    {
        chain::elem_mut(&mut self.head, pos)
    }

    /// A traversal of the elements from the top down that leaves the stack
    /// as it is.
    pub fn iter(&self) -> (iter: Iter<'_, T>)
        ensures
            iter@ == self@,
    {
        Iter { node: node_of(&self.head) }
    }

    /// A traversal from the top down that hands out an exclusive view of
    /// one element at a time. What is written through the views is what the
    /// stack holds afterwards. Each step walks down from the top to its
    /// element, so a full traversal costs a number of steps quadratic in the
    /// size of the stack.
    pub fn iter_mut(&mut self) -> (iter: IterMut<'_, T>)
        ensures
            *iter.stack == *old(self),
            iter.pos == 0,
            *final(iter.stack) == *final(self),
    {
        IterMut { stack: self, pos: 0 }
    }

    /// Turns the stack into a traversal that hands out the elements
    /// themselves, from the top down, and uses the stack up.
    pub fn into_iter(self) -> (iter: IntoIter<T>)
        ensures
            iter@ == self@,
    {
        IntoIter(self)
    }
}

impl<T> Drop for LinkedStack<T> {
    /// Releases the nodes one by one in a loop, never by a cascade from
    /// node to node.
    fn drop(&mut self)
        opens_invariants none
        no_unwind
    {
        let mut head: Link<T> = None;
        core::mem::swap(&mut head, &mut self.head);
        chain::unlink(head);
    }
}

/// A consuming traversal of a [`LinkedStack`] from the top down.
///
/// Its view is the sequence of the elements not yet handed out.
pub struct IntoIter<T>(LinkedStack<T>);

impl<T> View for IntoIter<T> {
    type V = Seq<T>;

    closed spec fn view(&self) -> Seq<T> {
        self.0@
    }
}

impl<T> IntoIter<T> {
    /// Hands out the top element of what is left.
    pub fn next(&mut self) -> (elem: Option<T>)
        ensures
            (elem, final(self)@) == spec_pop(old(self)@),
    {
        self.0.pop()
    }
}

/// A borrowing traversal of a [`LinkedStack`] from the top down.
///
/// Its view is the sequence of the elements not yet visited.
pub struct Iter<'a, T> {
    node: Option<&'a Node<T>>,
}

impl<'a, T> View for Iter<'a, T> {
    type V = Seq<T>;

    closed spec fn view(&self) -> Seq<T> {
        elems_from(self.node)
    }
}

impl<'a, T> Iter<'a, T> {
    /// Visits the first of the remaining elements and steps to the node
    /// behind it.
    pub fn next(&mut self) -> (elem: Option<&'a T>)
        ensures
            (viewed(elem), final(self)@) == spec_pop(old(self)@),
    {
        match self.node {
            None => None,
            Some(node) => {
                self.node = node_of(&node.next);
                assert(self@ =~= old(self)@.drop_first());
                Some(&node.elem)
            },
        }
    }
}

/// A traversal of a [`LinkedStack`] from the top down that hands out
/// exclusive views of the elements, one at a time. It counts the elements
/// that it has visited and ends when the count is at its largest.
pub struct IterMut<'a, T> {
    /// The stack under traversal.
    pub stack: &'a mut LinkedStack<T>,
    /// How many elements have been visited.
    pub pos: usize,
}

impl<'a, T> IterMut<'a, T> {
    /// Whether an element is left to visit.
    pub open spec fn has_next(&self) -> bool {
        self.pos < self.stack@.len() && self.pos < usize::MAX
    }

    /// Visits the first element not yet visited. What is written through the
    /// view replaces that element; the others stay as they are.
    pub fn next(&mut self) -> (elem: Option<&mut T>)
        ensures
            *final(final(self).stack) == *final(old(self).stack),
            !old(self).has_next() ==> {
                &&& elem.is_none()
                &&& final(self).pos == old(self).pos
                &&& final(self).stack@ == old(self).stack@
            },
            old(self).has_next() ==> {
                &&& elem.is_some()
                &&& *elem.unwrap() == old(self).stack@[old(self).pos as int]
                &&& final(self).pos == old(self).pos + 1
                &&& final(self).stack@ == old(self).stack@.update(
                    old(self).pos as int,
                    *final(elem.unwrap()),
                )
            },
    {
        let pos = self.pos;
        if pos == usize::MAX {
            return None;
        }
        match self.stack.elem_mut(pos) {
            None => None,
            Some(elem) => {
                self.pos = pos + 1;
                Some(elem)
            },
        }
    }
}

} // verus!
