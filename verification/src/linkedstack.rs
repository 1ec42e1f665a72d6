//! A singly linked stack that owns its nodes and keeps count of them.

use crate::chain::{self, elems, elems_from, node_of, Link, Node};
use crate::fmt::format_list;
use crate::fold::{pairs_equal, spec_pairs_equal};
use crate::model::{spec_equal, spec_pop, spec_push, viewed};
use vstd::prelude::*;
use vstd::std_specs::cmp::PartialEqSpec;

verus! {

/// The chain of nodes together with their number.
struct List<T> {
    head: Link<T>,
    size: usize,
}

impl<T> List<T> {
    /// `size` is the number of nodes in the chain.
    spec fn wf(&self) -> bool {
        self.size == elems(self.head).len()
    }

    /// The elements of the chain, the top first.
    spec fn view(&self) -> Seq<T> {
        elems(self.head)
    }

    fn new() -> (list: Self)
        ensures
            list.wf(),
            list.view() == Seq::<T>::empty(),
    {
        List { head: None, size: 0 }
    }

    fn push(&mut self, elem: T)
        requires
            old(self).wf(),
            old(self).view().len() < usize::MAX,
        ensures
            final(self).wf(),
            final(self).view() == spec_push(old(self).view(), elem),
    {
        chain::push(&mut self.head, elem);
        self.size = self.size + 1;
    }

    fn pop(&mut self) -> (elem: Option<T>)
        requires
            old(self).wf(),
        ensures
            final(self).wf(),
            (elem, final(self).view()) == spec_pop(old(self).view()),
        no_unwind
    {
        let elem = chain::pop(&mut self.head);
        match &elem {
            None => {},
            Some(_) => {
                self.size = self.size - 1;
            },
        }
        elem
    }

    fn peek_mut(&mut self) -> (elem: Option<&mut T>)
        requires
            old(self).wf(),
        ensures
            final(self).wf(),
            old(self).view().len() == 0 ==> elem.is_none() && final(self).view() == old(
                self,
            ).view(),
            old(self).view().len() > 0 ==> elem.is_some() && *elem.unwrap() == old(
                self,
            ).view().first() && final(self).view() == old(self).view().update(
                0,
                *final(elem.unwrap()),
            ),
        no_unwind
    {
        chain::peek_mut(&mut self.head)
    }

    fn elem_mut(&mut self, pos: usize) -> (elem: Option<&mut T>)
        requires
            old(self).wf(),
        ensures
            final(self).wf(),
            pos >= old(self).view().len() ==> elem.is_none() && final(self).view() == old(
                self,
            ).view(),
            pos < old(self).view().len() ==> elem.is_some() && *elem.unwrap() == old(
                self,
            ).view()[pos as int] && final(self).view() == old(self).view().update(
                pos as int,
                *final(elem.unwrap()),
            ),
        no_unwind
    {
        chain::elem_mut(&mut self.head, pos)
    }
}

/// A last-in, first-out stack built as a singly linked chain of nodes.
///
/// Its view is the sequence of its elements, the top first.
pub struct LinkedStack<T> {
    list: List<T>,
}

impl<T> View for LinkedStack<T> {
    type V = Seq<T>;

    closed spec fn view(&self) -> Seq<T> {
        self.list.view()
    }
}

impl<T> LinkedStack<T> {
    #[verifier::type_invariant]
    spec fn inv(self) -> bool {
        self.list.wf()
    }

    /// An empty stack.
    pub fn new() -> (stack: Self)
        ensures
            stack@ == Seq::<T>::empty(),
    {
        LinkedStack { list: List::new() }
    }

    /// Puts `elem` on top. The number of elements has to stay countable.
    pub fn push(&mut self, elem: T)
        requires
            old(self)@.len() < usize::MAX,
        ensures
            final(self)@ == spec_push(old(self)@, elem),
    {
        proof {
            use_type_invariant(&*self);
        }
        let mut list = List::new();
        core::mem::swap(&mut list, &mut self.list);
        list.push(elem);
        self.list = list;
    }

    /// Takes the top element off and returns it, or returns `None` and
    /// changes nothing when the stack is empty.
    pub fn pop(&mut self) -> (elem: Option<T>)
        ensures
            (elem, final(self)@) == spec_pop(old(self)@),
        no_unwind
    {
        proof {
            use_type_invariant(&*self);
        }
        self.list.pop()
    }

    /// A shared view of the top element, or `None` when the stack is empty.
    pub fn peek(&self) -> (elem: Option<&T>)
        ensures
            viewed(elem) == spec_pop(self@).0,
    {
        chain::peek(&self.list.head)
    }

    /// An exclusive view of the top element, or `None` when the stack is
    /// empty. What is written through it replaces the top element; the
    /// elements below stay as they are.
    pub fn peek_mut(&mut self) -> (elem: Option<&mut T>)
        ensures
            old(self)@.len() == 0 ==> elem.is_none() && final(self)@ == old(self)@,
            old(self)@.len() > 0 ==> elem.is_some() && *elem.unwrap() == old(self)@.first()
                && final(self)@ == old(self)@.update(0, *final(elem.unwrap())),
    {
        proof {
            use_type_invariant(&*self);
        }
        self.list.peek_mut()
    }

    /// The number of elements.
    pub fn len(&self) -> (n: usize)
        ensures
            n == self@.len(),
    {
        proof {
            use_type_invariant(self);
        }
        self.list.size
    }

    /// Whether the stack holds no element.
    pub fn is_empty(&self) -> (b: bool)
        ensures
            b == (self@.len() == 0),
    {
        proof {
            use_type_invariant(self);
        }
        self.list.size == 0
    }
}

impl<T> Drop for LinkedStack<T> {
    /// Releases the nodes one by one in a loop, never by a cascade from
    /// node to node.
    fn drop(&mut self)
        opens_invariants none
        no_unwind
    {
        let mut list: List<T> = List { head: None, size: 0 };
        core::mem::swap(&mut list, &mut self.list);
        chain::unlink(list.head);
    }
}

impl<T> LinkedStack<T> {
    /// A traversal of the elements from the top down that leaves the stack
    /// as it is.
    pub fn iter(&self) -> (iter: Iter<'_, T>)
        ensures
            iter@ == self@,
    {
        Iter { node: node_of(&self.list.head) }
    }

    /// Turns the stack into a traversal that hands out the elements
    /// themselves, from the top down, and uses the stack up.
    pub fn into_iter(self) -> (iter: IntoIter<T>)
        ensures
            iter@ == self@,
    {
        IntoIter(self)
    }
}

/// A consuming traversal of a [`LinkedStack`] from the top down.
///
/// Its view is the sequence of the elements not yet handed out.
pub struct IntoIter<T>(LinkedStack<T>);

impl<T> View for IntoIter<T> {
    type V = Seq<T>;

    closed spec fn view(&self) -> Seq<T> {
        self.0@
    }
}

impl<T> IntoIter<T> {
    /// Hands out the top element of what is left.
    pub fn next(&mut self) -> (elem: Option<T>)
        ensures
            (elem, final(self)@) == spec_pop(old(self)@),
    {
        self.0.pop()
    }
}

/// A borrowing traversal of a [`LinkedStack`] from the top down.
///
/// Its view is the sequence of the elements not yet visited.
pub struct Iter<'a, T> {
    node: Option<&'a Node<T>>,
}

impl<'a, T> View for Iter<'a, T> {
    type V = Seq<T>;

    closed spec fn view(&self) -> Seq<T> {
        elems_from(self.node)
    }
}

impl<'a, T> Iter<'a, T> {
    /// Visits the first of the remaining elements and steps to the node
    /// behind it.
    pub fn next(&mut self) -> (elem: Option<&'a T>)
        ensures
            (viewed(elem), final(self)@) == spec_pop(old(self)@),
    {
        match self.node {
            None => None,
            Some(node) => {
                self.node = node_of(&node.next);
                assert(self@ =~= old(self)@.drop_first());
                Some(&node.elem)
            },
        }
    }
}

/// The elements of `a` and `b` paired position by position, as far as the
/// shorter of the two reaches.
fn zip<'a, T>(a: &'a LinkedStack<T>, b: &'a LinkedStack<T>) -> (pairs: Vec<(&'a T, &'a T)>)
    ensures
        pairs@.len() == if a@.len() <= b@.len() {
            a@.len()
        } else {
            b@.len()
        },
        forall|i: int|
            0 <= i < pairs@.len() ==> *(#[trigger] pairs@[i]).0 == a@[i] && *pairs@[i].1 == b@[i],
{
    let mut xs = a.iter();
    let mut ys = b.iter();
    let mut pairs: Vec<(&'a T, &'a T)> = Vec::new();
    loop
        invariant_except_break
            xs@ == a@.skip(pairs@.len() as int),
            ys@ == b@.skip(pairs@.len() as int),
        invariant
            pairs@.len() <= a@.len(),
            pairs@.len() <= b@.len(),
            forall|i: int|
                0 <= i < pairs@.len() ==> *(#[trigger] pairs@[i]).0 == a@[i] && *pairs@[i].1
                    == b@[i],
        ensures
            pairs@.len() == a@.len() || pairs@.len() == b@.len(),
        decreases xs@.len(),
    {
        let ghost n = pairs@.len() as int;
        match xs.next() {
            None => {
                break ;
            },
            Some(x) => match ys.next() {
                None => {
                    break ;
                },
                Some(y) => {
                    pairs.push((x, y));
                    assert(xs@ =~= a@.skip(n + 1));
                    assert(ys@ =~= b@.skip(n + 1));
                },
            },
        }
    }
    pairs
}

/// Whether `a` and `b` hold equal elements in the same order: the sizes are
/// compared first, then the elements pair by pair up to the first
/// difference.
fn equal<T: PartialEq>(a: &LinkedStack<T>, b: &LinkedStack<T>) -> (equal: bool)
    ensures
        T::obeys_eq_spec() ==> equal == spec_equal(a@, b@),
{
    if a.len() != b.len() {
        return false;
    }
    let pairs = zip(a, b);
    proof {
        if spec_pairs_equal(pairs@) {
            assert forall|i: int| 0 <= i < a@.len() implies (#[trigger] a@[i]).eq_spec(
                &b@[i],
            ) by {
                assert(pairs@[i].0.eq_spec(pairs@[i].1));
            }
        }
        if spec_equal(a@, b@) {
            assert forall|i: int| 0 <= i < pairs@.len() implies (#[trigger] pairs@[i]).0.eq_spec(
                pairs@[i].1,
            ) by {
                assert(a@[i].eq_spec(&b@[i]));
            }
        }
    }
    pairs_equal(&pairs)
}

impl<T: PartialEq> vstd::std_specs::cmp::PartialEqSpecImpl for LinkedStack<T> {
    open spec fn obeys_eq_spec() -> bool {
        T::obeys_eq_spec()
    }

    /// Two stacks are equal if they hold equal elements in the same order.
    open spec fn eq_spec(&self, other: &Self) -> bool {
        spec_equal(self@, other@)
    }
}

impl<T: PartialEq> PartialEq for LinkedStack<T> {
    fn eq(&self, other: &Self) -> (equal: bool) {
        equal(self, other)
    }
}

impl<T: Eq> Eq for LinkedStack<T> {

}

impl<T> Default for LinkedStack<T> {
    fn default() -> (stack: Self)
        ensures
            stack@ == Seq::<T>::empty(),
    {
        Self::new()
    }
}

impl<T: Clone> Clone for LinkedStack<T> {
    /// A stack of its own nodes that holds a clone of every element, in the
    /// same order. The new chain is built from the top down: a cursor stays
    /// on the empty link at its end, and each clone is hung in there.
    fn clone(&self) -> (res: Self)
        ensures
            res@.len() == self@.len(),
            forall|i: int| 0 <= i < self@.len() ==> cloned::<T>(self@[i], #[trigger] res@[i]),
    {
        proof {
            use_type_invariant(self);
        }
        let mut head: Link<T> = None;
        let mut cursor: &mut Link<T> = &mut head;
        let mut iter = self.iter();
        let ghost mut done: Seq<T> = Seq::empty();
        loop
            invariant
                *cursor == None::<Box<Node<T>>>,
                elems(after_borrow(head)) == done + elems(*final(cursor)),
                done.len() <= self@.len(),
                iter@ == self@.skip(done.len() as int),
                forall|i: int| 0 <= i < done.len() ==> cloned::<T>(self@[i], #[trigger] done[i]),
            ensures
                done.len() == self@.len(),
            decreases iter@.len(),
        {
            match iter.next() {
                None => {
                    break ;
                },
                Some(elem) => {
                    let copy = elem.clone();
                    let ghost rest = *final(cursor);
                    *cursor = Some(Box::new(Node { elem: copy, next: None }));
                    match cursor {
                        Some(node) => {
                            cursor = &mut node.next;
                        },
                        None => {},
                    }
                    proof {
                        assert(iter@ =~= self@.skip(done.len() as int + 1));
                        assert(elems(rest) == seq![copy] + elems(*final(cursor)));
                        assert(done + (seq![copy] + elems(*final(cursor))) =~= done.push(copy)
                            + elems(*final(cursor)));
                        done = done.push(copy);
                    }
                },
            }
        }
        assert(elems(head) =~= done);
        LinkedStack { list: List { head, size: self.list.size } }
    }
}

impl<T> LinkedStack<T> {
    /// Shared views of all elements, the top first.
    pub fn to_vec(&self) -> (items: Vec<&T>)
        ensures
            items@.len() == self@.len(),
            forall|i: int| 0 <= i < items@.len() ==> *(#[trigger] items@[i]) == self@[i],
    {
        let mut iter = self.iter();
        let mut items: Vec<&T> = Vec::new();
        loop
            invariant_except_break
                iter@ == self@.skip(items@.len() as int),
            invariant
                items@.len() <= self@.len(),
                forall|i: int| 0 <= i < items@.len() ==> *(#[trigger] items@[i]) == self@[i],
            ensures
                items@.len() == self@.len(),
            decreases iter@.len(),
        {
            let ghost n = items@.len() as int;
            match iter.next() {
                None => {
                    break ;
                },
                Some(elem) => {
                    items.push(elem);
                    assert(iter@ =~= self@.skip(n + 1));
                },
            }
        }
        items
    }
}

impl<T: core::fmt::Debug> LinkedStack<T> {
    /// The stack written as a list of its elements, the top first, each in
    /// its `Debug` form. The elements are handed to the formatter exactly as
    /// [`to_vec`](Self::to_vec) gives them; the text that comes back is
    /// decided by the `Debug` impl of the element type, which is not the
    /// stack's to promise.
    pub fn debug_string(&self) -> String {
        format_list(&self.to_vec())
    }
}

impl<T> LinkedStack<T> {
    /// An exclusive view of the element `pos` places below the top, or
    /// `None` when the stack holds no more than `pos` elements.
    fn elem_mut(&mut self, pos: usize) -> (elem: Option<&mut T>)
        ensures
            pos >= old(self)@.len() ==> elem.is_none() && final(self)@ == old(self)@,
            pos < old(self)@.len() ==> elem.is_some() && *elem.unwrap() == old(self)@[pos as int]
                && final(self)@ == old(self)@.update(pos as int, *final(elem.unwrap())),
        no_unwind
    {
        proof {
            use_type_invariant(&*self);
        }
        self.list.elem_mut(pos)
    }

    /// A traversal from the top down that hands out an exclusive view of
    /// one element at a time. What is written through the views is what the
    /// stack holds afterwards. Each step walks down from the top to its
    /// element, so a full traversal costs a number of steps quadratic in the
    /// size of the stack.
    pub fn iter_mut(&mut self) -> (iter: IterMut<'_, T>)
        ensures
            *iter.stack == *old(self),
            iter.pos == 0,
            *final(iter.stack) == *final(self),
    {
        IterMut { stack: self, pos: 0 }
    }
}

/// A traversal of a [`LinkedStack`] from the top down that hands out
/// exclusive views of the elements, one at a time.
pub struct IterMut<'a, T> {
    /// The stack under traversal.
    pub stack: &'a mut LinkedStack<T>,
    /// How many elements have been visited.
    pub pos: usize,
}

impl<'a, T> IterMut<'a, T> {
    /// Whether an element is left to visit.
    pub open spec fn has_next(&self) -> bool {
        self.pos < self.stack@.len()
    }

    /// Visits the first element not yet visited. What is written through the
    /// view replaces that element; the others stay as they are.
    pub fn next(&mut self) -> (elem: Option<&mut T>)
        ensures
            *final(final(self).stack) == *final(old(self).stack),
            !old(self).has_next() ==> {
                &&& elem.is_none()
                &&& final(self).pos == old(self).pos
                &&& final(self).stack@ == old(self).stack@
            },
            old(self).has_next() ==> {
                &&& elem.is_some()
                &&& *elem.unwrap() == old(self).stack@[old(self).pos as int]
                &&& final(self).pos == old(self).pos + 1
                &&& final(self).stack@ == old(self).stack@.update(
                    old(self).pos as int,
                    *final(elem.unwrap()),
                )
            },
    {
        let pos = self.pos;
        if pos >= self.stack.len() {
            return None;
        }
        match self.stack.elem_mut(pos) {
            None => None,
            Some(elem) => {
                self.pos = pos + 1;
                Some(elem)
            },
        }
    }
}

} // verus!
