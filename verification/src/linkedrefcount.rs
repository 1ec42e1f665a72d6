//! A persistent singly linked list whose nodes are shared between lists.
//!
//! Prepending to a list and taking its tail build a new list that shares
//! every node it can with the old one; no list is ever changed.

use crate::fmt::format_list;
use crate::fold::{pairs_equal, spec_pairs_equal};
use crate::model::{spec_equal, viewed};
use std::sync::Arc;
use vstd::prelude::*;
use vstd::std_specs::cmp::PartialEqSpec;

verus! {

/// The first element of `s`, if there is any.
pub open spec fn spec_head<T>(s: Seq<T>) -> Option<T> {
    if s.len() == 0 {
        None
    } else {
        Some(s.first())
    }
}

/// What follows the first element of `s`; nothing where `s` is empty.
pub open spec fn spec_tail<T>(s: Seq<T>) -> Seq<T> {
    if s.len() == 0 {
        s
    } else {
        s.drop_first()
    }
}

type Link<T> = Option<Arc<Node<T>>>;

/// One node of a list: an element and the shared rest of the list.
///
/// Its view is the sequence of the elements from this node on.
pub struct Node<T> {
    elem: T,
    next: Link<T>,
}

/// The elements of the nodes reachable from `link`, nearest first.
spec fn elems<T>(link: Link<T>) -> Seq<T>
    decreases link,
{
    match link {
        None => Seq::empty(),
        Some(node) => seq![node.elem] + elems(node.next),
    }
}

impl<T> View for Node<T> {
    type V = Seq<T>;

    closed spec fn view(&self) -> Seq<T> {
        seq![self.elem] + elems(self.next)
    }
}

impl<T> Node<T> {
    /// The element of this node.
    pub fn elem(&self) -> (elem: &T)
        ensures
            self@.len() > 0,
            *elem == self@.first(),
    {
        &self.elem
    }

    /// The node behind this one, if there is any.
    pub fn next(&self) -> (next: Option<&Arc<Node<T>>>)
        ensures
            match next {
                Some(node) => node@ == self@.drop_first(),
                None => self@.len() == 1,
            },
    {
        match &self.next {
            None => None,
            Some(node) => {
                assert(node@ =~= self@.drop_first());
                Some(node)
            },
        }
    }
}

/// `Arc::clone`: another handle on the node that `node` points to.
#[verifier::external_body]
fn share<T>(node: &Arc<Node<T>>) -> (shared: Arc<Node<T>>)
    ensures
        shared == *node,
{
    Arc::clone(node)
}

/// `Arc::try_unwrap`: the node itself where `node` was the only handle on
/// it, else the handle back. Which of the two comes depends on who else
/// holds the node; either way nothing is changed.
#[verifier::external_body]
fn try_unwrap<T>(node: Arc<Node<T>>) -> (res: Result<Node<T>, Arc<Node<T>>>)
    ensures
        match res {
            Ok(owned) => owned == *node,
            Err(shared) => shared == node,
        },
    opens_invariants none
    no_unwind
{
    Arc::try_unwrap(node)
}

/// Another handle on what `link` leads to.
fn share_link<T>(link: &Link<T>) -> (shared: Link<T>)
    ensures
        shared == *link,
{
    match link {
        None => None,
        Some(node) => Some(share(node)),
    }
}

/// The chain of nodes together with the number of its elements.
struct List<T> {
    head: Link<T>,
    size: usize,
}

/// A persistent list.
///
/// Its view is the sequence of its elements, the head first.
pub struct LinkedRefCount<T> {
    list: List<T>,
}

impl<T> View for LinkedRefCount<T> {
    type V = Seq<T>;

    closed spec fn view(&self) -> Seq<T> {
        elems(self.list.head)
    }
}

impl<T> LinkedRefCount<T> {
    #[verifier::type_invariant]
    spec fn inv(self) -> bool {
        self.list.size == elems(self.list.head).len()
    }

    /// An empty list.
    pub fn new() -> (list: Self)
        ensures
            list@ == Seq::<T>::empty(),
    {
        LinkedRefCount { list: List { head: None, size: 0 } }
    }

    /// The list that has `elem` as its head and this list, shared, as its
    /// tail. The number of elements has to stay countable.
    pub fn preprend(&self, elem: T) -> (list: Self)
        requires
            self@.len() < usize::MAX,
        ensures
            list@ == seq![elem] + self@,
    {
        proof {
            use_type_invariant(self);
        }
        LinkedRefCount {
            list: List {
                head: Some(Arc::new(Node { elem, next: share_link(&self.list.head) })),
                size: self.list.size + 1,
            },
        }
    }

    /// The list without its head, sharing all its nodes with this one; the
    /// empty list when this list is empty.
    pub fn tail(&self) -> (list: Self)
        ensures
            list@ == spec_tail(self@),
    {
        proof {
            use_type_invariant(self);
        }
        match &self.list.head {
            None => LinkedRefCount { list: List { head: None, size: 0 } },
            Some(head) => {
                assert(elems(head.next) =~= self@.drop_first());
                LinkedRefCount {
                    list: List { head: share_link(&head.next), size: self.list.size - 1 },
                }
            },
        }
    }

    /// A shared view of the first element, or `None` when the list is empty.
    pub fn head(&self) -> (elem: Option<&T>)
        ensures
            viewed(elem) == spec_head(self@),
    {
        match &self.list.head {
            None => None,
            Some(head) => Some(&head.elem),
        }
    }

    /// The first node, or `None` when the list is empty.
    pub fn head_node(&self) -> (node: Option<&Arc<Node<T>>>)
        ensures
            match node {
                Some(node) => node@ == self@,
                None => self@.len() == 0,
            },
    {
        match &self.list.head {
            None => None,
            Some(head) => Some(head),
        }
    }

    /// The number of elements.
    pub fn len(&self) -> (n: usize)
        ensures
            n == self@.len(),
    {
        proof {
            use_type_invariant(self);
        }
        self.list.size
    }

    /// Whether the list holds no element.
    pub fn is_empty(&self) -> (b: bool)
        ensures
            b == (self@.len() == 0),
    {
        proof {
            use_type_invariant(self);
        }
        self.list.size == 0
    }

    /// A traversal of the elements from the head on.
    pub fn iter(&self) -> (iter: Iter<'_, T>)
        ensures
            iter@ == self@,
    {
        Iter { head: &self.list.head }
    }
}

/// A traversal of a [`LinkedRefCount`] from the head on.
///
/// Its view is the sequence of the elements not yet visited.
pub struct Iter<'a, T> {
    head: &'a Link<T>,
}

impl<'a, T> View for Iter<'a, T> {
    type V = Seq<T>;

    closed spec fn view(&self) -> Seq<T> {
        elems(*self.head)
    }
}

impl<'a, T> Iter<'a, T> {
    /// Visits the first of the remaining elements and steps to the node
    /// behind it.
    pub fn next(&mut self) -> (elem: Option<&'a T>)
        ensures
            viewed(elem) == spec_head(old(self)@),
            final(self)@ == spec_tail(old(self)@),
    {
        let head: &'a Link<T> = self.head;
        match head {
            None => None,
            Some(node) => {
                self.head = &node.next;
                assert(self@ =~= old(self)@.drop_first());
                Some(&node.elem)
            },
        }
    }
}

impl<T> Drop for LinkedRefCount<T> {
    /// Releases, one by one in a loop, the nodes that no other list shares,
    /// and stops at the first node that another list still holds.
    fn drop(&mut self)
        opens_invariants none
        no_unwind
    {
        let mut list: List<T> = List { head: None, size: 0 };
        core::mem::swap(&mut list, &mut self.list);
        let mut cur = list.head;
        loop
            decreases elems(cur).len(),
        {
            match cur {
                None => {
                    break ;
                },
                Some(node) => match try_unwrap(node) {
                    Ok(owned) => {
                        cur = owned.next;
                    },
                    Err(_) => {
                        break ;
                    },
                },
            }
        }
    }
}

impl<T> LinkedRefCount<T> {
    /// The list that holds the elements of `items` in their order, in nodes
    /// of its own.
    pub fn from_iter(items: Vec<T>) -> (list: Self)
        ensures
            list@ == items@,
    {
        let mut items = items;
        let ghost all = items@;
        let mut head: Link<T> = None;
        let mut size: usize = 0;
        assert(all.len() == items.len());
        assert(items@ =~= all.take(items@.len() as int));
        assert(all.skip(items@.len() as int) =~= Seq::<T>::empty());
        loop
            invariant
                all.len() <= usize::MAX,
                items@.len() + size == all.len(),
                items@ == all.take(items@.len() as int),
                elems(head) == all.skip(items@.len() as int),
            ensures
                elems(head) == all,
                size == all.len(),
            decreases items@.len(),
        {
            let ghost n = items@.len() as int;
            match items.pop() {
                None => {
                    assert(all.skip(0) =~= all);
                    break ;
                },
                Some(elem) => {
                    head = Some(Arc::new(Node { elem, next: head }));
                    size = size + 1;
                    assert(items@ =~= all.take(n - 1));
                    assert(elems(head) =~= all.skip(n - 1));
                },
            }
        }
        LinkedRefCount { list: List { head, size } }
    }

    /// Shared views of all elements, the head first.
    pub fn to_vec(&self) -> (items: Vec<&T>)
        ensures
            items@.len() == self@.len(),
            forall|i: int| 0 <= i < items@.len() ==> *(#[trigger] items@[i]) == self@[i],
    {
        let mut iter = self.iter();
        let mut items: Vec<&T> = Vec::new();
        loop
            invariant_except_break
                iter@ == self@.skip(items@.len() as int),
            invariant
                items@.len() <= self@.len(),
                forall|i: int| 0 <= i < items@.len() ==> *(#[trigger] items@[i]) == self@[i],
            ensures
                items@.len() == self@.len(),
            decreases iter@.len(),
        {
            let ghost n = items@.len() as int;
            match iter.next() {
                None => {
                    break ;
                },
                Some(elem) => {
                    items.push(elem);
                    assert(iter@ =~= self@.skip(n + 1));
                },
            }
        }
        items
    }
}

impl<T: core::fmt::Debug> LinkedRefCount<T> {
    /// The list written out with its elements in order, the head first,
    /// each in its `Debug` form. The elements are handed to the formatter
    /// exactly as [`to_vec`](Self::to_vec) gives them; the text that comes
    /// back is decided by the `Debug` impl of the element type, which is not
    /// the list's to promise.
    pub fn debug_string(&self) -> String {
        format_list(&self.to_vec())
    }
}

impl<T: Clone> Clone for LinkedRefCount<T> {
    /// A list in nodes of its own that holds a clone of every element, in
    /// the same order. It shares no node with this list.
    fn clone(&self) -> (res: Self)
        ensures
            res@.len() == self@.len(),
            forall|i: int| 0 <= i < self@.len() ==> cloned::<T>(self@[i], #[trigger] res@[i]),
    {
        let mut iter = self.iter();
        let mut copies: Vec<T> = Vec::new();
        loop
            invariant_except_break
                iter@ == self@.skip(copies@.len() as int),
            invariant
                copies@.len() <= self@.len(),
                forall|i: int|
                    0 <= i < copies@.len() ==> cloned::<T>(self@[i], #[trigger] copies@[i]),
            ensures
                copies@.len() == self@.len(),
            decreases iter@.len(),
        {
            let ghost n = copies@.len() as int;
            match iter.next() {
                None => {
                    break ;
                },
                Some(elem) => {
                    copies.push(elem.clone());
                    assert(iter@ =~= self@.skip(n + 1));
                },
            }
        }
        Self::from_iter(copies)
    }
}

/// The elements of `a` and `b` paired position by position, as far as the
/// shorter of the two reaches.
fn zip<'a, T>(a: &'a LinkedRefCount<T>, b: &'a LinkedRefCount<T>) -> (pairs: Vec<(&'a T, &'a T)>)
    ensures
        pairs@.len() == if a@.len() <= b@.len() {
            a@.len()
        } else {
            b@.len()
        },
        forall|i: int|
            0 <= i < pairs@.len() ==> *(#[trigger] pairs@[i]).0 == a@[i] && *pairs@[i].1 == b@[i],
{
    let mut xs = a.iter();
    let mut ys = b.iter();
    let mut pairs: Vec<(&'a T, &'a T)> = Vec::new();
    loop
        invariant_except_break
            xs@ == a@.skip(pairs@.len() as int),
            ys@ == b@.skip(pairs@.len() as int),
        invariant
            pairs@.len() <= a@.len(),
            pairs@.len() <= b@.len(),
            forall|i: int|
                0 <= i < pairs@.len() ==> *(#[trigger] pairs@[i]).0 == a@[i] && *pairs@[i].1
                    == b@[i],
        ensures
            pairs@.len() == a@.len() || pairs@.len() == b@.len(),
        decreases xs@.len(),
    {
        let ghost n = pairs@.len() as int;
        match xs.next() {
            None => {
                break ;
            },
            Some(x) => match ys.next() {
                None => {
                    break ;
                },
                Some(y) => {
                    pairs.push((x, y));
                    assert(xs@ =~= a@.skip(n + 1));
                    assert(ys@ =~= b@.skip(n + 1));
                },
            },
        }
    }
    pairs
}

/// Whether `a` and `b` hold equal elements in the same order: the sizes are
/// compared first, then the elements pair by pair up to the first
/// difference.
fn equal<T: PartialEq>(a: &LinkedRefCount<T>, b: &LinkedRefCount<T>) -> (equal: bool)
    ensures
        T::obeys_eq_spec() ==> equal == spec_equal(a@, b@),
{
    if a.len() != b.len() {
        return false;
    }
    let pairs = zip(a, b);
    proof {
        if spec_pairs_equal(pairs@) {
            assert forall|i: int| 0 <= i < a@.len() implies (#[trigger] a@[i]).eq_spec(
                &b@[i],
            ) by {
                assert(pairs@[i].0.eq_spec(pairs@[i].1));
            }
        }
        if spec_equal(a@, b@) {
            assert forall|i: int| 0 <= i < pairs@.len() implies (#[trigger] pairs@[i]).0.eq_spec(
                pairs@[i].1,
            ) by {
                assert(a@[i].eq_spec(&b@[i]));
            }
        }
    }
    pairs_equal(&pairs)
}

impl<T: PartialEq> vstd::std_specs::cmp::PartialEqSpecImpl for LinkedRefCount<T> {
    open spec fn obeys_eq_spec() -> bool {
        T::obeys_eq_spec()
    }

    /// Two lists are equal if they hold equal elements in the same order.
    open spec fn eq_spec(&self, other: &Self) -> bool {
        spec_equal(self@, other@)
    }
}

impl<T: PartialEq> PartialEq for LinkedRefCount<T> {
    fn eq(&self, other: &Self) -> (equal: bool) {
        equal(self, other)
    }
}

impl<T: Eq> Eq for LinkedRefCount<T> {

}

impl<T> Default for LinkedRefCount<T> {
    fn default() -> (list: Self)
        ensures
            list@ == Seq::<T>::empty(),
    {
        Self::new()
    }
}

} // verus!
