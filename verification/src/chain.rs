//! A singly linked chain of boxed nodes, the common ground of the stacks.

use crate::model::{spec_pop, spec_push, viewed};
use vstd::prelude::*;

verus! {

pub(crate) type Link<T> = Option<Box<Node<T>>>;

pub(crate) struct Node<T> {
    pub(crate) elem: T,
    pub(crate) next: Link<T>,
}

/// The elements of the nodes reachable from `link`, nearest first.
pub(crate) open spec fn elems<T>(link: Link<T>) -> Seq<T>
    decreases link,
{
    match link {
        None => Seq::empty(),
        Some(node) => seq![node.elem] + elems(node.next),
    }
}

/// The elements of the node `node` and of those behind it.
pub(crate) open spec fn elems_from<T>(node: Option<&Node<T>>) -> Seq<T> {
    match node {
        None => Seq::empty(),
        Some(node) => seq![node.elem] + elems(node.next),
    }
}

/// The node that `link` leads to, if any.
pub(crate) fn node_of<T>(link: &Link<T>) -> (node: Option<&Node<T>>)
    ensures
        elems_from(node) == elems(*link),
{
    match link {
        None => None,
        Some(node) => Some(&**node),
    }
}

/// Hangs a new node with `elem` in front of the chain.
pub(crate) fn push<T>(link: &mut Link<T>, elem: T)
    ensures
        elems(*final(link)) == spec_push(elems(*old(link)), elem),
{
    let new_node = Box::new(Node { elem, next: link.take() });
    *link = Some(new_node);
}

/// Takes the first node off the chain and hands out its element.
pub(crate) fn pop<T>(link: &mut Link<T>) -> (elem: Option<T>)
    ensures
        (elem, elems(*final(link))) == spec_pop(elems(*old(link))),
    no_unwind
{
    let mut head: Link<T> = None;
    core::mem::swap(&mut head, link);
    match head {
        None => None,
        Some(node) => {
            let node: Node<T> = *node;
            *link = node.next;
            assert(elems(*link) =~= elems(*old(link)).drop_first());
            Some(node.elem)
        },
    }
}

/// A shared view of the element of the first node.
pub(crate) fn peek<T>(link: &Link<T>) -> (elem: Option<&T>)
    ensures
        viewed(elem) == spec_pop(elems(*link)).0,
{
    match link {
        None => None,
        Some(node) => Some(&node.elem),
    }
}

/// An exclusive view of the element of the first node.
pub(crate) fn peek_mut<T>(link: &mut Link<T>) -> (elem: Option<&mut T>)
    ensures
        elems(*old(link)).len() == 0 ==> elem.is_none() && elems(*final(link)) == elems(
            *old(link),
        ),
        elems(*old(link)).len() > 0 ==> elem.is_some() && *elem.unwrap() == elems(
            *old(link),
        ).first() && elems(*final(link)) == elems(*old(link)).update(0, *final(elem.unwrap())),
    no_unwind
{
    match link {
        None => None,
        Some(node) => Some(&mut node.elem),
    }
}

/// An exclusive view of the element of the node `pos` places behind the
/// first, reached by stepping a cursor from link to link.
pub(crate) fn elem_mut<T>(link: &mut Link<T>, pos: usize) -> (elem: Option<&mut T>)
    ensures
        pos >= elems(*old(link)).len() ==> elem.is_none() && elems(*final(link)) == elems(
            *old(link),
        ),
        pos < elems(*old(link)).len() ==> elem.is_some() && *elem.unwrap() == elems(
            *old(link),
        )[pos as int] && elems(*final(link)) == elems(*old(link)).update(
            pos as int,
            *final(elem.unwrap()),
        ),
    no_unwind
{
    let ghost all = elems(*link);
    let mut cur: &mut Link<T> = &mut *link;
    let mut i: usize = 0;
    while i < pos
        invariant
            i <= pos,
            i <= all.len(),
            elems(*cur) == all.skip(i as int),
            elems(after_borrow(*link)) == all.take(i as int) + elems(*final(cur)),
            all == elems(*old(link)),
        decreases pos - i,
    {
        let ghost rest = *final(cur);
        let ghost here = *cur;
        match cur {
            None => {
                assert(all.take(i as int) + all.skip(i as int) =~= all);
                return None;
            },
            Some(node) => {
                let ghost first = node.elem;
                let ghost behind = node.next;
                cur = &mut node.next;
                proof {
                    assert(elems(here) == seq![first] + elems(behind));
                    assert(all.skip(i as int).len() > 0);
                    assert(all.skip(i as int)[0] == first);
                    assert(elems(behind) =~= all.skip(i as int).drop_first());
                    assert(all.skip(i as int).drop_first() =~= all.skip(i as int + 1));
                    assert(elems(rest) == seq![first] + elems(*final(cur)));
                    assert(all.take(i as int) + (seq![first] + elems(*final(cur)))
                        =~= all.take(i as int + 1) + elems(*final(cur)));
                }
            },
        }
        i = i + 1;
    }
    let ghost here = *cur;
    match cur {
        None => {
            assert(all.take(i as int) + all.skip(i as int) =~= all);
            None
        },
        Some(node) => {
            let ghost first = node.elem;
            let ghost behind = node.next;
            let elem = &mut node.elem;
            proof {
                assert(elems(here) == seq![first] + elems(behind));
                assert(all.skip(i as int).len() > 0);
                assert(all.skip(i as int)[0] == first);
                assert(elems(behind) =~= all.skip(i as int).drop_first());
                assert(all.skip(i as int).drop_first() =~= all.skip(i as int + 1));
                assert(all.take(i as int) + (seq![*final(elem)] + all.skip(i as int + 1))
                    =~= all.update(i as int, *final(elem)));
            }
            Some(elem)
        },
    }
}

/// Releases the nodes of the chain one by one in a loop. Each node is taken
/// out of the chain before it is released, so that releasing it never
/// cascades into the node behind it.
pub(crate) fn unlink<T>(link: Link<T>)
    opens_invariants none
    no_unwind
{
    let mut cur = link;
    loop
        decreases elems(cur).len(),
    {
        match cur {
            None => {
                break ;
            },
            Some(node) => {
                let node: Node<T> = *node;
                cur = node.next;
            },
        }
    }
}

} // verus!
