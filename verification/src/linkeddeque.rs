//! A doubly linked deque over an arena of nodes.
//!
//! Nodes are addressed by their index in a vector. Every linked node knows
//! the index of its successor and of its predecessor, the deque knows the
//! indices of both ends, and unlinked slots are kept on a free list for reuse.

use crate::model::viewed;
use vstd::prelude::*;

pub mod laws;

verus! {

/// What a pop at the front of `s` returns, and what it leaves behind.
pub open spec fn spec_pop_front<T>(s: Seq<T>) -> (Option<T>, Seq<T>) {
    if s.len() == 0 {
        (None, s)
    } else {
        (Some(s.first()), s.drop_first())
    }
}

/// What a pop at the back of `s` returns, and what it leaves behind.
pub open spec fn spec_pop_back<T>(s: Seq<T>) -> (Option<T>, Seq<T>) {
    if s.len() == 0 {
        (None, s)
    } else {
        (Some(s.last()), s.drop_last())
    }
}

/// The sequence after `x` was pushed at the front of `s`.
pub open spec fn spec_push_front<T>(s: Seq<T>, x: T) -> Seq<T> {
    seq![x] + s
}

/// The sequence after `x` was pushed at the back of `s`.
pub open spec fn spec_push_back<T>(s: Seq<T>, x: T) -> Seq<T> {
    s.push(x)
}

/// One slot of the arena. A linked slot holds an element; a spare slot holds
/// none and uses `next` to chain the free list.
struct Node<T> {
    elem: Option<T>,
    next: Option<usize>,
    prev: Option<usize>,
}

/// The arena together with the ends of the chain and the free list.
struct Chain<T> {
    nodes: Vec<Node<T>>,
    head: Option<usize>,
    tail: Option<usize>,
    free: Option<usize>,
    size: usize,
    /// Slots of the linked nodes, front to back.
    order: Ghost<Seq<usize>>,
    /// Slots on the free list, in list order.
    spare: Ghost<Seq<usize>>,
}

/// The slot at position `i` of `slots`, or nothing outside of it.
spec fn slot_at(slots: Seq<usize>, i: int) -> Option<usize> {
    if 0 <= i < slots.len() {
        Some(slots[i])
    } else {
        None
    }
}

/// No slot occurs twice in `slots`.
spec fn distinct(slots: Seq<usize>) -> bool {
    forall|i: int, j: int| 0 <= i < j < slots.len() ==> slots[i] != slots[j]
}

impl<T> Chain<T> {
    /// The node at position `i` of the chain holds an element, its `next`
    /// leads to the node at position `i + 1` and its `prev` to the node at
    /// position `i - 1`; at the ends of the chain the link is absent.
    spec fn linked(&self, i: int) -> bool {
        let node = self.nodes[self.order@[i] as int];
        &&& node.elem.is_some()
        &&& node.next == slot_at(self.order@, i + 1)
        &&& node.prev == slot_at(self.order@, i - 1)
    }

    /// The slot at position `j` of the free list holds no element and its
    /// `next` leads to the slot at position `j + 1`.
    spec fn unlinked(&self, j: int) -> bool {
        let node = self.nodes[self.spare@[j] as int];
        &&& node.elem.is_none()
        &&& node.next == slot_at(self.spare@, j + 1)
        &&& node.prev.is_none()
    }

    /// The chain is a valid doubly linked list: `head` and `tail` are its
    /// two ends, and absent exactly when it is empty; walking `next` from the
    /// head and walking `prev` from the tail visit the same `size` distinct
    /// nodes in opposite orders. Every slot of the arena is either a node of
    /// the chain or on the free list, never both.
    spec fn wf(&self) -> bool {
        &&& self.size == self.order@.len()
        &&& self.order@.len() + self.spare@.len() == self.nodes.len()
        &&& forall|i: int| 0 <= i < self.order@.len() ==> #[trigger] self.order@[i] < self.nodes.len()
        &&& forall|j: int| 0 <= j < self.spare@.len() ==> #[trigger] self.spare@[j] < self.nodes.len()
        &&& distinct(self.order@)
        &&& distinct(self.spare@)
        &&& forall|i: int, j: int|
            0 <= i < self.order@.len() && 0 <= j < self.spare@.len()
                ==> #[trigger] self.order@[i] != #[trigger] self.spare@[j]
        &&& self.head == slot_at(self.order@, 0)
        &&& self.tail == slot_at(self.order@, self.order@.len() - 1)
        &&& self.free == slot_at(self.spare@, 0)
        &&& forall|i: int| 0 <= i < self.order@.len() ==> #[trigger] self.linked(i)
        &&& forall|j: int| 0 <= j < self.spare@.len() ==> #[trigger] self.unlinked(j)
    }

    /// The elements of the linked nodes, front to back.
    spec fn view(&self) -> Seq<T> {
        Seq::new(self.order@.len(), |i: int| self.nodes[self.order@[i] as int].elem.unwrap())
    }

    fn new() -> (chain: Self)
        ensures
            chain.wf(),
            chain.view() == Seq::<T>::empty(),
    {
        let chain = Chain {
            nodes: Vec::new(),
            head: None,
            tail: None,
            free: None,
            size: 0,
            order: Ghost(Seq::empty()),
            spare: Ghost(Seq::empty()),
        };
        assert(chain.view() =~= Seq::<T>::empty());
        chain
    }

    /// Puts `node` into a slot of the arena and returns the slot: the first
    /// spare one if there is any, else a new one at the end.
    fn place(&mut self, node: Node<T>) -> (slot: usize)
        requires
            old(self).wf(),
        ensures
            slot < final(self).nodes.len(),
            final(self).nodes@ == (if old(self).spare@.len() > 0 {
                old(self).nodes@.update(slot as int, node)
            } else {
                old(self).nodes@.push(node)
            }),
            old(self).spare@.len() > 0 ==> slot == old(self).spare@[0],
            old(self).spare@.len() == 0 ==> slot == old(self).nodes.len(),
            final(self).free == slot_at(old(self).spare@, 1),
            final(self).spare@ == (if old(self).spare@.len() > 0 {
                old(self).spare@.drop_first()
            } else {
                old(self).spare@
            }),
            final(self).head == old(self).head,
            final(self).tail == old(self).tail,
            final(self).size == old(self).size,
            final(self).order == old(self).order,
    {
        match self.free {
            Some(slot) => {
                assert(self.unlinked(0));
                self.free = self.nodes[slot].next;
                self.nodes[slot] = node;
                self.spare = Ghost(self.spare@.drop_first());
                slot
            },
            None => {
                self.nodes.push(node);
                self.nodes.len() - 1
            },
        }
    }

    /// Links a new node holding `elem` behind the current tail.
    fn push_back(&mut self, elem: T)
        requires
            old(self).wf(),
        ensures
            final(self).wf(),
            final(self).view() == spec_push_back(old(self).view(), elem),
    {
        let tail = self.tail;
        let slot = self.place(Node { elem: Some(elem), next: None, prev: tail });
        match tail {
            Some(t) => {
                assert(old(self).linked(old(self).order@.len() - 1));
                self.nodes[t].next = Some(slot);
            },
            None => {
                self.head = Some(slot);
            },
        }
        self.tail = Some(slot);
        self.size = self.size + 1;
        self.order = Ghost(self.order@.push(slot));
        proof {
            let n = old(self).order@.len() as int;
            assert forall|i: int| 0 <= i < self.order@.len() implies #[trigger] self.linked(i) by {
                if i < n {
                    assert(old(self).linked(i));
                }
            }
            assert forall|j: int| 0 <= j < self.spare@.len() implies #[trigger] self.unlinked(j) by {
                if old(self).spare@.len() > 0 {
                    assert(old(self).unlinked(j + 1));
                }
            }
            assert(self.view() =~= spec_push_back(old(self).view(), elem)) by {
                assert forall|i: int| 0 <= i < n implies self.view()[i] == old(self).view()[i] by {
                    assert(old(self).linked(i));
                }
            }
        }
    }

    /// Links a new node holding `elem` before the current head.
    fn push_front(&mut self, elem: T)
        requires
            old(self).wf(),
        ensures
            final(self).wf(),
            final(self).view() == spec_push_front(old(self).view(), elem),
    {
        let head = self.head;
        let slot = self.place(Node { elem: Some(elem), next: head, prev: None });
        match head {
            Some(h) => {
                assert(old(self).linked(0));
                self.nodes[h].prev = Some(slot);
            },
            None => {
                self.tail = Some(slot);
            },
        }
        self.head = Some(slot);
        self.size = self.size + 1;
        self.order = Ghost(seq![slot] + self.order@);
        proof {
            let n = old(self).order@.len() as int;
            assert forall|i: int| 0 <= i < self.order@.len() implies #[trigger] self.linked(i) by {
                if i > 0 {
                    assert(old(self).linked(i - 1));
                }
            }
            assert forall|j: int| 0 <= j < self.spare@.len() implies #[trigger] self.unlinked(j) by {
                if old(self).spare@.len() > 0 {
                    assert(old(self).unlinked(j + 1));
                }
            }
            assert(self.view() =~= spec_push_front(old(self).view(), elem)) by {
                assert forall|i: int| 0 < i <= n implies self.view()[i] == old(self).view()[i - 1] by {
                    assert(old(self).linked(i - 1));
                }
            }
        }
    }

    /// Returns the slot `slot`, emptied of its element, to the free list.
    /// The caller has already taken the slot out of `order`.
    fn release(&mut self, slot: usize) -> (elem: Option<T>)
        requires
            slot < old(self).nodes.len(),
        ensures
            elem == old(self).nodes[slot as int].elem,
            final(self).nodes@ == old(self).nodes@.update(
                slot as int,
                (Node { elem: None, next: old(self).free, prev: None }),
            ),
            final(self).free == Some(slot),
            final(self).spare@ == seq![slot] + old(self).spare@,
            final(self).head == old(self).head,
            final(self).tail == old(self).tail,
            final(self).size == old(self).size,
            final(self).order == old(self).order,
        no_unwind
    {
        let mut elem: Option<T> = None;
        core::mem::swap(&mut elem, &mut self.nodes[slot].elem);
        self.nodes[slot].next = self.free;
        self.nodes[slot].prev = None;
        self.free = Some(slot);
        self.spare = Ghost(seq![slot] + self.spare@);
        assert(self.nodes@ =~= old(self).nodes@.update(
            slot as int,
            (Node { elem: None, next: old(self).free, prev: None }),
        ));
        elem
    }

    /// Detaches the head node, makes its successor the head, and reclaims
    /// the element of the detached node.
    fn pop_front(&mut self) -> (elem: Option<T>)
        requires
            old(self).wf(),
        ensures
            final(self).wf(),
            (elem, final(self).view()) == spec_pop_front(old(self).view()),
        no_unwind
    {
        match self.head {
            None => {
                None
            },
            Some(h) => {
                assert(self.linked(0));
                let next = self.nodes[h].next;
                match next {
                    Some(n) => {
                        assert(self.linked(1));
                        self.nodes[n].prev = None;
                    },
                    None => {
                        self.tail = None;
                    },
                }
                self.head = next;
                self.size = self.size - 1;
                self.order = Ghost(self.order@.drop_first());
                let elem = self.release(h);
                proof {
                    assert forall|i: int| 0 <= i < self.order@.len() implies #[trigger] self.linked(
                        i,
                    ) by {
                        assert(old(self).linked(i + 1));
                    }
                    assert forall|j: int| 0 <= j < self.spare@.len() implies #[trigger] self.unlinked(
                        j,
                    ) by {
                        if j > 0 {
                            assert(old(self).unlinked(j - 1));
                        }
                    }
                    assert(self.view() =~= old(self).view().drop_first()) by {
                        assert forall|i: int| 0 <= i < self.order@.len() implies self.view()[i]
                            == old(self).view()[i + 1] by {
                            assert(old(self).linked(i + 1));
                        }
                    }
                }
                elem
            },
        }
    }

    /// Detaches the tail node, makes its predecessor the tail, and reclaims
    /// the element of the detached node.
    fn pop_back(&mut self) -> (elem: Option<T>)
        requires
            old(self).wf(),
        ensures
            final(self).wf(),
            (elem, final(self).view()) == spec_pop_back(old(self).view()),
        no_unwind
    {
        match self.tail {
            None => {
                None
            },
            Some(t) => {
                let ghost last = self.order@.len() - 1;
                assert(self.linked(last));
                let prev = self.nodes[t].prev;
                match prev {
                    Some(p) => {
                        assert(self.linked(last - 1));
                        self.nodes[p].next = None;
                    },
                    None => {
                        self.head = None;
                    },
                }
                self.tail = prev;
                self.size = self.size - 1;
                self.order = Ghost(self.order@.drop_last());
                let elem = self.release(t);
                proof {
                    assert forall|i: int| 0 <= i < self.order@.len() implies #[trigger] self.linked(
                        i,
                    ) by {
                        assert(old(self).linked(i));
                    }
                    assert forall|j: int| 0 <= j < self.spare@.len() implies #[trigger] self.unlinked(
                        j,
                    ) by {
                        if j > 0 {
                            assert(old(self).unlinked(j - 1));
                        }
                    }
                    assert(self.view() =~= old(self).view().drop_last()) by {
                        assert forall|i: int| 0 <= i < self.order@.len() implies self.view()[i]
                            == old(self).view()[i] by {
                            assert(old(self).linked(i));
                        }
                    }
                }
                elem
            },
        }
    }

    /// A view of the element at the front.
    fn peek_front(&self) -> (elem: Option<&T>)
        requires
            self.wf(),
        ensures
            self.view().len() == 0 ==> elem.is_none(),
            self.view().len() > 0 ==> elem == Some(&self.view().first()),
        no_unwind
    {
        match self.head {
            None => None,
            Some(h) => {
                assert(self.linked(0));
                match &self.nodes[h].elem {
                    Some(elem) => Some(elem),
                    None => None,
                }
            },
        }
    }

    /// A view of the element at the back.
    fn peek_back(&self) -> (elem: Option<&T>)
        requires
            self.wf(),
        ensures
            self.view().len() == 0 ==> elem.is_none(),
            self.view().len() > 0 ==> elem == Some(&self.view().last()),
        no_unwind
    {
        match self.tail {
            None => None,
            Some(t) => {
                assert(self.linked(self.order@.len() - 1));
                match &self.nodes[t].elem {
                    Some(elem) => Some(elem),
                    None => None,
                }
            },
        }
    }

    /// An exclusive view of the element in the linked slot at position `pos`
    /// of the chain. Whatever is written through it, the links stay as they are.
    fn elem_mut(&mut self, slot: usize, Ghost(pos): Ghost<int>) -> (elem: Option<&mut T>)
        requires
            old(self).wf(),
            0 <= pos < old(self).order@.len(),
            slot == old(self).order@[pos],
        ensures
            elem.is_some(),
            *elem.unwrap() == old(self).view()[pos],
            final(self).wf(),
            final(self).view() == old(self).view().update(pos, *final(elem.unwrap())),
        no_unwind
    {
        assert(self.linked(pos));
        let ghost before = *self;
        let elem = match &mut self.nodes[slot].elem {
            Some(elem) => Some(elem),
            None => None,
        };
        proof {
            let after = after_borrow(*self);
            assert(after.order == before.order);
            assert forall|i: int| 0 <= i < after.order@.len() implies #[trigger] after.linked(i) by {
                assert(before.linked(i));
            }
            assert forall|j: int| 0 <= j < after.spare@.len() implies #[trigger] after.unlinked(
                j,
            ) by {
                assert(before.unlinked(j));
            }
            assert(after.view() =~= before.view().update(pos, *final(elem.unwrap()))) by {
                assert forall|i: int| 0 <= i < after.order@.len() && i != pos implies after.view()[i]
                    == before.view()[i] by {
                    assert(before.linked(i));
                }
            }
        }
        elem
    }

    /// An exclusive view of the element at the front.
    fn peek_front_mut(&mut self) -> (elem: Option<&mut T>)
        requires
            old(self).wf(),
        ensures
            final(self).wf(),
            old(self).view().len() == 0 ==> elem.is_none() && final(self).view() == old(
                self,
            ).view(),
            old(self).view().len() > 0 ==> elem.is_some() && *elem.unwrap() == old(
                self,
            ).view().first() && final(self).view() == old(self).view().update(
                0,
                *final(elem.unwrap()),
            ),
        no_unwind
    {
        match self.head {
            None => None,
            Some(h) => self.elem_mut(h, Ghost(0)),
        }
    }

    /// An exclusive view of the element at the back.
    fn peek_back_mut(&mut self) -> (elem: Option<&mut T>)
        requires
            old(self).wf(),
        ensures
            final(self).wf(),
            old(self).view().len() == 0 ==> elem.is_none() && final(self).view() == old(
                self,
            ).view(),
            old(self).view().len() > 0 ==> elem.is_some() && *elem.unwrap() == old(
                self,
            ).view().last() && final(self).view() == old(self).view().update(
                old(self).view().len() - 1,
                *final(elem.unwrap()),
            ),
        no_unwind
    {
        match self.tail {
            None => None,
            Some(t) => self.elem_mut(t, Ghost(self.order@.len() - 1)),
        }
    }
}

/// A double-ended queue built as a doubly linked chain of nodes.
///
/// Its view is the sequence of its elements from front to back.
///
/// All nodes live in one vector. Dropping the deque therefore releases them
/// in a single pass over that vector: the cost is linear in the number of
/// slots and the stack depth does not grow with the length of the chain.
pub struct LinkedDeque<T> {
    chain: Chain<T>,
}

impl<T> View for LinkedDeque<T> {
    type V = Seq<T>;

    closed spec fn view(&self) -> Seq<T> {
        self.chain.view()
    }
}

impl<T> LinkedDeque<T> {
    #[verifier::type_invariant]
    spec fn inv(self) -> bool {
        self.chain.wf()
    }

    /// An empty deque.
    pub fn new() -> (deque: Self)
        ensures
            deque@ == Seq::<T>::empty(),
    {
        LinkedDeque { chain: Chain::new() }
    }

    /// The number of elements.
    pub fn len(&self) -> (n: usize)
        ensures
            n == self@.len(),
    {
        proof {
            use_type_invariant(self);
        }
        self.chain.size
    }

    /// Whether the deque holds no element.
    pub fn is_empty(&self) -> (b: bool)
        ensures
            b == (self@.len() == 0),
    {
        proof {
            use_type_invariant(self);
        }
        self.chain.size == 0
    }

    /// Makes `elem` the new front.
    pub fn push_front(&mut self, elem: T)
        ensures
            final(self)@ == spec_push_front(old(self)@, elem),
    {
        proof {
            use_type_invariant(&*self);
        }
        let mut chain = Chain::new();
        core::mem::swap(&mut chain, &mut self.chain);
        chain.push_front(elem);
        self.chain = chain;
    }

    /// Makes `elem` the new back.
    pub fn push_back(&mut self, elem: T)
        ensures
            final(self)@ == spec_push_back(old(self)@, elem),
    {
        proof {
            use_type_invariant(&*self);
        }
        let mut chain = Chain::new();
        core::mem::swap(&mut chain, &mut self.chain);
        chain.push_back(elem);
        self.chain = chain;
    }

    /// Enqueues `elem`: it becomes the new back.
    pub fn push(&mut self, elem: T)
        ensures
            final(self)@ == spec_push_back(old(self)@, elem),
    {
        self.push_back(elem)
    }

    /// Removes the front element and returns it, or returns `None` and
    /// changes nothing when the deque is empty.
    pub fn pop_front(&mut self) -> (elem: Option<T>)
        ensures
            (elem, final(self)@) == spec_pop_front(old(self)@),
        no_unwind
    {
        proof {
            use_type_invariant(&*self);
        }
        self.chain.pop_front()
    }

    /// Removes the back element and returns it, or returns `None` and
    /// changes nothing when the deque is empty.
    pub fn pop_back(&mut self) -> (elem: Option<T>)
        ensures
            (elem, final(self)@) == spec_pop_back(old(self)@),
        no_unwind
    {
        proof {
            use_type_invariant(&*self);
        }
        self.chain.pop_back()
    }

    /// Dequeues the front element, or returns `None` when the deque is empty.
    pub fn pop(&mut self) -> (elem: Option<T>)
        ensures
            (elem, final(self)@) == spec_pop_front(old(self)@),
        no_unwind
    {
        self.pop_front()
    }

    /// A shared view of the front element, or `None` when the deque is empty.
    pub fn peek_front(&self) -> (elem: Option<&T>)
        ensures
            viewed(elem) == spec_pop_front(self@).0,
    {
        proof {
            use_type_invariant(self);
        }
        self.chain.peek_front()
    }

    /// A shared view of the back element, or `None` when the deque is empty.
    pub fn peek_back(&self) -> (elem: Option<&T>)
        ensures
            viewed(elem) == spec_pop_back(self@).0,
    {
        proof {
            use_type_invariant(self);
        }
        self.chain.peek_back()
    }

    /// An exclusive view of the front element, or `None` when the deque is
    /// empty. What is written through it replaces the front element; the rest
    /// of the deque stays as it is.
    pub fn peek_front_mut(&mut self) -> (elem: Option<&mut T>)
        ensures
            old(self)@.len() == 0 ==> elem.is_none() && final(self)@ == old(self)@,
            old(self)@.len() > 0 ==> elem.is_some() && *elem.unwrap() == old(self)@.first()
                && final(self)@ == old(self)@.update(0, *final(elem.unwrap())),
    {
        proof {
            use_type_invariant(&*self);
        }
        self.chain.peek_front_mut()
    }

    /// An exclusive view of the back element, or `None` when the deque is
    /// empty. What is written through it replaces the back element; the rest
    /// of the deque stays as it is.
    pub fn peek_back_mut(&mut self) -> (elem: Option<&mut T>)
        ensures
            old(self)@.len() == 0 ==> elem.is_none() && final(self)@ == old(self)@,
            old(self)@.len() > 0 ==> elem.is_some() && *elem.unwrap() == old(self)@.last()
                && final(self)@ == old(self)@.update(
                old(self)@.len() - 1,
                *final(elem.unwrap()),
            ),
    {
        proof {
            use_type_invariant(&*self);
        }
        self.chain.peek_back_mut()
    }

    /// A traversal of the elements that leaves the deque as it is. It can be
    /// advanced from the front, along the links to the next node, and from
    /// the back, along the links to the previous node.
    pub fn iter(&self) -> (iter: Iter<'_, T>)
        ensures
            iter@ == self@,
    {
        proof {
            use_type_invariant(self);
        }
        let iter = Iter {
            chain: &self.chain,
            front: self.chain.head,
            back: self.chain.tail,
            len: self.chain.size,
            start: Ghost(0),
        };
        assert(iter@ =~= self@);
        iter
    }

    /// Turns the deque into a traversal that hands out the elements
    /// themselves, from either end, and uses the deque up.
    pub fn into_iter(self) -> (iter: IntoIter<T>)
        ensures
            iter@ == self@,
    {
        IntoIter { deque: self }
    }
}

/// A consuming, double-ended traversal of a [`LinkedDeque`].
///
/// Its view is the sequence of the elements not yet handed out.
pub struct IntoIter<T> {
    deque: LinkedDeque<T>,
}

impl<T> View for IntoIter<T> {
    type V = Seq<T>;

    closed spec fn view(&self) -> Seq<T> {
        self.deque@
    }
}

impl<T> IntoIter<T> {
    /// Hands out the front element of what is left.
    pub fn next(&mut self) -> (elem: Option<T>)
        ensures
            (elem, final(self)@) == spec_pop_front(old(self)@),
    {
        self.deque.pop_front()
    }

    /// Hands out the back element of what is left.
    pub fn next_back(&mut self) -> (elem: Option<T>)
        ensures
            (elem, final(self)@) == spec_pop_back(old(self)@),
    {
        self.deque.pop_back()
    }
}

/// A borrowing, double-ended traversal of a [`LinkedDeque`].
///
/// Its view is the sequence of the elements not yet visited.
pub struct Iter<'a, T> {
    chain: &'a Chain<T>,
    front: Option<usize>,
    back: Option<usize>,
    len: usize,
    /// Position in the chain of the first element not yet visited.
    start: Ghost<int>,
}

impl<'a, T> View for Iter<'a, T> {
    type V = Seq<T>;

    closed spec fn view(&self) -> Seq<T> {
        self.chain.view().subrange(self.start@, self.start@ + self.len)
    }
}

impl<'a, T> Iter<'a, T> {
    #[verifier::type_invariant]
    spec fn inv(self) -> bool {
        &&& self.chain.wf()
        &&& 0 <= self.start@
        &&& self.start@ + self.len <= self.chain.order@.len()
        &&& self.len > 0 ==> self.front == slot_at(self.chain.order@, self.start@)
        &&& self.len > 0 ==> self.back == slot_at(self.chain.order@, self.start@ + self.len - 1)
    }

    /// Visits the first of the remaining elements and steps to its successor.
    pub fn next(&mut self) -> (elem: Option<&'a T>)
        ensures
            (viewed(elem), final(self)@) == spec_pop_front(old(self)@),
    {
        proof {
            use_type_invariant(&*self);
        }
        if self.len == 0 {
            return None;
        }
        match self.front {
            None => None,
            Some(h) => {
                assert(self.chain.linked(self.start@));
                let chain: &'a Chain<T> = self.chain;
                let node = &chain.nodes[h];
                *self = Iter {
                    chain,
                    front: node.next,
                    back: self.back,
                    len: self.len - 1,
                    start: Ghost(self.start@ + 1),
                };
                assert(self@ =~= old(self)@.drop_first());
                match &node.elem {
                    Some(elem) => Some(elem),
                    None => None,
                }
            },
        }
    }

    /// Visits the last of the remaining elements and steps to its
    /// predecessor.
    pub fn next_back(&mut self) -> (elem: Option<&'a T>)
        ensures
            (viewed(elem), final(self)@) == spec_pop_back(old(self)@),
    {
        proof {
            use_type_invariant(&*self);
        }
        if self.len == 0 {
            return None;
        }
        match self.back {
            None => None,
            Some(t) => {
                assert(self.chain.linked(self.start@ + self.len - 1));
                let chain: &'a Chain<T> = self.chain;
                let node = &chain.nodes[t];
                *self = Iter {
                    chain,
                    front: self.front,
                    back: node.prev,
                    len: self.len - 1,
                    start: self.start,
                };
                assert(self@ =~= old(self)@.drop_last());
                match &node.elem {
                    Some(elem) => Some(elem),
                    None => None,
                }
            },
        }
    }
}

} // verus!
