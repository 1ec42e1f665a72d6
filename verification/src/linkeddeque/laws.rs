//! What holds of every run of deque operations, stated over the sequences
//! that the contracts of [`LinkedDeque`](super::LinkedDeque) speak of.

use super::{spec_pop_back, spec_pop_front, spec_push_back, spec_push_front};
use vstd::prelude::*;

verus! {

/// One structural operation on a deque.
pub enum Op<T> {
    PushFront(T),
    PushBack(T),
    PopFront,
    PopBack,
}

impl<T> Op<T> {
    /// Whether the operation adds an element.
    pub open spec fn is_push(self) -> bool {
        self is PushFront || self is PushBack
    }

    /// Whether the operation asks for an element.
    pub open spec fn is_pop(self) -> bool {
        self is PopFront || self is PopBack
    }
}

/// The deque after `op` ran on the deque `s`.
pub open spec fn apply<T>(s: Seq<T>, op: Op<T>) -> Seq<T> {
    match op {
        Op::PushFront(x) => spec_push_front(s, x),
        Op::PushBack(x) => spec_push_back(s, x),
        Op::PopFront => spec_pop_front(s).1,
        Op::PopBack => spec_pop_back(s).1,
    }
}

/// The deque after the operations `ops` ran, in order, on the deque `s`.
pub open spec fn run<T>(s: Seq<T>, ops: Seq<Op<T>>) -> Seq<T>
    decreases ops.len(),
{
    if ops.len() == 0 {
        s
    } else {
        apply(run(s, ops.drop_last()), ops.last())
    }
}

/// How many of `ops` add an element.
pub open spec fn pushes<T>(ops: Seq<Op<T>>) -> nat
    decreases ops.len(),
{
    if ops.len() == 0 {
        0
    } else {
        pushes(ops.drop_last()) + if ops.last().is_push() {
            1nat
        } else {
            0nat
        }
    }
}

/// How many of `ops` ask for an element.
pub open spec fn pops<T>(ops: Seq<Op<T>>) -> nat
    decreases ops.len(),
{
    if ops.len() == 0 {
        0
    } else {
        pops(ops.drop_last()) + if ops.last().is_pop() {
            1nat
        } else {
            0nat
        }
    }
}

/// Every pop among `ops`, run in order on the deque `s`, finds an element.
pub open spec fn pops_find_elements<T>(s: Seq<T>, ops: Seq<Op<T>>) -> bool {
    forall|k: int|
        0 <= k < ops.len() && (#[trigger] ops[k]).is_pop() ==> run(s, ops.take(k)).len() > 0
}

/// The deque after each of `xs` was pushed, in order, at the back of `s`.
pub open spec fn push_back_all<T>(s: Seq<T>, xs: Seq<T>) -> Seq<T>
    decreases xs.len(),
{
    if xs.len() == 0 {
        s
    } else {
        spec_push_back(push_back_all(s, xs.drop_last()), xs.last())
    }
}

/// The deque after each of `xs` was pushed, in order, at the front of `s`.
pub open spec fn push_front_all<T>(s: Seq<T>, xs: Seq<T>) -> Seq<T>
    decreases xs.len(),
{
    if xs.len() == 0 {
        s
    } else {
        spec_push_front(push_front_all(s, xs.drop_last()), xs.last())
    }
}

/// What `n` pops at the front of `s` return, in order, and what they leave.
pub open spec fn pop_front_n<T>(s: Seq<T>, n: nat) -> (Seq<Option<T>>, Seq<T>)
    decreases n,
{
    if n == 0 {
        (Seq::empty(), s)
    } else {
        let (outs, rest) = pop_front_n(s, (n - 1) as nat);
        (outs.push(spec_pop_front(rest).0), spec_pop_front(rest).1)
    }
}

/// What `n` pops at the back of `s` return, in order, and what they leave.
pub open spec fn pop_back_n<T>(s: Seq<T>, n: nat) -> (Seq<Option<T>>, Seq<T>)
    decreases n,
{
    if n == 0 {
        (Seq::empty(), s)
    } else {
        let (outs, rest) = pop_back_n(s, (n - 1) as nat);
        (outs.push(spec_pop_back(rest).0), spec_pop_back(rest).1)
    }
}

/// Each element of `xs`, as a pop that found it would return it.
pub open spec fn found<T>(xs: Seq<T>) -> Seq<Option<T>> {
    Seq::new(xs.len(), |i: int| Some(xs[i]))
}

/// Pushing `xs` at the back of an empty deque builds `xs` itself.
pub proof fn lemma_push_back_all<T>(xs: Seq<T>)
    ensures
        push_back_all(Seq::empty(), xs) == xs,
    decreases xs.len(),
{
    if xs.len() > 0 {
        lemma_push_back_all(xs.drop_last());
        assert(xs.drop_last().push(xs.last()) =~= xs);
    }
}

/// Pushing `xs` at the front of an empty deque builds `xs` reversed.
pub proof fn lemma_push_front_all<T>(xs: Seq<T>)
    ensures
        push_front_all(Seq::empty(), xs) == xs.reverse(),
    decreases xs.len(),
{
    if xs.len() > 0 {
        lemma_push_front_all(xs.drop_last());
        assert(seq![xs.last()] + xs.drop_last().reverse() =~= xs.reverse());
    } else {
        assert(xs.reverse() =~= Seq::<T>::empty());
    }
}

/// As long as elements are left, `n` pops at the front return the first `n`
/// elements in their order and leave the others.
pub proof fn lemma_pop_front_n<T>(s: Seq<T>, n: nat)
    requires
        n <= s.len(),
    ensures
        pop_front_n(s, n) == (found(s.take(n as int)), s.skip(n as int)),
    decreases n,
{
    if n == 0 {
        assert(found(s.take(0)) =~= Seq::<Option<T>>::empty());
        assert(s.skip(0) =~= s);
    } else {
        let m = (n - 1) as nat;
        lemma_pop_front_n(s, m);
        let rest = s.skip(m as int);
        assert(rest.first() == s[m as int]);
        assert(rest.drop_first() =~= s.skip(n as int));
        assert(found(s.take(m as int)).push(Some(s[m as int])) =~= found(s.take(n as int)));
    }
}

/// As long as elements are left, `n` pops at the back return the last `n`
/// elements, the last one first, and leave the others.
pub proof fn lemma_pop_back_n<T>(s: Seq<T>, n: nat)
    requires
        n <= s.len(),
    ensures
        pop_back_n(s, n) == (found(s.reverse().take(n as int)), s.take(s.len() - n)),
    decreases n,
{
    if n == 0 {
        assert(found(s.reverse().take(0)) =~= Seq::<Option<T>>::empty());
        assert(s.take(s.len() as int) =~= s);
    } else {
        let m = (n - 1) as nat;
        lemma_pop_back_n(s, m);
        let rest = s.take(s.len() - m);
        assert(rest.last() == s[s.len() - n]);
        assert(rest.drop_last() =~= s.take(s.len() - n));
        assert(found(s.reverse().take(m as int)).push(Some(s[s.len() - n])) =~= found(
            s.reverse().take(n as int),
        ));
    }
}

/// First in, first out: after the elements `xs` were pushed at the back of
/// an empty deque, as many pops at the front return them in the order in
/// which they were pushed, and leave the deque empty.
pub proof fn lemma_fifo<T>(xs: Seq<T>)
    ensures
        pop_front_n(push_back_all(Seq::empty(), xs), xs.len()) == (found(xs), Seq::<T>::empty()),
{
    lemma_push_back_all(xs);
    lemma_pop_front_n(xs, xs.len());
    assert(xs.take(xs.len() as int) =~= xs);
    assert(xs.skip(xs.len() as int) =~= Seq::<T>::empty());
}

/// Last in, first out: after the elements `xs` were pushed at the front of
/// an empty deque, as many pops at the front return them in the reverse of
/// the order in which they were pushed, and leave the deque empty.
pub proof fn lemma_lifo<T>(xs: Seq<T>)
    ensures
        pop_front_n(push_front_all(Seq::empty(), xs), xs.len()) == (
            found(xs.reverse()),
            Seq::<T>::empty(),
        ),
{
    lemma_push_front_all(xs);
    let r = xs.reverse();
    lemma_pop_front_n(r, r.len());
    assert(r.take(r.len() as int) =~= r);
    assert(r.skip(r.len() as int) =~= Seq::<T>::empty());
}

/// Symmetry: whatever the deque holds, walking it from the front to the back
/// and walking it from the back to the front visit the same elements, one
/// walk in the reverse order of the other.
pub proof fn lemma_walks_mirror<T>(s: Seq<T>)
    ensures
        pop_front_n(s, s.len()) == (found(s), Seq::<T>::empty()),
        pop_back_n(s, s.len()) == (found(s.reverse()), Seq::<T>::empty()),
{
    lemma_pop_front_n(s, s.len());
    lemma_pop_back_n(s, s.len());
    assert(s.take(s.len() as int) =~= s);
    assert(s.skip(s.len() as int) =~= Seq::<T>::empty());
    assert(s.reverse().take(s.len() as int) =~= s.reverse());
    assert(s.take(0) =~= Seq::<T>::empty());
}

/// A pop on an empty deque returns nothing and leaves the deque empty.
pub proof fn lemma_pop_empty<T>()
    ensures
        spec_pop_front(Seq::<T>::empty()) == (None::<T>, Seq::<T>::empty()),
        spec_pop_back(Seq::<T>::empty()) == (None::<T>, Seq::<T>::empty()),
{
}

/// Every push makes the deque longer by one, and every pop that finds an
/// element makes it shorter by one.
pub proof fn lemma_size_step<T>(s: Seq<T>, op: Op<T>)
    ensures
        op.is_push() ==> apply(s, op).len() == s.len() + 1,
        op.is_pop() && s.len() > 0 ==> apply(s, op).len() == s.len() - 1,
        op.is_pop() && s.len() == 0 ==> apply(s, op).len() == 0,
{
}

/// The size of the deque: after a run of operations on an empty deque in
/// which every pop found an element, the deque holds as many elements as
/// there were pushes less the number of pops.
pub proof fn lemma_size<T>(ops: Seq<Op<T>>)
    requires
        pops_find_elements(Seq::<T>::empty(), ops),
    ensures
        pops(ops) <= pushes(ops),
        run(Seq::<T>::empty(), ops).len() == pushes(ops) - pops(ops),
    decreases ops.len(),
{
    if ops.len() > 0 {
        let before = ops.drop_last();
        assert forall|k: int| 0 <= k < before.len() && (#[trigger] before[k]).is_pop() implies run(
            Seq::<T>::empty(),
            before.take(k),
        ).len() > 0 by {
            assert(ops[k].is_pop());
            assert(ops.take(k) =~= before.take(k));
        }
        lemma_size(before);
        let last = ops.len() - 1;
        if ops[last].is_pop() {
            assert(ops.take(last) =~= before);
        }
        lemma_size_step(run(Seq::<T>::empty(), before), ops.last());
    }
}

} // verus!
