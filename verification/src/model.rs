//! Small definitions that the contracts of several containers share.

use vstd::prelude::*;
use vstd::std_specs::cmp::PartialEqSpec;

verus! {

/// The element behind an optional shared view.
pub open spec fn viewed<T>(elem: Option<&T>) -> Option<T> {
    match elem {
        Some(x) => Some(*x),
        None => None,
    }
}

/// The sequences `xs` and `ys` hold equal elements in the same order.
pub open spec fn spec_equal<T: PartialEq>(xs: Seq<T>, ys: Seq<T>) -> bool {
    &&& xs.len() == ys.len()
    &&& forall|i: int| 0 <= i < xs.len() ==> (#[trigger] xs[i]).eq_spec(&ys[i])
}

/// The stack after `x` was pushed on the stack `s`.
pub open spec fn spec_push<T>(s: Seq<T>, x: T) -> Seq<T> {
    seq![x] + s
}

/// What a pop on the stack `s` returns, and what it leaves behind.
pub open spec fn spec_pop<T>(s: Seq<T>) -> (Option<T>, Seq<T>) {
    if s.len() == 0 {
        (None, s)
    } else {
        (Some(s.first()), s.drop_first())
    }
}

} // verus!
