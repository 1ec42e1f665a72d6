//! Comparing pairs of elements with a fold that stops at the first pair
//! that differs.

use itertools::FoldWhile::{Continue, Done};
use itertools::Itertools;
use vstd::prelude::*;
use vstd::std_specs::cmp::PartialEqSpec;

verus! {

/// What one step hands back to a fold that can stop early: go on with an
/// accumulator, or stop with one.
pub enum Step {
    Continue(bool),
    Done(bool),
}

/// The step that comparing `a` with `b` yields: go on as long as elements
/// are equal, stop at the first that are not.
pub open spec fn spec_equal_step<T: PartialEq>(a: &T, b: &T) -> Step {
    if a.eq_spec(b) {
        Step::Continue(true)
    } else {
        Step::Done(false)
    }
}

/// The steps that comparing each of `pairs` yields, in order.
pub open spec fn spec_equal_steps<T: PartialEq>(pairs: Seq<(&T, &T)>) -> Seq<Step> {
    Seq::new(pairs.len(), |i: int| spec_equal_step(pairs[i].0, pairs[i].1))
}

/// The accumulator with which a fold over `steps` ends that starts with
/// `init`: that of the first step that stops, else that of the last step,
/// else `init`.
pub open spec fn spec_fold_while(steps: Seq<Step>, init: bool) -> bool
    decreases steps.len(),
{
    if steps.len() == 0 {
        init
    } else {
        match steps.first() {
            Step::Continue(acc) => spec_fold_while(steps.drop_first(), acc),
            Step::Done(acc) => acc,
        }
    }
}

/// The two elements of every pair are equal.
pub open spec fn spec_pairs_equal<T: PartialEq>(pairs: Seq<(&T, &T)>) -> bool {
    forall|i: int| 0 <= i < pairs.len() ==> (#[trigger] pairs[i]).0.eq_spec(pairs[i].1)
}

/// Compares one pair of elements and says whether the fold goes on.
pub fn equal_step<T: PartialEq>(a: &T, b: &T) -> (step: Step)
    ensures
        T::obeys_eq_spec() ==> step == spec_equal_step(a, b),
{
    if a == b {
        Step::Continue(true)
    } else {
        Step::Done(false)
    }
}

/// Calls `Itertools::fold_while` on `pairs`, with `true` to start from and
/// [`equal_step`] for each pair, and takes the accumulator out of what it
/// returns with `FoldWhile::into_inner`.
///
/// Trusted: `fold_while` hands the pairs to the step in order, goes on with
/// the accumulator of a step that says `Continue`, and ends with that of the
/// first step that says `Done` or, where none does, with the last one.
#[verifier::external_body]
fn fold_while_equal<T: PartialEq>(pairs: &Vec<(&T, &T)>) -> (acc: bool)
    ensures
        T::obeys_eq_spec() ==> acc == spec_fold_while(spec_equal_steps(pairs@), true),
{
    pairs.iter().fold_while(
        true,
        |_, pair| match equal_step(pair.0, pair.1) {
            Step::Continue(acc) => Continue(acc),
            Step::Done(acc) => Done(acc),
        },
    ).into_inner()
}

/// A fold over steps of comparison ends with `true` exactly if no step
/// found a difference.
pub proof fn lemma_fold_while_equal<T: PartialEq>(pairs: Seq<(&T, &T)>)
    ensures
        spec_fold_while(spec_equal_steps(pairs), true) == spec_pairs_equal(pairs),
    decreases pairs.len(),
{
    if pairs.len() > 0 {
        let rest = pairs.drop_first();
        assert(spec_equal_steps(pairs).first() == spec_equal_step(pairs[0].0, pairs[0].1));
        assert(spec_equal_steps(pairs).drop_first() =~= spec_equal_steps(rest));
        lemma_fold_while_equal(rest);
        if pairs[0].0.eq_spec(pairs[0].1) {
            if spec_pairs_equal(rest) {
                assert forall|i: int| 0 <= i < pairs.len() implies (#[trigger] pairs[i]).0.eq_spec(
                    pairs[i].1,
                ) by {
                    if i > 0 {
                        assert(rest[i - 1].0.eq_spec(rest[i - 1].1));
                    }
                }
            } else {
                let i = choose|i: int|
                    0 <= i < rest.len() && !(#[trigger] rest[i]).0.eq_spec(rest[i].1);
                assert(!pairs[i + 1].0.eq_spec(pairs[i + 1].1));
            }
        }
    }
}

/// Whether the two elements of every pair are equal.
pub fn pairs_equal<T: PartialEq>(pairs: &Vec<(&T, &T)>) -> (equal: bool)
    ensures
        T::obeys_eq_spec() ==> equal == spec_pairs_equal(pairs@),
{
    proof {
        lemma_fold_while_equal(pairs@);
    }
    fold_while_equal(pairs)
}

} // verus!
