//! Writing a container out as text.

use vstd::prelude::*;

verus! {

/// Formats `items` as a list with the `Debug` form of each: `format!` with
/// `{:?}`. Nothing is stated of the text, which is up to the `Debug` impl of
/// the element type.
#[verifier::external_body]
pub(crate) fn format_list<T: core::fmt::Debug>(items: &Vec<&T>) -> String {
    format!("{:?}", items)
}

} // verus!
