//! Views of optional values and of lists.

use vstd::prelude::*;

verus! {

/// The view of an optional value.
pub open spec fn opt<T: View>(value: Option<T>) -> Option<T::V> {
    match value {
        Some(v) => Some(v@),
        None => None,
    }
}

/// The views of the values of a list.
pub open spec fn each<T: View>(values: Seq<T>) -> Seq<T::V> {
    values.map_values(|v: T| v@)
}

} // verus!
