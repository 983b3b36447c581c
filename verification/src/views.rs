//! How values that hold other values are seen in contracts.

use vstd::prelude::*;

verus! {

/// The views of `items`, in order.
pub open spec fn views_of<T: View>(items: Seq<T>) -> Seq<T::V> {
    Seq::new(items.len(), |i: int| items[i]@)
}

/// The view of an optional value: the view of what it holds.
pub open spec fn opt_view<T: View>(o: Option<T>) -> Option<T::V> {
    match o {
        Some(x) => Some(x@),
        None => None,
    }
}

} // verus!
