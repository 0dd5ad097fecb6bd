//! Bounds-checked access into a slice.
use vstd::prelude::*;

verus! {

/// A reference to the element of `arr` at `idx`, or `None` when `idx` is out of bounds.
pub fn index<T>(idx: usize, arr: &[T]) -> (r: Option<&T>)
    ensures
        idx < arr@.len() ==> r == Some(&arr@[idx as int]),
        idx >= arr@.len() ==> r is None,
{
    if idx < arr.len() {
        Some(&arr[idx])
    } else {
        None
    }
}

} // verus!
