//! The type a value decays to once references are stripped away.
use vstd::prelude::*;

verus! {

/// Maps a type to itself with any outer shared or mutable reference removed.
pub trait Decay {
    /// The referenced type, or the type itself where there is no reference.
    type Output;
}

/// A plain type that decays to itself.
pub struct Decable;

impl Decay for Decable {
    type Output = Decable;
}

impl<'a, T> Decay for &'a T {
    type Output = T;
}

impl<'a, T> Decay for &'a mut T {
    type Output = T;
}

} // verus!
