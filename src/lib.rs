//! A growable, contiguous array with a consuming double-ended iterator, and a few
//! small ownership and borrowing helpers, all checked by Verus.
pub mod decay;
pub mod laws;
pub mod ownership;
pub mod slices;
pub mod vec;

pub use decay::{Decable, Decay};
pub use ownership::{MyCell, MyString, MyVec};
pub use slices::index;
pub use vec::{IndexOutOfBounds, Vec, VecIntoIter};
