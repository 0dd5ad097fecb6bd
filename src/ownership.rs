//! Small owning wrappers: a cell with replaceable contents, a fixed-size array and an
//! owned string.
use vstd::prelude::*;

verus! {

/// A cell that owns one value, which can be read or replaced.
pub struct MyCell<T> {
    value: T,
}

impl<T> View for MyCell<T> {
    type V = T;

    /// The value held.
    closed spec fn view(&self) -> T {
        self.value
    }
}

impl<T> MyCell<T> {
    /// A cell holding `value`.
    pub fn new(value: T) -> (c: Self)
        ensures
            c@ == value,
    {
        MyCell { value }
    }

    /// A shared reference to the value held.
    pub fn get(&self) -> (r: &T)
        ensures
            *r == self@,
    {
        &self.value
    }

    /// Replaces the value held with `new_value`, dropping the old one.
    pub fn set(&mut self, new_value: T)
        ensures
            final(self)@ == new_value,
    {
        self.value = new_value;
    }
}

/// An array of exactly `N` values, owned inline.
#[derive(Debug)]
pub struct MyVec<T, const N: usize>(pub [T; N]);

impl<T, const N: usize> View for MyVec<T, N> {
    type V = Seq<T>;

    /// The values, in order.
    closed spec fn view(&self) -> Seq<T> {
        self.0@
    }
}

/// Relies on `<[T; N] as TryFrom<std::vec::Vec<T>>>::try_from`: a vector of exactly `N`
/// elements becomes an array holding them in the same order.
#[verifier::external_body]
fn array_from_vec<T, const N: usize>(v: std::vec::Vec<T>) -> (r: [T; N])
    requires
        v@.len() == N,
    ensures
        r@ == v@,
{
    <[T; N]>::try_from(v).ok().unwrap()
}

impl<T, const N: usize> MyVec<T, N> {
    /// Takes ownership of `data`.
    pub fn new(data: [T; N]) -> (v: Self)
        ensures
            v@ == data@,
    {
        MyVec(data)
    }

    /// An array holding a clone of each of the first `N` elements of `slice`, which must
    /// have at least `N` elements.
    pub fn from_slice_clone(slice: &[T]) -> (v: Self)
        where
            T: Clone,
        requires
            slice@.len() >= N,
        ensures
            v@.len() == N,
            forall|i: int| 0 <= i < N ==> cloned(slice@[i], #[trigger] v@[i]),
    {
        let mut data: std::vec::Vec<T> = std::vec::Vec::new();
        let mut i: usize = 0;
        while i < N
            invariant
                i <= N <= slice@.len(),
                data@.len() == i,
                forall|k: int| 0 <= k < i ==> cloned(slice@[k], #[trigger] data@[k]),
            decreases N - i,
        {
            data.push(slice[i].clone());
            i = i + 1;
        }
        MyVec(array_from_vec(data))
    }

    /// An array holding a copy of the first `N` elements of `slice`, which must have at
    /// least `N` elements.
    pub fn from_slice_copy(slice: &[T]) -> (v: Self)
        where
            T: Copy,
        requires
            slice@.len() >= N,
        ensures
            v@ == slice@.subrange(0, N as int),
    {
        let mut data: std::vec::Vec<T> = std::vec::Vec::new();
        let mut i: usize = 0;
        while i < N
            invariant
                i <= N <= slice@.len(),
                data@ == slice@.subrange(0, i as int),
            decreases N - i,
        {
            data.push(slice[i]);
            i = i + 1;
            assert(data@ =~= slice@.subrange(0, i as int));
        }
        MyVec(array_from_vec(data))
    }
}

/// An owned string.
#[derive(Debug)]
pub struct MyString(pub String);

impl View for MyString {
    type V = Seq<char>;

    /// The characters of the string.
    closed spec fn view(&self) -> Seq<char> {
        self.0@
    }
}

impl Clone for MyString {
    /// A second string with the same characters.
    fn clone(&self) -> (r: Self)
        ensures
            r@ == self@,
    {
        MyString(self.0.clone())
    }
}

impl MyString {
    /// Takes ownership of `s`.
    pub fn new(s: String) -> (r: Self)
        ensures
            r@ == s@,
    {
        MyString(s)
    }

    /// A string holding a copy of the characters of `s`.
    pub fn from_str(s: &str) -> (r: Self)
        ensures
            r@ == s@,
    {
        MyString(s.to_string())
    }
}

} // verus!
