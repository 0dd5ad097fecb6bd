//! A growable array that owns a buffer of slots.
//!
//! Slots `[0, len)` hold live elements; slots `[len, cap)` are empty (`None`) and are
//! never read or handed out. The capacity starts at zero and only grows, by doubling
//! from one.
use vstd::pervasive::VecAdditionalExecFns;
use vstd::prelude::*;

verus! {

/// The capacity after one growth step from `cap`: one for an empty buffer, else twice as
/// many slots.
pub open spec fn grown_capacity(cap: nat) -> nat {
    if cap == 0 {
        1
    } else {
        2 * cap
    }
}

/// The capacity after appending to an array of `len` elements and capacity `cap`: it grows
/// only when every slot is taken.
pub open spec fn capacity_after_push(len: nat, cap: nat) -> nat {
    if len == cap {
        grown_capacity(cap)
    } else {
        cap
    }
}

/// Moves the value out of slot `i`, leaving the slot empty.
fn take_slot<T>(buf: &mut std::vec::Vec<Option<T>>, i: usize) -> (r: Option<T>)
    requires
        i < old(buf)@.len(),
    ensures
        r == old(buf)@[i as int],
        final(buf)@ == old(buf)@.update(i as int, None),
{
    let mut r: Option<T> = None;
    buf.set_and_swap(i, &mut r);
    r
}

/// The error of an insertion or a removal at an index outside the array.
#[derive(Debug, Clone, Copy, PartialEq, Eq, Structural)]
pub struct IndexOutOfBounds {
    /// The index that was asked for.
    pub index: usize,
    /// The array's length at the time.
    pub len: usize,
}

/// A growable, contiguous, ordered container.
///
/// Dropping it drops each live element once, front to back, then frees the buffer: the
/// empty slots hold nothing to drop. An array given up by [`Vec::into_iter`] is not
/// dropped on its own; its buffer and remaining elements belong to the iterator.
///
/// It has no internal synchronization: sharing it between threads takes an outside lock
/// or a hand-over of ownership.
pub struct Vec<T> {
    buf: std::vec::Vec<Option<T>>,
    cap: usize,
    len: usize,
}

impl<T> View for Vec<T> {
    type V = Seq<T>;

    /// The live elements, in order.
    closed spec fn view(&self) -> Seq<T> {
        Seq::new(self.len as nat, |i: int| self.buf@[i]->Some_0)
    }
}

impl<T> Vec<T> {
    /// Number of allocated slots, live or not.
    pub closed spec fn spec_capacity(&self) -> nat {
        self.cap as nat
    }

    /// The container's internal invariant: `len <= cap`, exactly the first `len` slots
    /// are occupied, the element type is not zero-sized, and the buffer's size in bytes
    /// fits in an `isize`.
    pub closed spec fn wf(&self) -> bool {
        &&& self.len <= self.cap
        &&& self.buf@.len() == self.cap
        &&& forall|i: int| 0 <= i < self.len ==> (#[trigger] self.buf@[i]) is Some
        &&& forall|i: int| self.len <= i < self.cap ==> (#[trigger] self.buf@[i]) is None
        &&& vstd::layout::size_of::<T>() != 0
        &&& self.cap * vstd::layout::size_of::<T>() <= isize::MAX
    }

    /// Whether one more element can be stored: either a free slot is left, or the grown
    /// buffer still fits in `isize::MAX` bytes.
    pub open spec fn can_take_one(&self) -> bool {
        self@.len() < self.spec_capacity() || grown_capacity(self.spec_capacity())
            * vstd::layout::size_of::<T>() <= isize::MAX
    }

    /// An empty array: no element, no allocation. The element type must not be
    /// zero-sized.
    pub fn new() -> (v: Self)
        requires
            vstd::layout::size_of::<T>() != 0,
        ensures
            v.wf(),
            v@ == Seq::<T>::empty(),
            v.spec_capacity() == 0,
    {
        let v = Vec { buf: std::vec::Vec::new(), cap: 0, len: 0 };
        assert(v@ =~= Seq::<T>::empty());
        v
    }

    /// Makes room for at least one more element: capacity one when nothing is
    /// allocated, else twice the old capacity. The live elements are kept. Running out of
    /// memory aborts the process, as the global allocator does.
    fn grow(&mut self)
        requires
            old(self).wf(),
            grown_capacity(old(self).spec_capacity()) * vstd::layout::size_of::<T>()
                <= isize::MAX,
        ensures
            final(self).wf(),
            final(self)@ == old(self)@,
            final(self).spec_capacity() == grown_capacity(old(self).spec_capacity()),
    {
        let ghost elems = self@;
        assert(grown_capacity(self.cap as nat) <= grown_capacity(self.cap as nat)
            * vstd::layout::size_of::<T>()) by (nonlinear_arith)
            requires
                vstd::layout::size_of::<T>() != 0,
        ;
        let new_cap: usize = if self.cap == 0 {
            1
        } else {
            2 * self.cap
        };
        self.buf.reserve(new_cap - self.cap);
        while self.buf.len() < new_cap
            invariant
                self.cap < new_cap,
                self.len <= self.cap,
                self.cap <= self.buf@.len() <= new_cap,
                forall|i: int| 0 <= i < self.len ==> (#[trigger] self.buf@[i]) is Some,
                forall|i: int| self.len <= i < self.buf@.len() ==> (#[trigger] self.buf@[i]) is None,
                forall|i: int| 0 <= i < self.len ==> (#[trigger] self.buf@[i])->Some_0 == elems[i],
                elems.len() == self.len,
            decreases new_cap - self.buf@.len(),
        {
            self.buf.push(None);
        }
        self.cap = new_cap;
        assert(self@ =~= elems);
    }

    /// Appends `elem` after the last element, growing the buffer first when it is full.
    pub fn push(&mut self, elem: T)
        requires
            old(self).wf(),
            old(self).can_take_one(),
        ensures
            final(self).wf(),
            final(self)@ == old(self)@.push(elem),
            final(self).spec_capacity() == capacity_after_push(
                old(self)@.len(),
                old(self).spec_capacity(),
            ),
    {
        if self.len == self.cap {
            self.grow();
        }
        let ghost elems = self@;
        self.buf.set(self.len, Some(elem));
        self.len = self.len + 1;
        assert(self@ =~= elems.push(elem));
    }

    /// Removes the last element and returns it, or `None` when the array is empty.
    pub fn pop(&mut self) -> (r: Option<T>)
        requires
            old(self).wf(),
        ensures
            final(self).wf(),
            final(self).spec_capacity() == old(self).spec_capacity(),
            old(self)@.len() == 0 ==> r is None && final(self)@ == old(self)@,
            old(self)@.len() > 0 ==> r == Some(old(self)@.last()) && final(self)@
                == old(self)@.drop_last(),
    {
        if self.len == 0 {
            None
        } else {
            let ghost elems = self@;
            self.len = self.len - 1;
            let r = take_slot(&mut self.buf, self.len);
            assert(self@ =~= elems.drop_last());
            r
        }
    }

    /// Inserts `elem` at `index`, shifting the elements at `[index, len)` one slot to the
    /// right. Fails, leaving the array as it was, when `index > len`.
    pub fn insert(&mut self, index: usize, elem: T) -> (r: Result<(), IndexOutOfBounds>)
        requires
            old(self).wf(),
            old(self).can_take_one(),
        ensures
            final(self).wf(),
            index <= old(self)@.len() ==> {
                &&& r is Ok
                &&& final(self)@ == old(self)@.insert(index as int, elem)
                &&& final(self)@.len() == old(self)@.len() + 1
                &&& final(self)@[index as int] == elem
                &&& forall|j: int| 0 <= j < index ==> #[trigger] final(self)@[j] == old(self)@[j]
                &&& forall|j: int|
                    index <= j < old(self)@.len() ==> #[trigger] final(self)@[j + 1]
                        == old(self)@[j]
                &&& final(self).spec_capacity() == capacity_after_push(
                    old(self)@.len(),
                    old(self).spec_capacity(),
                )
            },
            index > old(self)@.len() ==> {
                &&& r == Err::<(), _>(IndexOutOfBounds { index, len: old(self)@.len() as usize })
                &&& final(self)@ == old(self)@
                &&& final(self).spec_capacity() == old(self).spec_capacity()
            },
    {
        if index > self.len {
            return Err(IndexOutOfBounds { index, len: self.len });
        }
        if self.cap == self.len {
            self.grow();
        }
        let ghost elems = self@;
        let ghost b0 = self.buf@;
        let mut j: usize = self.len;
        while j > index
            invariant
                index <= j <= self.len < self.cap,
                self.len == elems.len(),
                self.buf@.len() == self.cap,
                b0.len() == self.cap,
                forall|k: int| 0 <= k < self.len ==> (#[trigger] b0[k]) is Some,
                forall|k: int| self.len <= k < self.cap ==> (#[trigger] b0[k]) is None,
                forall|k: int| 0 <= k < self.len ==> #[trigger] elems[k] == b0[k]->Some_0,
                self.buf@[j as int] is None,
                forall|k: int| 0 <= k < j ==> #[trigger] self.buf@[k] == b0[k],
                forall|k: int| j < k <= self.len ==> #[trigger] self.buf@[k] == b0[k - 1],
                forall|k: int| self.len < k < self.cap ==> #[trigger] self.buf@[k] == b0[k],
            decreases j,
        {
            let v = take_slot(&mut self.buf, j - 1);
            self.buf.set(j, v);
            j = j - 1;
        }
        self.buf.set(index, Some(elem));
        self.len = self.len + 1;
        assert forall|k: int| 0 <= k < self.len implies #[trigger] self@[k] == elems.insert(
            index as int,
            elem,
        )[k] by {
            if k < index {
                assert(self.buf@[k] == b0[k]);
            } else if k > index {
                assert(self.buf@[k] == b0[k - 1]);
            }
        }
        assert(self@ =~= elems.insert(index as int, elem));
        Ok(())
    }

    /// Removes the element at `index` and returns it, shifting the elements after it one
    /// slot to the left. Fails, leaving the array as it was, when `index >= len`.
    pub fn remove(&mut self, index: usize) -> (r: Result<T, IndexOutOfBounds>)
        requires
            old(self).wf(),
        ensures
            final(self).wf(),
            final(self).spec_capacity() == old(self).spec_capacity(),
            index < old(self)@.len() ==> {
                &&& r == Ok::<T, IndexOutOfBounds>(old(self)@[index as int])
                &&& final(self)@ == old(self)@.remove(index as int)
                &&& final(self)@.len() == old(self)@.len() - 1
                &&& forall|j: int| 0 <= j < index ==> #[trigger] final(self)@[j] == old(self)@[j]
                &&& forall|j: int|
                    index < j < old(self)@.len() ==> #[trigger] final(self)@[j - 1]
                        == old(self)@[j]
            },
            index >= old(self)@.len() ==> {
                &&& r == Err::<T, _>(IndexOutOfBounds { index, len: old(self)@.len() as usize })
                &&& final(self)@ == old(self)@
            },
    {
        if index >= self.len {
            return Err(IndexOutOfBounds { index, len: self.len });
        }
        let ghost elems = self@;
        let ghost b0 = self.buf@;
        let removed = take_slot(&mut self.buf, index);
        let mut j: usize = index;
        while j + 1 < self.len
            invariant
                index <= j < self.len <= self.cap,
                self.len == elems.len(),
                self.buf@.len() == self.cap,
                b0.len() == self.cap,
                forall|k: int| 0 <= k < self.len ==> (#[trigger] b0[k]) is Some,
                forall|k: int| self.len <= k < self.cap ==> (#[trigger] b0[k]) is None,
                forall|k: int| 0 <= k < self.len ==> #[trigger] elems[k] == b0[k]->Some_0,
                self.buf@[j as int] is None,
                forall|k: int| 0 <= k < index ==> #[trigger] self.buf@[k] == b0[k],
                forall|k: int| index <= k < j ==> #[trigger] self.buf@[k] == b0[k + 1],
                forall|k: int| j < k < self.cap ==> #[trigger] self.buf@[k] == b0[k],
            decreases self.len - j,
        {
            let v = take_slot(&mut self.buf, j + 1);
            self.buf.set(j, v);
            j = j + 1;
        }
        self.len = self.len - 1;
        assert forall|k: int| 0 <= k < self.len implies #[trigger] self@[k] == elems.remove(
            index as int,
        )[k] by {
            if k < index {
                assert(self.buf@[k] == b0[k]);
            } else {
                assert(self.buf@[k] == b0[k + 1]);
            }
        }
        assert(self@ =~= elems.remove(index as int));
        Ok(removed.unwrap())
    }

    /// A shared reference to the element at `index`, or `None` past the end.
    pub fn get(&self, index: usize) -> (r: Option<&T>)
        requires
            self.wf(),
        ensures
            index < self@.len() ==> r == Some(&self@[index as int]),
            index >= self@.len() ==> r is None,
    {
        if index < self.len {
            match &self.buf[index] {
                Some(x) => Some(x),
                None => None,
            }
        } else {
            None
        }
    }

    /// Replaces the element at `index` with `elem` and returns the old one. Fails, leaving
    /// the array as it was, when `index >= len`.
    pub fn set(&mut self, index: usize, elem: T) -> (r: Result<T, IndexOutOfBounds>)
        requires
            old(self).wf(),
        ensures
            final(self).wf(),
            final(self).spec_capacity() == old(self).spec_capacity(),
            index < old(self)@.len() ==> r == Ok::<T, IndexOutOfBounds>(old(self)@[index as int])
                && final(self)@ == old(self)@.update(index as int, elem),
            index >= old(self)@.len() ==> r == Err::<T, _>(
                IndexOutOfBounds { index, len: old(self)@.len() as usize },
            ) && final(self)@ == old(self)@,
    {
        if index >= self.len {
            return Err(IndexOutOfBounds { index, len: self.len });
        }
        let ghost elems = self@;
        let old_elem = take_slot(&mut self.buf, index);
        self.buf.set(index, Some(elem));
        assert(self@ =~= elems.update(index as int, elem));
        Ok(old_elem.unwrap())
    }

    /// Gives up the array for an iterator that owns its buffer and yields its elements,
    /// from the front or from the back.
    pub fn into_iter(self) -> (it: VecIntoIter<T>)
        requires
            self.wf(),
        ensures
            it.wf(),
            it@ == self@,
            it.source() == self@,
            it.front_index() == 0,
            it.back_index() == self@.len(),
    {
        let Vec { buf, cap, len } = self;
        let it = VecIntoIter { buf, cap, start: 0, end: len, elems: Ghost(self@) };
        assert(it@ =~= self@);
        it
    }

    /// Number of live elements.
    pub fn len(&self) -> (n: usize)
        requires
            self.wf(),
        ensures
            n == self@.len(),
    {
        self.len
    }

    /// Number of allocated slots.
    pub fn capacity(&self) -> (n: usize)
        ensures
            n == self.spec_capacity(),
    {
        self.cap
    }
}

/// An iterator that owns the buffer of a former [`Vec`] and moves its elements out.
///
/// Slots `[start, end)` hold the elements not yet yielded; every other slot is empty, so
/// dropping the iterator drops exactly the elements it did not yield.
pub struct VecIntoIter<T> {
    buf: std::vec::Vec<Option<T>>,
    cap: usize,
    start: usize,
    end: usize,
    elems: Ghost<Seq<T>>,
}

impl<T> View for VecIntoIter<T> {
    type V = Seq<T>;

    /// The elements not yet yielded, front first.
    closed spec fn view(&self) -> Seq<T> {
        Seq::new((self.end - self.start) as nat, |i: int| self.buf@[self.start + i]->Some_0)
    }
}

impl<T> VecIntoIter<T> {
    /// The elements the iterator was made from, yielded or not.
    pub closed spec fn source(&self) -> Seq<T> {
        self.elems@
    }

    /// Position in the source of the next element to come from the front.
    pub closed spec fn front_index(&self) -> nat {
        self.start as nat
    }

    /// One past the position in the source of the next element to come from the back.
    pub closed spec fn back_index(&self) -> nat {
        self.end as nat
    }

    /// The iterator's internal invariant: the cursors stay in order within the buffer,
    /// slots `[start, end)` hold the source's elements at those positions, and every
    /// other slot is empty.
    pub closed spec fn wf(&self) -> bool {
        &&& self.start <= self.end <= self.cap
        &&& self.buf@.len() == self.cap
        &&& self.end <= self.elems@.len()
        &&& forall|i: int|
            self.start <= i < self.end ==> (#[trigger] self.buf@[i]) == Some(self.elems@[i])
        &&& forall|i: int|
            0 <= i < self.cap && !(self.start <= i < self.end) ==> (#[trigger] self.buf@[i]) is None
    }

    /// The remaining elements are exactly the source's elements between the two cursors.
    pub proof fn lemma_view_is_source_range(&self)
        requires
            self.wf(),
        ensures
            self@ == self.source().subrange(self.front_index() as int, self.back_index() as int),
            self@.len() == self.back_index() - self.front_index(),
    {
        assert(self@ =~= self.source().subrange(self.start as int, self.end as int));
    }

    /// Moves out the next element from the front, or returns `None` when none is left.
    pub fn next(&mut self) -> (r: Option<T>)
        requires
            old(self).wf(),
        ensures
            final(self).wf(),
            final(self).source() == old(self).source(),
            old(self)@.len() == 0 ==> r is None && *final(self) == *old(self),
            old(self)@.len() > 0 ==> {
                &&& r == Some(old(self)@[0])
                &&& r == Some(old(self).source()[old(self).front_index() as int])
                &&& final(self)@ == old(self)@.drop_first()
                &&& final(self).front_index() == old(self).front_index() + 1
                &&& final(self).back_index() == old(self).back_index()
            },
    {
        if self.start == self.end {
            None
        } else {
            let ghost rest = self@;
            let r = take_slot(&mut self.buf, self.start);
            self.start = self.start + 1;
            assert(self@ =~= rest.drop_first());
            r
        }
    }

    /// Moves out the next element from the back, or returns `None` when none is left.
    pub fn next_back(&mut self) -> (r: Option<T>)
        requires
            old(self).wf(),
        ensures
            final(self).wf(),
            final(self).source() == old(self).source(),
            old(self)@.len() == 0 ==> r is None && *final(self) == *old(self),
            old(self)@.len() > 0 ==> {
                &&& r == Some(old(self)@.last())
                &&& r == Some(old(self).source()[old(self).back_index() - 1])
                &&& final(self)@ == old(self)@.drop_last()
                &&& final(self).front_index() == old(self).front_index()
                &&& final(self).back_index() == old(self).back_index() - 1
            },
    {
        if self.start == self.end {
            None
        } else {
            let ghost rest = self@;
            self.end = self.end - 1;
            let r = take_slot(&mut self.buf, self.end);
            assert(self@ =~= rest.drop_last());
            r
        }
    }

    /// Drains the iterator from the front with `next` and returns what it yields, in order.
    pub fn collect_remaining(self) -> (r: std::vec::Vec<T>)
        requires
            self.wf(),
        ensures
            r@ == self@,
    {
        let ghost all = self@;
        let mut it = self;
        let mut out: std::vec::Vec<T> = std::vec::Vec::new();
        let mut remaining: usize = it.end - it.start;
        while remaining > 0
            invariant
                it.wf(),
                remaining == it@.len(),
                out@ + it@ == all,
            decreases remaining,
        {
            let ghost before = it@;
            let x = it.next();
            out.push(x.unwrap());
            remaining = remaining - 1;
            assert(out@ + it@ =~= all) by {
                assert(before =~= seq![before[0]] + before.drop_first());
            }
        }
        assert(out@ =~= all);
        out
    }

    /// The exact number of elements left, as a lower and an upper bound.
    pub fn size_hint(&self) -> (r: (usize, Option<usize>))
        requires
            self.wf(),
        ensures
            r.0 == self@.len(),
            r.1 == Some(self@.len() as usize),
    {
        let n = self.end - self.start;
        (n, Some(n))
    }
}

} // verus!
