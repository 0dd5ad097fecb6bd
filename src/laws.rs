//! Laws that relate several operations of [`Vec`](crate::vec::Vec) and
//! [`VecIntoIter`](crate::vec::VecIntoIter), stated over the same models their contracts
//! use.
use vstd::prelude::*;

use crate::vec::capacity_after_push;

verus! {

/// The contents after appending `vals` one by one, in order, to an array holding `s`
/// (each `push` appends its element at the end).
pub open spec fn pushed_all<T>(s: Seq<T>, vals: Seq<T>) -> Seq<T>
    decreases vals.len(),
{
    if vals.len() == 0 {
        s
    } else {
        pushed_all(s.push(vals[0]), vals.drop_first())
    }
}

/// The values that `k` successive `pop`s hand out, in order, from an array holding `s`
/// (each `pop` takes the last element).
pub open spec fn popped<T>(s: Seq<T>, k: nat) -> Seq<T>
    decreases k,
{
    if k == 0 || s.len() == 0 {
        Seq::empty()
    } else {
        seq![s.last()] + popped(s.drop_last(), (k - 1) as nat)
    }
}

/// The contents left after `k` successive `pop`s on an array holding `s`.
pub open spec fn after_pops<T>(s: Seq<T>, k: nat) -> Seq<T>
    decreases k,
{
    if k == 0 || s.len() == 0 {
        s
    } else {
        after_pops(s.drop_last(), (k - 1) as nat)
    }
}

proof fn lemma_pushed_all_is_concat<T>(s: Seq<T>, vals: Seq<T>)
    ensures
        pushed_all(s, vals) == s + vals,
    decreases vals.len(),
{
    if vals.len() > 0 {
        lemma_pushed_all_is_concat(s.push(vals[0]), vals.drop_first());
        assert(s.push(vals[0]) + vals.drop_first() =~= s + vals);
    } else {
        assert(s + vals =~= s);
    }
}

proof fn lemma_pops_of_concat<T>(s: Seq<T>, vals: Seq<T>)
    ensures
        popped(s + vals, vals.len()) == vals.reverse(),
        after_pops(s + vals, vals.len()) == s,
    decreases vals.len(),
{
    if vals.len() == 0 {
        assert(s + vals =~= s);
        assert(vals.reverse() =~= Seq::<T>::empty());
    } else {
        let rest = vals.drop_last();
        lemma_pops_of_concat(s, rest);
        assert((s + vals).drop_last() =~= s + rest);
        assert((s + vals).last() == vals.last());
        assert(seq![vals.last()] + rest.reverse() =~= vals.reverse());
    }
}

/// Appending values and then popping as many hands them back in reverse order, and
/// leaves the array holding what it held before the appends (empty, if it started empty).
pub proof fn lemma_push_pop_lifo<T>(start: Seq<T>, vals: Seq<T>)
    ensures
        popped(pushed_all(start, vals), vals.len()) == vals.reverse(),
        after_pops(pushed_all(start, vals), vals.len()) == start,
{
    lemma_pushed_all_is_concat(start, vals);
    lemma_pops_of_concat(start, vals);
}

/// A `pop` right after a `push` returns the value just appended and leaves the array as
/// it was before the `push`, length included.
pub proof fn lemma_push_then_pop<T>(s: Seq<T>, v: T)
    ensures
        s.push(v).len() > 0,
        s.push(v).last() == v,
        s.push(v).drop_last() == s,
        s.push(v).drop_last().len() == s.len(),
{
    assert(s.push(v).drop_last() =~= s);
}

/// Whether `c` is a power of two (one included).
pub open spec fn is_power_of_two(c: nat) -> bool
    decreases c,
{
    if c == 1 {
        true
    } else if c >= 2 && c % 2 == 0 {
        is_power_of_two(c / 2)
    } else {
        false
    }
}

/// The capacity of an array that started empty (capacity zero) after `n` appends.
pub open spec fn capacity_after_appends(n: nat) -> nat
    decreases n,
{
    if n == 0 {
        0
    } else {
        capacity_after_push((n - 1) as nat, capacity_after_appends((n - 1) as nat))
    }
}

/// Starting empty, after `n >= 1` appends the capacity is the smallest power of two that
/// is at least `n`; with no append it is zero.
pub proof fn lemma_growth_doubling(n: nat)
    ensures
        n == 0 ==> capacity_after_appends(n) == 0,
        n >= 1 ==> is_power_of_two(capacity_after_appends(n)),
        n >= 1 ==> n <= capacity_after_appends(n) < 2 * n,
    decreases n,
{
    if n >= 2 {
        let m = (n - 1) as nat;
        lemma_growth_doubling(m);
        let c = capacity_after_appends(m);
        if m == c {
            assert(capacity_after_appends(n) == 2 * c);
            assert((2 * c) / 2 == c);
        }
    } else if n == 1 {
        assert(capacity_after_appends(0) == 0);
        assert(capacity_after_appends(1) == 1);
    }
}

/// The positions in the source that a run of calls yields, from an iterator whose cursors
/// stand at `front` and `back`: `from_back[k]` tells whether call `k` is `next_back`
/// (which yields position `back - 1`) or `next` (which yields position `front`). Calls
/// made once the cursors meet yield nothing.
pub open spec fn drained_positions(front: int, back: int, from_back: Seq<bool>) -> Seq<int>
    decreases from_back.len(),
{
    if from_back.len() == 0 || front >= back {
        Seq::empty()
    } else if from_back[0] {
        seq![back - 1] + drained_positions(front, back - 1, from_back.drop_first())
    } else {
        seq![front] + drained_positions(front + 1, back, from_back.drop_first())
    }
}

proof fn lemma_drained_positions_between(front: int, back: int, from_back: Seq<bool>)
    requires
        front <= back,
    ensures
        drained_positions(front, back, from_back).no_duplicates(),
        forall|i: int|
            0 <= i < drained_positions(front, back, from_back).len() ==> front
                <= #[trigger] drained_positions(front, back, from_back)[i] < back,
        drained_positions(front, back, from_back).len() == if from_back.len() < back - front {
            from_back.len() as int
        } else {
            back - front
        },
    decreases from_back.len(),
{
    if from_back.len() > 0 && front < back {
        let rest = from_back.drop_first();
        if from_back[0] {
            lemma_drained_positions_between(front, back - 1, rest);
        } else {
            lemma_drained_positions_between(front + 1, back, rest);
        }
    }
}

/// Draining an iterator over `n` elements by any mix of `next` and `next_back` never yields
/// a position twice, yields only positions in `[0, n)`, and after `n` or more calls has
/// yielded exactly `n` elements, so every element once.
pub proof fn lemma_alternating_drain(n: nat, from_back: Seq<bool>)
    ensures
        drained_positions(0, n as int, from_back).no_duplicates(),
        forall|i: int|
            0 <= i < drained_positions(0, n as int, from_back).len() ==> 0
                <= #[trigger] drained_positions(0, n as int, from_back)[i] < n,
        from_back.len() >= n ==> drained_positions(0, n as int, from_back).len() == n,
        from_back.len() < n ==> drained_positions(0, n as int, from_back).len()
            == from_back.len(),
{
    lemma_drained_positions_between(0, n as int, from_back);
}

} // verus!
