use std::cell::Cell;
use std::rc::Rc;

use nomicon::{IndexOutOfBounds, Vec};

/// An element that counts how many times it has been dropped.
struct Counted {
    id: u32,
    drops: Rc<Cell<usize>>,
}

impl Drop for Counted {
    fn drop(&mut self) {
        self.drops.set(self.drops.get() + 1);
    }
}

fn counted(id: u32, drops: &Rc<Cell<usize>>) -> Counted {
    Counted { id, drops: Rc::clone(drops) }
}

fn contents(v: &Vec<u32>) -> std::vec::Vec<u32> {
    let mut out = std::vec::Vec::new();
    let mut i = 0;
    while let Some(x) = v.get(i) {
        out.push(*x);
        i += 1;
    }
    out
}

fn filled(vals: &[u32]) -> Vec<u32> {
    let mut v = Vec::new();
    for &x in vals {
        v.push(x);
    }
    v
}

#[test]
fn new_is_empty_without_allocation() {
    let v: Vec<u64> = Vec::new();
    assert_eq!(v.len(), 0);
    assert_eq!(v.capacity(), 0);
    assert!(v.get(0).is_none());
}

#[test]
fn pushes_then_pops_come_back_reversed() {
    let mut v = filled(&[10, 20, 30, 40]);
    assert_eq!(v.pop(), Some(40));
    assert_eq!(v.pop(), Some(30));
    assert_eq!(v.pop(), Some(20));
    assert_eq!(v.pop(), Some(10));
    assert_eq!(v.len(), 0);
    assert_eq!(v.pop(), None);
}

#[test]
fn push_then_pop_round_trip() {
    let mut v = filled(&[1, 2, 3]);
    v.push(99);
    assert_eq!(v.pop(), Some(99));
    assert_eq!(v.len(), 3);
    assert_eq!(contents(&v), vec![1, 2, 3]);
}

#[test]
fn capacity_doubles_from_one() {
    let mut v: Vec<u32> = Vec::new();
    let mut seen = std::vec::Vec::new();
    for x in 0..5 {
        v.push(x);
        seen.push(v.capacity());
    }
    assert_eq!(seen, vec![1, 2, 4, 4, 8]);
    assert_eq!(v.capacity(), 8);
    for x in 5..9 {
        v.push(x);
    }
    assert_eq!(v.capacity(), 16);
}

#[test]
fn insert_shifts_later_elements_right() {
    let mut v = filled(&[1, 2, 3, 4]);
    assert_eq!(v.insert(1, 7), Ok(()));
    assert_eq!(contents(&v), vec![1, 7, 2, 3, 4]);
    assert_eq!(v.get(1), Some(&7));
    assert_eq!(v.len(), 5);
    assert_eq!(v.capacity(), 8);
}

#[test]
fn insert_at_front_and_end() {
    let mut v: Vec<u32> = Vec::new();
    assert_eq!(v.insert(0, 5), Ok(()));
    assert_eq!(v.insert(0, 4), Ok(()));
    assert_eq!(v.insert(2, 6), Ok(()));
    assert_eq!(contents(&v), vec![4, 5, 6]);
}

#[test]
fn insert_past_the_end_is_an_error() {
    let mut v = filled(&[1, 2]);
    assert_eq!(v.insert(3, 9), Err(IndexOutOfBounds { index: 3, len: 2 }));
    assert_eq!(contents(&v), vec![1, 2]);
    assert_eq!(v.capacity(), 2);
}

#[test]
fn remove_shifts_later_elements_left() {
    let mut v = filled(&[1, 2, 3, 4, 5]);
    assert_eq!(v.remove(1), Ok(2));
    assert_eq!(contents(&v), vec![1, 3, 4, 5]);
    assert_eq!(v.remove(3), Ok(5));
    assert_eq!(contents(&v), vec![1, 3, 4]);
    assert_eq!(v.remove(0), Ok(1));
    assert_eq!(contents(&v), vec![3, 4]);
    assert_eq!(v.capacity(), 8);
}

#[test]
fn remove_at_length_is_an_error() {
    let mut v = filled(&[1, 2, 3]);
    assert_eq!(v.remove(3), Err(IndexOutOfBounds { index: 3, len: 3 }));
    assert_eq!(contents(&v), vec![1, 2, 3]);
    let mut e: Vec<u32> = Vec::new();
    assert_eq!(e.remove(0), Err(IndexOutOfBounds { index: 0, len: 0 }));
}

#[test]
fn set_replaces_and_returns_old() {
    let mut v = filled(&[1, 2, 3]);
    assert_eq!(v.set(2, 30), Ok(3));
    assert_eq!(contents(&v), vec![1, 2, 30]);
    assert_eq!(v.set(3, 0), Err(IndexOutOfBounds { index: 3, len: 3 }));
}

#[test]
fn into_iter_yields_insertion_order() {
    let v = filled(&[3, 1, 4, 1, 5]);
    let mut it = v.into_iter();
    assert_eq!(it.size_hint(), (5, Some(5)));
    let mut out = std::vec::Vec::new();
    while let Some(x) = it.next() {
        out.push(x);
    }
    assert_eq!(out, vec![3, 1, 4, 1, 5]);
    assert_eq!(it.size_hint(), (0, Some(0)));
}

#[test]
fn collect_remaining_after_partial_drain() {
    let it0 = filled(&[1, 2, 3, 4, 5]).into_iter();
    let mut it = it0;
    assert_eq!(it.next(), Some(1));
    assert_eq!(it.next_back(), Some(5));
    assert_eq!(it.collect_remaining(), vec![2, 3, 4]);
}

#[test]
fn alternating_front_and_back_drain() {
    let mut v: Vec<char> = Vec::new();
    for c in ['A', 'B', 'C', 'D'] {
        v.push(c);
    }
    let mut it = v.into_iter();
    assert_eq!(it.next(), Some('A'));
    assert_eq!(it.next_back(), Some('D'));
    assert_eq!(it.next(), Some('B'));
    assert_eq!(it.next_back(), Some('C'));
    assert_eq!(it.next(), None);
    assert_eq!(it.next_back(), None);
}

#[test]
fn into_iter_of_empty_with_capacity() {
    let mut v = filled(&[1, 2]);
    v.pop();
    v.pop();
    let mut it = v.into_iter();
    assert_eq!(it.size_hint(), (0, Some(0)));
    assert_eq!(it.next(), None);
}

#[test]
fn dropping_the_array_drops_each_live_element_once() {
    let drops = Rc::new(Cell::new(0));
    let mut v = Vec::new();
    for id in 0..5 {
        v.push(counted(id, &drops));
    }
    let popped = v.pop();
    assert_eq!(popped.as_ref().map(|c| c.id), Some(4));
    assert_eq!(drops.get(), 0);
    drop(popped);
    assert_eq!(drops.get(), 1);
    drop(v);
    assert_eq!(drops.get(), 5);
}

#[test]
fn dropping_a_partly_drained_iterator_drops_the_rest_once() {
    let drops = Rc::new(Cell::new(0));
    let mut v = Vec::new();
    for id in 0..6 {
        v.push(counted(id, &drops));
    }
    let mut it = v.into_iter();
    let first = it.next();
    let last = it.next_back();
    assert_eq!(first.as_ref().map(|c| c.id), Some(0));
    assert_eq!(last.as_ref().map(|c| c.id), Some(5));
    assert_eq!(drops.get(), 0);
    drop(it);
    assert_eq!(drops.get(), 4);
    drop(first);
    drop(last);
    assert_eq!(drops.get(), 6);
}

#[test]
fn removed_and_replaced_elements_are_not_dropped_twice() {
    let drops = Rc::new(Cell::new(0));
    let mut v = Vec::new();
    for id in 0..3 {
        v.push(counted(id, &drops));
    }
    let removed = v.remove(1).ok().map(|c| c.id);
    assert_eq!(removed, Some(1));
    assert_eq!(drops.get(), 1);
    assert!(v.insert(0, counted(7, &drops)).is_ok());
    let old = v.set(0, counted(8, &drops)).ok().map(|c| c.id);
    assert_eq!(old, Some(7));
    assert_eq!(drops.get(), 2);
    drop(v);
    assert_eq!(drops.get(), 5);
}
