//! A sequence that keeps only its most recent items.

use vstd::prelude::*;
use std::collections::VecDeque;

verus! {

/// A first-in, first-out sequence with a capacity: when an item is pushed
/// beyond `max_size`, the oldest items leave.
#[derive(Debug, Clone)]
pub struct BoundedVec<T> {
    /// The items, oldest first.
    pub items: VecDeque<T>,
    /// The greatest number of items kept.
    pub max_size: usize,
}

/// The most recent `max_size` items of `items`, in their order: all of them
/// where there are no more than that.
pub open spec fn most_recent<T>(items: Seq<T>, max_size: nat) -> Seq<T> {
    if items.len() <= max_size {
        items
    } else {
        items.skip(items.len() - max_size)
    }
}

/// What a bounded sequence that holds `start` holds after every item of
/// `added` has been pushed, in order.
pub open spec fn pushed_all<T>(start: Seq<T>, max_size: nat, added: Seq<T>) -> Seq<T>
    decreases added.len(),
{
    if added.len() == 0 {
        start
    } else {
        most_recent(pushed_all(start, max_size, added.drop_last()).push(added.last()), max_size)
    }
}

/// Pushing any number of items into a bounded sequence leaves exactly the
/// most recent `max_size` of all items, oldest first.
///
/// In particular, pushing `max_size + 1` items into an empty sequence
/// leaves the last `max_size` of them in the order in which they came.
pub proof fn lemma_pushed_all_keeps_most_recent<T>(start: Seq<T>, max_size: nat, added: Seq<T>)
    requires
        start.len() <= max_size,
    ensures
        pushed_all(start, max_size, added) == most_recent(start + added, max_size),
    decreases added.len(),
{
    if added.len() == 0 {
        assert(start + added =~= start);
    } else {
        let shorter = added.drop_last();
        lemma_pushed_all_keeps_most_recent(start, max_size, shorter);
        let before = most_recent(start + shorter, max_size);
        assert((start + shorter).push(added.last()) =~= start + added);
        assert(most_recent(before.push(added.last()), max_size) =~= most_recent(
            start + added,
            max_size,
        ));
    }
}

impl<T> View for BoundedVec<T> {
    type V = Seq<T>;

    open spec fn view(&self) -> Seq<T> {
        self.items@
    }
}

impl<T> BoundedVec<T> {
    /// Whether the sequence holds no more than its capacity.
    pub open spec fn well_formed(&self) -> bool {
        self.items@.len() <= self.max_size
    }

    /// An empty sequence that keeps at most `max_size` items.
    pub fn new(max_size: usize) -> (bounded: Self)
        ensures
            bounded@ == Seq::<T>::empty(),
            bounded.max_size == max_size,
            bounded.well_formed(),
    {
        BoundedVec { items: VecDeque::new(), max_size }
    }

    /// Drops the oldest items until no more than the capacity are left.
    fn trim(&mut self)
        ensures
            final(self)@ == most_recent(old(self)@, old(self).max_size as nat),
            final(self).max_size == old(self).max_size,
            final(self).well_formed(),
    {
        while self.items.len() > self.max_size
            invariant
                self.max_size == old(self).max_size,
                self.items@.len() <= old(self)@.len(),
                self.items@ == old(self)@.skip(old(self)@.len() - self.items@.len()),
                self.items@.len() >= most_recent(old(self)@, old(self).max_size as nat).len(),
            decreases self.items@.len(),
        {
            self.items.pop_front();
            assert(self.items@ =~= old(self)@.skip(old(self)@.len() - self.items@.len()));
        }
        assert(self.items@ =~= most_recent(old(self)@, old(self).max_size as nat));
    }

    /// Appends `item` as the most recent one; the oldest items leave where
    /// the capacity is exceeded.
    pub fn push(&mut self, item: T)
        ensures
            final(self)@ == most_recent(old(self)@.push(item), old(self).max_size as nat),
            final(self).max_size == old(self).max_size,
            final(self).well_formed(),
    {
        self.items.push_back(item);
        self.trim();
    }

    /// Sets the capacity to `max_size` and drops the oldest items beyond
    /// it.
    pub fn set_max_size(&mut self, max_size: usize)
        ensures
            final(self)@ == most_recent(old(self)@, max_size as nat),
            final(self).max_size == max_size,
            final(self).well_formed(),
    {
        self.max_size = max_size;
        self.trim();
    }

    /// The number of items held.
    pub fn len(&self) -> (len: usize)
        ensures
            len == self@.len(),
    {
        self.items.len()
    }

    /// Whether no item is held.
    pub fn is_empty(&self) -> (empty: bool)
        ensures
            empty == (self@.len() == 0),
    {
        self.items.len() == 0
    }

    /// The item at position `index`, counted from the oldest.
    pub fn get(&self, index: usize) -> (item: Option<&T>)
        ensures
            index < self@.len() ==> item == Some(&self@[index as int]),
            index >= self@.len() ==> item is None,
    {
        if index < self.items.len() {
            Some(&self.items[index])
        } else {
            None
        }
    }

    /// Removes every item; the capacity stays.
    pub fn clear(&mut self)
        ensures
            final(self)@ == Seq::<T>::empty(),
            final(self).max_size == old(self).max_size,
            final(self).well_formed(),
    {
        self.items.clear();
    }
}

} // verus!
