use std::collections::VecDeque;
use vstd::prelude::*;

verus! {

/// A first-in-first-out queue. Its view is the sequence of held elements,
/// oldest first.
pub struct Queue<T> {
    items: VecDeque<T>,
}

impl<T> View for Queue<T> {
    type V = Seq<T>;

    closed spec fn view(&self) -> Seq<T> {
        self.items@
    }
}

impl<T> Queue<T> {
    /// Makes an empty queue.
    pub fn new() -> (q: Queue<T>)
        ensures
            q@ == Seq::<T>::empty(),
    {
        Queue { items: VecDeque::new() }
    }

    /// Appends `v` as the newest element.
    pub fn enqueue(&mut self, v: T)
        ensures
            final(self)@ == old(self)@.push(v),
    {
        self.items.push_back(v)
    }

    /// Removes and returns the oldest element. The queue must not be empty:
    /// an unchecked caller that breaks this gets a panic.
    pub fn dequeue(&mut self) -> (r: T)
        requires
            old(self)@.len() > 0,
        ensures
            r == old(self)@[0],
            final(self)@ == old(self)@.subrange(1, old(self)@.len() as int),
    {
        self.items.pop_front().expect("Cannot dequeue from empty queue.")
    }

    /// Whether the queue holds no element.
    pub fn is_empty(&self) -> (r: bool)
        ensures
            r == (self@.len() == 0),
    {
        self.items.len() == 0
    }
}

} // verus!
