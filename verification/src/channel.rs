//! A first-in, first-out queue between one side that sends and one that
//! receives without waiting.

use std::collections::VecDeque;
use vstd::prelude::*;

verus! {

/// A queue of items in the order in which they were sent.
#[derive(Debug)]
pub struct Channel<T> {
    items: VecDeque<T>,
}

impl<T> View for Channel<T> {
    type V = Seq<T>;

    closed spec fn view(&self) -> Seq<T> {
        self.items@
    }
}

impl<T> Channel<T> {
    /// An empty channel.
    pub fn new() -> (channel: Self)
        ensures
            channel@ == Seq::<T>::empty(),
    {
        Channel { items: VecDeque::new() }
    }

    /// Puts `item` behind everything that waits.
    pub fn send(&mut self, item: T)
        ensures
            final(self)@ == old(self)@.push(item),
    {
        self.items.push_back(item);
    }

    /// Takes the item that has waited longest, if any waits.
    pub fn try_recv(&mut self) -> (item: Option<T>)
        ensures
            item == if old(self)@.len() > 0 {
                Some(old(self)@[0])
            } else {
                None
            },
            final(self)@ == if old(self)@.len() > 0 {
                old(self)@.drop_first()
            } else {
                old(self)@
            },
    {
        self.items.pop_front()
    }

    /// How many items wait.
    pub fn len(&self) -> (count: usize)
        ensures
            count == self@.len(),
    {
        self.items.len()
    }

    /// Whether nothing waits.
    pub fn is_empty(&self) -> (empty: bool)
        ensures
            empty == (self@.len() == 0),
    {
        self.items.len() == 0
    }
}

} // verus!
