//! The queue through which the background hands texts to the foreground.
//!
//! The background only ever appends; the foreground only ever takes from
//! the front. What was handed over first is applied first.

use std::collections::VecDeque;
use vstd::prelude::*;

verus! {

/// Texts that were received and not yet applied to the model, oldest first.
pub struct HandoffQueue {
    pending: VecDeque<String>,
}

impl View for HandoffQueue {
    type V = Seq<Seq<char>>;

    closed spec fn view(&self) -> Seq<Seq<char>> {
        self.pending.deep_view()
    }
}

impl HandoffQueue {
    /// An empty queue.
    pub fn new() -> (queue: HandoffQueue)
        ensures
            queue@ == Seq::<Seq<char>>::empty(),
    {
        let queue = HandoffQueue { pending: VecDeque::new() };
        assert(queue@ =~= Seq::<Seq<char>>::empty());
        queue
    }

    /// The number of pending handoffs.
    pub fn len(&self) -> (len: usize)
        ensures
            len == self@.len(),
    {
        self.pending.len()
    }

    /// Whether nothing is pending.
    pub fn is_empty(&self) -> (empty: bool)
        ensures
            empty == (self@.len() == 0),
    {
        self.pending.len() == 0
    }

    /// Hands `text` over: it goes behind everything that is pending.
    pub fn submit(&mut self, text: String)
        ensures
            final(self)@ == old(self)@.push(text@),
    {
        self.pending.push_back(text);
        assert(self@ =~= old(self)@.push(text@));
    }

    /// Takes the oldest pending handoff, if there is one.
    pub fn take_next(&mut self) -> (next: Option<String>)
        ensures
            match next {
                Some(text) => {
                    &&& old(self)@.len() > 0
                    &&& text@ == old(self)@.first()
                    &&& final(self)@ == old(self)@.drop_first()
                },
                None => {
                    &&& old(self)@.len() == 0
                    &&& final(self)@ == old(self)@
                },
            },
    {
        let next = self.pending.pop_front();
        assert(next is Some ==> self@ =~= old(self)@.drop_first());
        next
    }
}

} // verus!
