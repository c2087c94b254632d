//! The matchmaking queue: a first-in-first-out list of player ids.
//!
//! The deployed queue lives in an external shared store reached over the
//! network; this is the same list as a value, used by the matchmaker's
//! verified step and by anything that needs the queue's exact semantics:
//! push to the tail, pop from the head, length. The queue itself does not
//! enforce uniqueness of player ids — the matchmaker defends against a
//! player id appearing twice.

use vstd::prelude::*;

verus! {

/// A FIFO of opaque, string-encoded player ids; the head is at index 0.
pub struct MatchQueue {
    pub entries: Vec<String>,
}

impl MatchQueue {
    /// The empty queue.
    pub fn new() -> (q: MatchQueue)
        ensures
            q.entries@.len() == 0,
    {
        MatchQueue { entries: Vec::new() }
    }

    /// Current number of queued entries.
    pub fn len(&self) -> (n: usize)
        ensures
            n == self.entries@.len(),
    {
        self.entries.len()
    }

    /// Push a player id onto the tail.
    pub fn push_tail(&mut self, player_id: String)
        ensures
            final(self).entries@ == old(self).entries@.push(player_id),
    {
        self.entries.push(player_id);
    }

    /// Pop the head entry, if any; an empty queue is left untouched.
    pub fn pop_head(&mut self) -> (r: Option<String>)
        ensures
            old(self).entries@.len() == 0 ==> r is None && *final(self) == *old(self),
            old(self).entries@.len() > 0 ==> (r matches Some(p) && p == old(self).entries@[0]
                && final(self).entries@ == old(self).entries@.drop_first()),
    {
        if self.entries.len() == 0 {
            None
        } else {
            let p = self.entries.remove(0);
            proof {
                assert(self.entries@ =~= old(self).entries@.drop_first());
            }
            Some(p)
        }
    }
}

} // verus!
