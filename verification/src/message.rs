//! The message log: a bounded record of the most recent events.

use vstd::prelude::*;

verus! {

/// The log after `text` was appended to `log`, which holds at most
/// `capacity` messages: the oldest one leaves when there is no room.
pub open spec fn spec_log_add(log: Seq<Seq<char>>, text: Seq<char>, capacity: int) -> Seq<
    Seq<char>,
> {
    if capacity <= 0 {
        log
    } else if log.len() < capacity {
        log.push(text)
    } else {
        log.subrange(1, log.len() as int).push(text)
    }
}

/// The most recent messages, oldest first.
pub struct Messages {
    pub capacity: usize,
    pub entries: Vec<String>,
}

impl Messages {
    /// The log holds no more messages than its capacity.
    pub open spec fn wf(&self) -> bool {
        self.entries.len() <= self.capacity
    }

    /// The texts of the messages, oldest first.
    pub open spec fn view(&self) -> Seq<Seq<char>> {
        Seq::new(self.entries.len() as nat, |i: int| self.entries[i]@)
    }

    /// An empty log that keeps the `capacity` most recent messages.
    pub fn new(capacity: usize) -> (m: Messages)
        ensures
            m.wf(),
            m.capacity == capacity,
            m@ == Seq::<Seq<char>>::empty(),
    {
        let m = Messages { capacity, entries: Vec::new() };
        m
    }

    /// Appends a message; the oldest one leaves when the log is full.
    pub fn add(&mut self, text: String)
        requires
            old(self).wf(),
        ensures
            final(self).wf(),
            final(self).capacity == old(self).capacity,
            final(self)@ == spec_log_add(old(self)@, text@, old(self).capacity as int),
    {
        if self.capacity == 0 {
            return ;
        }
        if self.entries.len() == self.capacity {
            self.entries.remove(0);
        }
        self.entries.push(text);
    }

    /// The number of messages in the log.
    pub fn len(&self) -> (n: usize)
        ensures
            n == self@.len(),
    {
        self.entries.len()
    }

    /// The `k`-th most recent message, `0` being the newest.
    pub fn recent(&self, k: usize) -> (text: Option<String>)
        ensures
            k < self@.len() ==> text.is_some() && text.unwrap()@ == self@[self@.len() - 1 - k],
            k >= self@.len() ==> text.is_none(),
    {
        let n: usize = self.entries.len();
        if k < n {
            Some(self.entries[n - 1 - k].clone())
        } else {
            None
        }
    }
}

} // verus!
