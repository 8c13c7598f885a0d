//! The job queue: a FIFO of messages shared by every worker.

use std::collections::VecDeque;
use vstd::prelude::*;

verus! {

/// What travels through the queue: a unit of work, or the order to stop.
pub enum Message<J> {
    NewJob(J),
    Terminate,
}

/// The answer of a receive on the consumer side.
pub enum Received<J> {
    /// The message at the front, now taken out of the queue.
    Message(Message<J>),
    /// Nothing is queued yet; the caller waits and asks again.
    Empty,
    /// The producer side is closed and nothing is left to drain.
    Closed,
}

/// A send after the producer side was closed.
#[derive(Debug, Clone, Copy, PartialEq, Eq, Structural)]
pub enum SendError {
    Closed,
}

/// An unbounded FIFO of messages with a producer side that can be closed.
pub struct JobQueue<J> {
    items: VecDeque<Message<J>>,
    open: bool,
}

impl<J> View for JobQueue<J> {
    type V = Seq<Message<J>>;

    closed spec fn view(&self) -> Seq<Message<J>> {
        self.items@
    }
}

impl<J> JobQueue<J> {
    /// Whether the producer side still takes messages.
    pub closed spec fn is_open(&self) -> bool {
        self.open
    }

    /// An empty queue, open for sending.
    pub fn new() -> (q: Self)
        ensures
            q@ == Seq::<Message<J>>::empty(),
            q.is_open(),
    {
        JobQueue { items: VecDeque::new(), open: true }
    }

    /// The number of messages waiting.
    pub fn len(&self) -> (n: usize)
        ensures
            n == self@.len(),
    {
        self.items.len()
    }

    /// Whether the producer side still takes messages.
    pub fn open(&self) -> (b: bool)
        ensures
            b == self.is_open(),
    {
        self.open
    }

    /// Appends `m` at the back; refused once the producer side is closed.
    pub fn send(&mut self, m: Message<J>) -> (r: Result<(), SendError>)
        ensures
            old(self).is_open() ==> r is Ok && final(self)@ == old(self)@.push(m)
                && final(self).is_open(),
            !old(self).is_open() ==> r == Err::<(), SendError>(SendError::Closed) && final(self)@
                == old(self)@ && !final(self).is_open(),
    {
        if self.open {
            self.items.push_back(m);
            Ok(())
        } else {
            Err(SendError::Closed)
        }
    }

    /// Takes the message at the front, if there is one.
    pub fn receive(&mut self) -> (r: Received<J>)
        ensures
            final(self).is_open() == old(self).is_open(),
            old(self)@.len() > 0 ==> r == Received::Message(old(self)@[0]) && final(self)@
                == old(self)@.drop_first(),
            old(self)@.len() == 0 && old(self).is_open() ==> r is Empty && final(self)@ == old(
                self,
            )@,
            old(self)@.len() == 0 && !old(self).is_open() ==> r is Closed && final(self)@
                == old(self)@,
    {
        match self.items.pop_front() {
            Some(m) => Received::Message(m),
            None => {
                if self.open {
                    Received::Empty
                } else {
                    Received::Closed
                }
            },
        }
    }

    /// Closes the producer side; what is queued stays to be drained.
    pub fn close(&mut self)
        ensures
            final(self)@ == old(self)@,
            !final(self).is_open(),
    {
        self.open = false;
    }
}

} // verus!
