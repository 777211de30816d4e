use vstd::prelude::*;

use crate::error::Error;
use crate::message::Request;

verus! {

/// Bound on outstanding requests, as the client facade uses it.
pub const QUEUE_CAPACITY: usize = 100;

/// A bounded, ordered queue carrying outgoing requests from the facade
/// to the service loop. Requests leave in the order they entered; a
/// closed queue accepts nothing further but still drains what it holds.
pub struct RequestQueue {
    pub items: Vec<Request>,
    pub capacity: usize,
    pub closed: bool,
}

impl RequestQueue {
    /// A queue that accepts up to `capacity` outstanding requests.
    pub fn new(capacity: usize) -> (q: RequestQueue)
        ensures
            q.items@ == Seq::<Request>::empty(),
            q.capacity == capacity,
            !q.closed,
    {
        RequestQueue { items: Vec::new(), capacity, closed: false }
    }

    /// Append a request at the back. Fails with `SendError` when the
    /// queue is closed or already at capacity; a caller that would
    /// rather wait than fail retries once space frees.
    pub fn submit(&mut self, r: Request) -> (res: Result<(), Error>)
        ensures
            final(self).capacity == old(self).capacity,
            final(self).closed == old(self).closed,
            old(self).closed ==> (res matches Err(Error::SendError)
                && final(self).items@ == old(self).items@),
            !old(self).closed && old(self).items@.len() < old(self).capacity ==> (res matches Ok(())
                && final(self).items@ == old(self).items@.push(r)),
            !old(self).closed && old(self).items@.len() >= old(self).capacity ==> (res matches Err(
                Error::SendError) && final(self).items@ == old(self).items@),
    {
        if self.closed {
            Err(Error::SendError)
        } else if self.items.len() < self.capacity {
            self.items.push(r);
            Ok(())
        } else {
            Err(Error::SendError)
        }
    }

    /// Remove and return the oldest queued request.
    pub fn pop(&mut self) -> (res: Option<Request>)
        ensures
            final(self).capacity == old(self).capacity,
            final(self).closed == old(self).closed,
            old(self).items@.len() == 0 ==> (res is None && final(self).items@ == old(self).items@),
            old(self).items@.len() > 0 ==> (res matches Some(r) && r == old(self).items@[0]
                && final(self).items@ == old(self).items@.drop_first()),
    {
        if self.items.len() == 0 {
            None
        } else {
            let r = self.items.remove(0);
            assert(self.items@ =~= old(self).items@.drop_first());
            Some(r)
        }
    }

    /// Close the queue: future submits fail, what it holds still drains.
    pub fn close(&mut self)
        ensures
            final(self).closed,
            final(self).items@ == old(self).items@,
            final(self).capacity == old(self).capacity,
    {
        self.closed = true;
    }

    /// How many requests are queued.
    pub fn len(&self) -> (n: usize)
        ensures
            n == self.items@.len(),
    {
        self.items.len()
    }

    /// Whether the queue is at capacity.
    pub fn is_full(&self) -> (r: bool)
        ensures
            r == (self.items@.len() >= self.capacity),
    {
        self.items.len() >= self.capacity
    }

    /// Whether the queue was closed.
    pub fn is_closed(&self) -> (r: bool)
        ensures
            r == self.closed,
    {
        self.closed
    }
}

} // verus!
