//! The pause/resume control of the outbound path.
//!
//! While paused, outgoing datagrams are queued first-in first-out instead of
//! sent; resuming hands the queue back in order. The queue is bounded: a
//! datagram submitted to a full queue is refused as an overrun rather than
//! grow the queue without limit.

use vstd::prelude::*;

verus! {

/// What became of a submitted datagram.
pub enum SubmitOutcome {
    /// Not paused: send this datagram now.
    SendNow(Vec<u8>),
    /// Paused: the datagram waits in the queue.
    Queued,
    /// Paused and the queue is full: the datagram is refused.
    Overrun,
}

/// The outbound datagram queue of one socket.
pub struct OutboundQueue {
    paused: bool,
    queue: Vec<Vec<u8>>,
    capacity: usize,
}

impl OutboundQueue {
    /// Whether the outbound path is paused.
    pub closed spec fn is_paused(&self) -> bool {
        self.paused
    }

    /// The queued datagrams, oldest first.
    pub closed spec fn pending(&self) -> Seq<Seq<u8>> {
        self.queue.deep_view()
    }

    /// How many datagrams the queue may hold.
    pub closed spec fn cap(&self) -> nat {
        self.capacity as nat
    }

    /// A fresh, unpaused queue with the given bound.
    pub fn new(capacity: usize) -> (r: Self)
        ensures
            !r.is_paused(),
            r.pending() == Seq::<Seq<u8>>::empty(),
            r.cap() == capacity,
    {
        let r = OutboundQueue { paused: false, queue: Vec::new(), capacity };
        proof {
            assert(r.pending() =~= Seq::<Seq<u8>>::empty());
        }
        r
    }

    /// Queue outgoing datagrams from now on; what is already queued stays.
    pub fn pause(&mut self)
        ensures
            final(self).is_paused(),
            final(self).pending() == old(self).pending(),
            final(self).cap() == old(self).cap(),
    {
        self.paused = true;
    }

    /// Submits one outgoing datagram: sent at once when not paused, queued
    /// in arrival order while paused, refused when the queue is full.
    pub fn submit(&mut self, frame: Vec<u8>) -> (r: SubmitOutcome)
        ensures
            final(self).is_paused() == old(self).is_paused(),
            final(self).cap() == old(self).cap(),
            !old(self).is_paused() ==> (r matches SubmitOutcome::SendNow(f) && f@ == frame@)
                && final(self).pending() == old(self).pending(),
            old(self).is_paused() && old(self).pending().len() < old(self).cap() ==> (r
                matches SubmitOutcome::Queued && final(self).pending() == old(
                self,
            ).pending().push(frame@)),
            old(self).is_paused() && old(self).pending().len() >= old(self).cap() ==> (r
                matches SubmitOutcome::Overrun && final(self).pending() == old(self).pending()),
    {
        if !self.paused {
            return SubmitOutcome::SendNow(frame);
        }
        if self.queue.len() < self.capacity {
            self.queue.push(frame);
            proof {
                assert(frame.deep_view() =~= frame@);
                assert(self.queue.deep_view() =~= old(self).pending().push(frame@));
            }
            SubmitOutcome::Queued
        } else {
            SubmitOutcome::Overrun
        }
    }

    /// Resumes sending: the queue empties, and every waiting datagram comes
    /// back in the order it was submitted.
    pub fn resume(&mut self) -> (r: Vec<Vec<u8>>)
        ensures
            !final(self).is_paused(),
            final(self).pending() == Seq::<Seq<u8>>::empty(),
            final(self).cap() == old(self).cap(),
            r.deep_view() == old(self).pending(),
    {
        self.paused = false;
        let mut drained: Vec<Vec<u8>> = Vec::new();
        core::mem::swap(&mut drained, &mut self.queue);
        proof {
            assert(self.pending() =~= Seq::<Seq<u8>>::empty());
        }
        drained
    }
}

} // verus!
