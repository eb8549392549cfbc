//! The bounded queue between the producers of frames and the poll loop.

use std::collections::VecDeque;
use vstd::prelude::*;

verus! {

/// Number of frames the send queue of a connection holds at most.
pub const SEND_CHANNEL_CAP: usize = 10;

/// The frames of a queue as plain byte strings, oldest first.
spec fn frames_of(items: Seq<Vec<u8>>) -> Seq<Seq<u8>> {
    Seq::new(items.len(), |i: int| items[i]@)
}

/// A first-in, first-out queue of frames that never grows past its capacity.
pub struct SendQueue {
    items: VecDeque<Vec<u8>>,
    capacity: usize,
}

impl View for SendQueue {
    type V = Seq<Seq<u8>>;

    closed spec fn view(&self) -> Seq<Seq<u8>> {
        frames_of(self.items@)
    }
}

impl SendQueue {
    #[verifier::type_invariant]
    spec fn bounded(self) -> bool {
        self.items@.len() <= self.capacity
    }

    /// The most frames the queue holds.
    pub closed spec fn spec_capacity(&self) -> nat {
        self.capacity as nat
    }

    /// An empty queue for at most `capacity` frames.
    pub fn new(capacity: usize) -> (q: SendQueue)
        ensures
            q@ == Seq::<Seq<u8>>::empty(),
            q.spec_capacity() == capacity,
    {
        let q = SendQueue { items: VecDeque::new(), capacity };
        assert(q@ =~= Seq::<Seq<u8>>::empty());
        q
    }

    /// The most frames the queue holds.
    pub fn capacity(&self) -> (c: usize)
        ensures
            c == self.spec_capacity(),
    {
        self.capacity
    }

    /// Number of frames waiting. It never exceeds the capacity.
    pub fn len(&self) -> (n: usize)
        ensures
            n == self@.len(),
            n <= self.spec_capacity(),
    {
        proof {
            use_type_invariant(self);
        }
        self.items.len()
    }

    /// True when the queue takes no more frames.
    pub fn is_full(&self) -> (b: bool)
        ensures
            b == (self@.len() >= self.spec_capacity()),
            self@.len() <= self.spec_capacity(),
    {
        proof {
            use_type_invariant(self);
        }
        self.items.len() >= self.capacity
    }

    /// Puts `frame` at the end unless the queue is full; never waits. A
    /// refused frame comes back to the caller.
    pub fn try_send(&mut self, frame: Vec<u8>) -> (r: Result<(), Vec<u8>>)
        ensures
            final(self).spec_capacity() == old(self).spec_capacity(),
            old(self)@.len() < old(self).spec_capacity() ==> r is Ok && final(self)@ == old(
                self,
            )@.push(frame@),
            old(self)@.len() >= old(self).spec_capacity() ==> r == Err::<(), Vec<u8>>(frame)
                && final(self)@ == old(self)@,
    {
        proof {
            use_type_invariant(&*self);
        }
        if self.items.len() >= self.capacity {
            return Err(frame);
        }
        let ghost before = self.items@;
        let mut items: VecDeque<Vec<u8>> = VecDeque::new();
        std::mem::swap(&mut items, &mut self.items);
        items.push_back(frame);
        self.items = items;
        assert(frames_of(before.push(frame)) =~= frames_of(before).push(frame@));
        Ok(())
    }

    /// Takes the oldest frame, if there is one; never waits.
    pub fn try_recv(&mut self) -> (r: Option<Vec<u8>>)
        ensures
            final(self).spec_capacity() == old(self).spec_capacity(),
            old(self)@.len() == 0 ==> r is None && final(self)@ == old(self)@,
            old(self)@.len() > 0 ==> r is Some && r->Some_0@ == old(self)@[0] && final(self)@
                == old(self)@.subrange(1, old(self)@.len() as int),
    {
        proof {
            use_type_invariant(&*self);
        }
        let ghost before = self.items@;
        let mut items: VecDeque<Vec<u8>> = VecDeque::new();
        std::mem::swap(&mut items, &mut self.items);
        let r = items.pop_front();
        self.items = items;
        proof {
            if before.len() > 0 {
                assert(frames_of(before.subrange(1, before.len() as int)) =~= frames_of(
                    before,
                ).subrange(1, before.len() as int));
            }
        }
        r
    }
}

} // verus!
