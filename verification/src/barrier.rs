//! The synchronization barrier: one numbered round trip to the server.
//!
//! A worker asks its connection for a synchronization, which gives it a
//! sequence number, arms a [`Barrier`] with that number and then serves the
//! connection's events, handing every acknowledgement to
//! [`Barrier::on_done`], until [`Barrier::is_done`]. The server answers in
//! order, so everything that the worker sent on that connection before has
//! been acted on by then. Nothing follows for another connection.

use vstd::prelude::*;

verus! {

/// An acknowledgement as the server sends it.
#[derive(Clone, Copy, Debug, PartialEq, Eq, Structural)]
pub struct Ack {
    /// The object that acknowledges.
    pub id: u32,
    /// The sequence number that it acknowledges.
    pub seq: i32,
}

/// A barrier that waits for one acknowledgement.
#[derive(Clone, Copy, Debug, PartialEq, Eq, Structural)]
pub struct Barrier {
    /// The object whose acknowledgement counts: the server's core.
    pub core_id: u32,
    /// The sequence number that the synchronization request carries.
    pub pending: i32,
    /// Whether the acknowledgement has arrived.
    pub done: bool,
}

impl Barrier {
    /// Whether `ack` is the acknowledgement that this barrier waits for: it
    /// comes from the core and carries exactly the pending number.
    pub open spec fn completed_by(self, ack: Ack) -> bool {
        ack.id == self.core_id && ack.seq == self.pending
    }

    /// The barrier after one acknowledgement.
    pub open spec fn step(self, ack: Ack) -> Barrier {
        Barrier {
            core_id: self.core_id,
            pending: self.pending,
            done: self.done || self.completed_by(ack),
        }
    }

    /// The barrier after the first `n` of `acks`.
    pub open spec fn run(self, acks: Seq<Ack>, n: int) -> Barrier
        decreases n,
    {
        if n <= 0 {
            self
        } else {
            self.run(acks, n - 1).step(acks[n - 1])
        }
    }

    /// A barrier armed for the sequence number `pending` of a synchronization
    /// sent to the object `core_id`.
    pub fn new(core_id: u32, pending: i32) -> (b: Self)
        ensures
            b == (Barrier { core_id, pending, done: false }),
    {
        Barrier { core_id, pending, done: false }
    }

    /// Takes note of the acknowledgement `(id, seq)`.
    pub fn on_done(&mut self, id: u32, seq: i32)
        ensures
            *final(self) == old(self).step(Ack { id, seq }),
    {
        if id == self.core_id && seq == self.pending {
            self.done = true;
        }
    }

    /// Whether the worker may stop serving events and go on.
    pub fn is_done(&self) -> (done: bool)
        ensures
            done == self.done,
    {
        self.done
    }
}

/// A barrier is done after some acknowledgements exactly if it was done
/// before or one of them is the one that it waits for. What it waits for
/// never changes.
pub proof fn law_barrier_waits_for_its_ack(b: Barrier, acks: Seq<Ack>, n: int)
    requires
        0 <= n <= acks.len(),
    ensures
        b.run(acks, n).core_id == b.core_id,
        b.run(acks, n).pending == b.pending,
        b.run(acks, n).done <==> b.done || exists|i: int|
            0 <= i < n && b.completed_by(#[trigger] acks[i]),
    decreases n,
{
    if n > 0 {
        law_barrier_waits_for_its_ack(b, acks, n - 1);
    }
}

} // verus!
