//! Bounded trigger mailbox.
//!
//! Activation triggers travel from the external-call handler to the
//! controller's consuming loop through a bounded first-in-first-out
//! mailbox.  A full mailbox refuses further triggers: a burst of external
//! calls while the controller is busy queues briefly, is never dropped
//! silently, and never grows unbounded.  This module holds the verified
//! queueing policy; the surrounding application pairs it with whatever
//! wake-up transport its event loop needs.

use crate::controller::DbusEvent;
use vstd::prelude::*;

verus! {

/// How many pending client requests the mailbox holds at most.
pub const CLIENT_REQUEST_CAP: usize = 20;

/// Backpressure signal: the mailbox is full, the trigger was not taken.
#[derive(Clone, Copy, PartialEq, Eq, Structural, Debug)]
pub struct ChannelFull;

/// A bounded first-in-first-out mailbox of trigger events.
pub struct TriggerChannel {
    queue: Vec<DbusEvent>,
    capacity: usize,
}

impl View for TriggerChannel {
    type V = Seq<DbusEvent>;

    /// Abstractly, the mailbox is the queue of pending events, the
    /// longest-waiting one first.
    closed spec fn view(&self) -> Seq<DbusEvent> {
        self.queue@
    }
}

impl TriggerChannel {
    /// How many events the mailbox accepts before refusing more.
    pub closed spec fn cap(&self) -> usize {
        self.capacity
    }

    /// The queue never exceeds its capacity.
    pub closed spec fn wf(&self) -> bool {
        self.queue@.len() <= self.capacity
    }

    /// An empty mailbox for up to `capacity` pending events.
    pub fn new(capacity: usize) -> (channel: Self)
        requires
            capacity > 0,
        ensures
            channel.wf(),
            channel@ == Seq::<DbusEvent>::empty(),
            channel.cap() == capacity,
    {
        Self { queue: Vec::new(), capacity }
    }

    /// How many events are pending.
    pub fn len(&self) -> (n: usize)
        ensures
            n == self@.len(),
    {
        self.queue.len()
    }

    /// Whether no event is pending.
    pub fn is_empty(&self) -> (empty: bool)
        ensures
            empty == (self@.len() == 0),
    {
        self.queue.is_empty()
    }

    /// Queue one event at the back, unless the mailbox is full: then the
    /// event is refused and the caller sees the backpressure.
    pub fn try_send(&mut self, event: DbusEvent) -> (sent: Result<(), ChannelFull>)
        requires
            old(self).wf(),
        ensures
            final(self).wf(),
            final(self).cap() == old(self).cap(),
            old(self)@.len() < old(self).cap() ==> sent is Ok && final(self)@ == old(self)@.push(
                event,
            ),
            old(self)@.len() >= old(self).cap() ==> sent is Err && final(self)@ == old(self)@,
    {
        if self.queue.len() < self.capacity {
            self.queue.push(event);
            Ok(())
        } else {
            Err(ChannelFull)
        }
    }

    /// Take the longest-waiting event, if any: events leave in the order
    /// they were queued.
    pub fn try_recv(&mut self) -> (received: Option<DbusEvent>)
        requires
            old(self).wf(),
        ensures
            final(self).wf(),
            final(self).cap() == old(self).cap(),
            old(self)@.len() == 0 ==> received is None && final(self)@ == old(self)@,
            old(self)@.len() > 0 ==> received == Some(old(self)@[0]) && final(self)@ == old(
                self,
            )@.drop_first(),
    {
        if self.queue.len() > 0 {
            let event = self.queue.remove(0);
            proof {
                assert(self.queue@ =~= old(self)@.drop_first());
            }
            Some(event)
        } else {
            None
        }
    }
}

} // verus!
