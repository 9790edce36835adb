//! The progress channel: a bounded FIFO conduit from the download task to
//! the observing event loop. Sending is best-effort — a full channel drops
//! the newest event rather than stalling the producer, which is safe because
//! only the latest sample matters.

use vstd::prelude::*;
use crate::progress::ProgressEvent;

verus! {

/// The capacity a download engine gives its progress channel.
pub const CHANNEL_CAPACITY: usize = 100;

/// A single-producer, single-consumer queue of progress events with a fixed
/// capacity. Its view is the pending events, oldest first.
pub struct ProgressChannel {
    events: Vec<ProgressEvent>,
    capacity: usize,
}

impl View for ProgressChannel {
    type V = Seq<ProgressEvent>;

    closed spec fn view(&self) -> Seq<ProgressEvent> {
        self.events@
    }
}

impl ProgressChannel {
    /// The fixed capacity.
    pub closed spec fn cap(&self) -> usize {
        self.capacity
    }

    /// An empty channel of the given capacity.
    pub fn new(capacity: usize) -> (r: Self)
        requires
            capacity >= 1,
        ensures
            r@ == Seq::<ProgressEvent>::empty(),
            r.cap() == capacity,
    {
        ProgressChannel { events: Vec::new(), capacity }
    }

    /// How many events are pending.
    pub fn len(&self) -> (r: usize)
        ensures
            r == self@.len(),
    {
        self.events.len()
    }

    /// Non-blocking send: appends the event when there is room and reports
    /// whether it did; a full channel stays as it is and the event is
    /// dropped.
    pub fn try_send(&mut self, e: ProgressEvent) -> (accepted: bool)
        ensures
            final(self).cap() == old(self).cap(),
            accepted == (old(self)@.len() < old(self).cap()),
            accepted ==> final(self)@ == old(self)@.push(e),
            !accepted ==> final(self)@ == old(self)@,
    {
        if self.events.len() < self.capacity {
            self.events.push(e);
            true
        } else {
            false
        }
    }

    /// Receives the oldest pending event, if any: delivery is first in,
    /// first out.
    pub fn recv(&mut self) -> (r: Option<ProgressEvent>)
        ensures
            final(self).cap() == old(self).cap(),
            match r {
                Some(e) => old(self)@.len() > 0 && e == old(self)@[0] && final(self)@ == old(
                    self,
                )@.drop_first(),
                None => old(self)@.len() == 0 && final(self)@ == old(self)@,
            },
    {
        if self.events.len() > 0 {
            let e = self.events.remove(0);
            proof {
                assert(old(self)@.remove(0) =~= old(self)@.drop_first());
            }
            Some(e)
        } else {
            None
        }
    }
}

} // verus!
