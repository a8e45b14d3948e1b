//! The public surface of the bus: construction, `subscribe` and `publish`,
//! and the dispatcher's drain of one envelope.
//!
//! `publish` is fire-and-forget: it builds an envelope, attempts a
//! non-blocking enqueue, and discards the answer — the caller can never tell
//! a delivered envelope from a dropped one or from a failing callback. In a
//! concurrent embedding the registry and the channel each live under their
//! own synchronization and the dispatcher drains on a dedicated execution
//! context; a bus value composes the same parts for one thread, and its
//! contracts are the single-threaded face of that behavior. Construction
//! itself cannot fail; only the embedding's spawn of the dispatcher's
//! execution context can, and that failure is the embedding's to surface.

use vstd::prelude::*;

verus! {

use crate::channel::{DeliveryChannel, enqueue_spec};
use crate::payload::{Envelope, Payload};
use crate::registry::{SubscriptionTable, lookup_spec, subscribe_spec};

/// A bus: one subscription registry and one bounded delivery channel.
pub struct EventBus {
    registry: SubscriptionTable,
    channel: DeliveryChannel,
}

impl EventBus {
    /// The subscription table as a mathematical map.
    pub closed spec fn subs(&self) -> Map<Seq<char>, Seq<u64>> {
        self.registry@
    }

    /// The queued envelopes, oldest first.
    pub closed spec fn queue(&self) -> Seq<Envelope> {
        self.channel@
    }

    /// The channel's fixed capacity.
    pub closed spec fn cap(&self) -> nat {
        self.channel.cap()
    }

    /// Both parts are in shape.
    pub closed spec fn wf(&self) -> bool {
        self.registry.wf() && self.channel.wf()
    }

    /// A bus with no subscriptions, an empty channel of the given capacity,
    /// and its dispatcher about to wait for the first envelope.
    pub fn new(capacity: usize) -> (r: EventBus)
        requires
            1 <= capacity,
        ensures
            r.wf(),
            r.subs() == Map::<Seq<char>, Seq<u64>>::empty(),
            r.queue() == Seq::<Envelope>::empty(),
            r.cap() == capacity,
    {
        EventBus { registry: SubscriptionTable::new(), channel: DeliveryChannel::new(capacity) }
    }

    /// Subscribe `handle` to `event`: it is appended at the end of the
    /// event's callback list, after every earlier subscription. Always
    /// succeeds; the channel is untouched.
    pub fn subscribe(&mut self, event: String, handle: u64)
        requires
            old(self).wf(),
        ensures
            final(self).wf(),
            final(self).subs() == subscribe_spec(old(self).subs(), event@, handle),
            final(self).queue() == old(self).queue(),
            final(self).cap() == old(self).cap(),
    {
        self.registry.subscribe(event, handle);
    }

    /// Publish `payload` under `event`: an envelope is enqueued when the
    /// channel has room and silently dropped otherwise. The call never
    /// blocks, never fails and reports nothing — the registry is untouched,
    /// and no more than the capacity is ever queued.
    pub fn publish(&mut self, event: String, payload: Payload)
        requires
            old(self).wf(),
        ensures
            final(self).wf(),
            final(self).queue() == enqueue_spec(
                old(self).queue(),
                old(self).cap(),
                (Envelope { event: event, payload: payload }),
            ),
            final(self).queue().len() <= final(self).cap(),
            final(self).subs() == old(self).subs(),
            final(self).cap() == old(self).cap(),
    {
        let envelope = Envelope { event, payload };
        let _ = self.channel.enqueue(envelope);
    }

    /// One iteration of the dispatcher's drain, for a single-threaded
    /// embedding: remove the oldest envelope and return it with the snapshot
    /// of the handles subscribed to its event, in subscription order — the
    /// exact callbacks to invoke, each with the envelope's payload. `None`
    /// when the channel is empty (the concurrent driver suspends instead).
    pub fn dispatch_next(&mut self) -> (r: Option<(Vec<u64>, Envelope)>)
        requires
            old(self).wf(),
        ensures
            final(self).wf(),
            final(self).subs() == old(self).subs(),
            final(self).cap() == old(self).cap(),
            old(self).queue().len() == 0 ==> r is None && final(self).queue() == old(
                self,
            ).queue(),
            old(self).queue().len() > 0 ==> final(self).queue() == old(self).queue().drop_first()
                && (r matches Some(pr) && pr.0@ == lookup_spec(
                old(self).subs(),
                old(self).queue()[0].event@,
            ) && pr.1 == old(self).queue()[0]),
    {
        match self.channel.dequeue() {
            None => None,
            Some(envelope) => {
                let plan = self.registry.lookup(&envelope.event);
                Some((plan, envelope))
            },
        }
    }

    /// Number of envelopes currently queued.
    pub fn queue_len(&self) -> (n: usize)
        ensures
            n == self.queue().len(),
    {
        self.channel.len()
    }

    /// The channel's fixed capacity.
    pub fn capacity(&self) -> (c: usize)
        ensures
            c == self.cap(),
    {
        self.channel.capacity()
    }
}

} // verus!
