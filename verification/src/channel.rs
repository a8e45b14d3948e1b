//! The delivery channel: a bounded FIFO queue of envelopes with a
//! drop-on-full backpressure policy.
//!
//! Producers never block and are never told about drops; the single consumer
//! (the dispatcher) drains the queue in strict arrival order.

use vstd::prelude::*;

verus! {

use std::collections::VecDeque;
use crate::payload::Envelope;

/// Whether one non-blocking enqueue on a queue holding `q` succeeds at
/// capacity `cap`.
pub open spec fn enqueue_accepted(q: Seq<Envelope>, cap: nat) -> bool {
    q.len() < cap
}

/// The queue after one non-blocking enqueue: the envelope is appended when
/// there is room and dropped otherwise.
pub open spec fn enqueue_spec(q: Seq<Envelope>, cap: nat, env: Envelope) -> Seq<Envelope> {
    if q.len() < cap {
        q.push(env)
    } else {
        q
    }
}

/// The queue after the envelopes of `envs` are enqueued one by one, in order,
/// with no interleaved drain.
pub open spec fn enqueue_all_spec(q: Seq<Envelope>, cap: nat, envs: Seq<Envelope>) -> Seq<Envelope>
    decreases envs.len(),
{
    if envs.len() == 0 {
        q
    } else {
        enqueue_all_spec(enqueue_spec(q, cap, envs[0]), cap, envs.drop_first())
    }
}

/// A burst of enqueues fills the free room in arrival order and drops the
/// rest: the first `cap - q.len()` envelopes are appended, the excess is
/// discarded.
pub proof fn lemma_burst_fills_free_room(q: Seq<Envelope>, cap: nat, envs: Seq<Envelope>)
    requires
        q.len() <= cap,
    ensures
        enqueue_all_spec(q, cap, envs) == q + envs.take(if cap - q.len() <= envs.len() {
            cap - q.len()
        } else {
            envs.len() as int
        }),
    decreases envs.len(),
{
    let room: int = if cap - q.len() <= envs.len() { cap - q.len() } else { envs.len() as int };
    if envs.len() == 0 {
        assert(enqueue_all_spec(q, cap, envs) =~= q + envs.take(room));
    } else if q.len() < cap {
        let q2 = q.push(envs[0]);
        let rest = envs.drop_first();
        lemma_burst_fills_free_room(q2, cap, rest);
        let room2: int = if cap - q2.len() <= rest.len() { cap - q2.len() } else {
            rest.len() as int
        };
        assert(q2 + rest.take(room2) =~= q + envs.take(room));
    } else {
        let rest = envs.drop_first();
        lemma_burst_fills_free_room(q, cap, rest);
        assert(q + rest.take(0) =~= q + envs.take(0));
    }
}

/// No burst of publishes ever grows the queue past its capacity.
pub proof fn lemma_capacity_never_exceeded(q: Seq<Envelope>, cap: nat, envs: Seq<Envelope>)
    requires
        q.len() <= cap,
    ensures
        enqueue_all_spec(q, cap, envs).len() <= cap,
{
    lemma_burst_fills_free_room(q, cap, envs);
}

/// As long as the channel never saturates, enqueues keep the publish order
/// exactly: the queue afterwards is the old queue followed by every envelope,
/// in order; nothing is dropped or reordered. Together with the strict FIFO
/// `dequeue`, envelopes are then dispatched in exactly the publish order.
pub proof fn lemma_unsaturated_keeps_publish_order(q: Seq<Envelope>, cap: nat, envs: Seq<Envelope>)
    requires
        q.len() + envs.len() <= cap,
    ensures
        enqueue_all_spec(q, cap, envs) == q + envs,
{
    lemma_burst_fills_free_room(q, cap, envs);
    assert(envs.take(envs.len() as int) =~= envs);
}

/// Publishing `cap + k` envelopes into an empty, undrained channel keeps the
/// first `cap` in order and drops exactly the excess.
pub proof fn lemma_saturation_drops_exactly_the_excess(cap: nat, envs: Seq<Envelope>)
    requires
        envs.len() >= cap,
    ensures
        enqueue_all_spec(Seq::<Envelope>::empty(), cap, envs) == envs.take(cap as int),
{
    lemma_burst_fills_free_room(Seq::<Envelope>::empty(), cap, envs);
    assert(Seq::<Envelope>::empty() + envs.take(cap as int) =~= envs.take(cap as int));
}

/// Bounded multiple-producer / single-consumer FIFO queue of envelopes.
///
/// `enqueue` is non-blocking and drops on a full queue; `dequeue` yields the
/// oldest envelope. The concurrent embedding wraps one value of this type in
/// its own synchronization, independent of the registry lock.
pub struct DeliveryChannel {
    queue: VecDeque<Envelope>,
    capacity: usize,
}

impl View for DeliveryChannel {
    type V = Seq<Envelope>;

    /// The queued envelopes, oldest first.
    closed spec fn view(&self) -> Seq<Envelope> {
        self.queue@
    }
}

impl DeliveryChannel {
    /// The fixed capacity the channel was created with.
    pub closed spec fn cap(&self) -> nat {
        self.capacity as nat
    }

    /// The channel never holds more than `cap()` envelopes.
    pub open spec fn wf(&self) -> bool {
        1 <= self.cap() && self@.len() <= self.cap()
    }

    /// An empty channel of the given capacity.
    pub fn new(capacity: usize) -> (r: DeliveryChannel)
        requires
            1 <= capacity,
        ensures
            r.wf(),
            r@ == Seq::<Envelope>::empty(),
            r.cap() == capacity,
    {
        DeliveryChannel { queue: VecDeque::new(), capacity }
    }

    /// Non-blocking enqueue: appends the envelope when there is room and
    /// drops it otherwise, reporting which of the two happened. It never
    /// blocks and never fails.
    pub fn enqueue(&mut self, env: Envelope) -> (accepted: bool)
        requires
            old(self).wf(),
        ensures
            final(self).wf(),
            final(self).cap() == old(self).cap(),
            accepted == enqueue_accepted(old(self)@, old(self).cap()),
            final(self)@ == enqueue_spec(old(self)@, old(self).cap(), env),
    {
        if self.queue.len() < self.capacity {
            self.queue.push_back(env);
            true
        } else {
            false
        }
    }

    /// Remove and return the oldest envelope, or `None` on an empty channel.
    /// The concurrent embedding turns `None` into "suspend until an envelope
    /// arrives"; the order is strict FIFO.
    pub fn dequeue(&mut self) -> (r: Option<Envelope>)
        requires
            old(self).wf(),
        ensures
            final(self).wf(),
            final(self).cap() == old(self).cap(),
            old(self)@.len() == 0 ==> r is None && final(self)@ == old(self)@,
            old(self)@.len() > 0 ==> r == Some(old(self)@[0]) && final(self)@ == old(self)@.drop_first(),
    {
        self.queue.pop_front()
    }

    /// Number of envelopes currently queued.
    pub fn len(&self) -> (n: usize)
        ensures
            n == self@.len(),
    {
        self.queue.len()
    }

    /// The fixed capacity.
    pub fn capacity(&self) -> (c: usize)
        ensures
            c == self.cap(),
    {
        self.capacity
    }
}

} // verus!
