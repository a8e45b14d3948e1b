//! The dispatcher: the single perpetual consumer of the delivery channel.
//!
//! Exactly one dispatcher runs for the bus's whole lifetime. Each iteration
//! it blocks until the channel yields the next envelope, takes a snapshot of
//! the subscriber list for the envelope's event, and invokes each callback
//! sequentially, in subscription order, on its own execution context — never
//! two callbacks concurrently, never two envelopes interleaved. A callback
//! that signals an error is contained: the error is discarded and the next
//! callback still runs ("swallow-all", a deliberate choice of bus liveness
//! over error visibility).
//!
//! The machine below is the decision core of that loop. The driver around it
//! performs the actions (await an envelope, invoke a callback through the
//! embedding) and reports each completed invocation back as an event.

use vstd::prelude::*;

verus! {

use crate::payload::{Envelope, Payload};
use crate::registry::{SubscriptionTable, lookup_spec};

/// How one callback invocation ended, as reported by the driver. The machine
/// treats both the same: a failure is swallowed, never propagated.
#[derive(Debug, Clone, Copy, PartialEq, Eq, Structural)]
pub enum CallbackOutcome {
    Completed,
    Failed,
}

/// The envelope the dispatcher is currently delivering: the snapshot of the
/// subscribed handles taken at lookup time, the position of the next handle
/// to invoke, and the payload handed unmodified to every one of them.
pub struct DispatchJob {
    pub payload: Payload,
    pub pending: Vec<u64>,
    pub next: usize,
}

/// The dispatcher's state: waiting on the channel, delivering one envelope,
/// or stopped for good at bus teardown.
pub enum DispatcherState {
    Idle,
    Dispatching(DispatchJob),
    Stopped,
}

/// What the driver feeds the machine: the next envelope (only requested while
/// idle), the outcome of the invocation it just performed, or teardown.
pub enum DispatcherEvent {
    EnvelopeReady(Envelope),
    InvocationDone(CallbackOutcome),
    StopRequested,
}

/// What the driver must do next: block on the channel for the next envelope,
/// invoke the callback with this handle, or leave the loop for good.
#[derive(Debug, Clone, Copy, PartialEq, Eq, Structural)]
pub enum DispatcherAction {
    AwaitEnvelope,
    Invoke(u64),
    HaltLoop,
}

/// The dispatcher's state as mathematics.
pub enum DispatcherStateView {
    Idle,
    Dispatching { payload: Payload, pending: Seq<u64>, next: int },
    Stopped,
}

impl View for DispatcherState {
    type V = DispatcherStateView;

    open spec fn view(&self) -> DispatcherStateView {
        match self {
            DispatcherState::Idle => DispatcherStateView::Idle,
            DispatcherState::Dispatching(job) => DispatcherStateView::Dispatching {
                payload: job.payload,
                pending: job.pending@,
                next: job.next as int,
            },
            DispatcherState::Stopped => DispatcherStateView::Stopped,
        }
    }
}

/// The position of the next handle to invoke never runs past the plan.
pub open spec fn state_wf(s: DispatcherStateView) -> bool {
    match s {
        DispatcherStateView::Dispatching { pending, next, .. } => 0 <= next <= pending.len(),
        _ => true,
    }
}

/// The handles the machine has still to invoke, in order.
pub open spec fn planned(s: DispatcherStateView) -> Seq<u64> {
    match s {
        DispatcherStateView::Dispatching { pending, next, .. } => if 0 <= next <= pending.len() {
            pending.skip(next)
        } else {
            Seq::empty()
        },
        _ => Seq::empty(),
    }
}

/// One transition of the dispatch loop. Teardown wins from every state; a
/// fresh envelope with no subscribers is a no-op; otherwise the envelope's
/// snapshot is walked one handle per reported outcome, whatever each outcome
/// was. An event that does not fit the state (an envelope while delivering,
/// an outcome while idle) is ignored: the driver requests an envelope only
/// while idle and reports an outcome only while delivering.
pub open spec fn step_spec(
    s: DispatcherStateView,
    event: DispatcherEvent,
    table: Map<Seq<char>, Seq<u64>>,
) -> (DispatcherStateView, DispatcherAction) {
    match (s, event) {
        (_, DispatcherEvent::StopRequested) => (
            DispatcherStateView::Stopped,
            DispatcherAction::HaltLoop,
        ),
        (DispatcherStateView::Stopped, _) => (
            DispatcherStateView::Stopped,
            DispatcherAction::HaltLoop,
        ),
        (DispatcherStateView::Idle, DispatcherEvent::EnvelopeReady(env)) => {
            let plan = lookup_spec(table, env.event@);
            if plan.len() == 0 {
                (DispatcherStateView::Idle, DispatcherAction::AwaitEnvelope)
            } else {
                (
                    DispatcherStateView::Dispatching {
                        payload: env.payload,
                        pending: plan,
                        next: 1,
                    },
                    DispatcherAction::Invoke(plan[0]),
                )
            }
        },
        (
            DispatcherStateView::Dispatching { payload, pending, next },
            DispatcherEvent::InvocationDone(_),
        ) => {
            if next < pending.len() {
                (
                    DispatcherStateView::Dispatching { payload, pending, next: next + 1 },
                    DispatcherAction::Invoke(pending[next]),
                )
            } else {
                (DispatcherStateView::Idle, DispatcherAction::AwaitEnvelope)
            }
        },
        (DispatcherStateView::Idle, DispatcherEvent::InvocationDone(_)) => (
            DispatcherStateView::Idle,
            DispatcherAction::AwaitEnvelope,
        ),
        (DispatcherStateView::Dispatching { payload, pending, next }, _) => (
            DispatcherStateView::Dispatching { payload, pending, next },
            DispatcherAction::AwaitEnvelope,
        ),
    }
}

impl DispatcherState {
    /// A dispatcher about to wait for its first envelope.
    pub fn new() -> (r: DispatcherState)
        ensures
            r@ == DispatcherStateView::Idle,
    {
        DispatcherState::Idle
    }

    /// Advance the loop by one event; the returned action tells the driver
    /// what to do before the next call. The transition is total and never
    /// fails: in particular a callback failure reported in the event leaves
    /// the loop running exactly as a success would.
    pub fn step(self, event: DispatcherEvent, table: &SubscriptionTable) -> (r: (
        DispatcherState,
        DispatcherAction,
    ))
        requires
            table.wf(),
        ensures
            r.0@ == step_spec(self@, event, table@).0,
            r.1 == step_spec(self@, event, table@).1,
            state_wf(self@) ==> state_wf(r.0@),
    {
        match (self, event) {
            (_, DispatcherEvent::StopRequested) => (
                DispatcherState::Stopped,
                DispatcherAction::HaltLoop,
            ),
            (DispatcherState::Stopped, _) => (DispatcherState::Stopped, DispatcherAction::HaltLoop),
            (DispatcherState::Idle, DispatcherEvent::EnvelopeReady(env)) => {
                let plan = table.lookup(&env.event);
                if plan.len() == 0 {
                    (DispatcherState::Idle, DispatcherAction::AwaitEnvelope)
                } else {
                    let first = plan[0];
                    (
                        DispatcherState::Dispatching(
                            DispatchJob { payload: env.payload, pending: plan, next: 1 },
                        ),
                        DispatcherAction::Invoke(first),
                    )
                }
            },
            (DispatcherState::Dispatching(job), DispatcherEvent::InvocationDone(_)) => {
                if job.next < job.pending.len() {
                    let handle = job.pending[job.next];
                    (
                        DispatcherState::Dispatching(
                            DispatchJob {
                                payload: job.payload,
                                pending: job.pending,
                                next: job.next + 1,
                            },
                        ),
                        DispatcherAction::Invoke(handle),
                    )
                } else {
                    (DispatcherState::Idle, DispatcherAction::AwaitEnvelope)
                }
            },
            (DispatcherState::Idle, DispatcherEvent::InvocationDone(_)) => (
                DispatcherState::Idle,
                DispatcherAction::AwaitEnvelope,
            ),
            (DispatcherState::Dispatching(job), _) => (
                DispatcherState::Dispatching(job),
                DispatcherAction::AwaitEnvelope,
            ),
        }
    }

    /// The payload of the envelope being delivered, shared by every callback
    /// of that envelope; `None` while no envelope is in flight.
    pub fn active_payload(&self) -> (r: Option<&Payload>)
        ensures
            match self@ {
                DispatcherStateView::Dispatching { payload, .. } => r == Some(&payload),
                _ => r is None,
            },
    {
        match self {
            DispatcherState::Dispatching(job) => Some(&job.payload),
            _ => None,
        }
    }
}

/// A failing callback never harms the rest of the dispatch: the machine
/// moves on to the same next state and the same next invocation whether the
/// driver reports a failure or a success, so the loop continues either way.
pub proof fn lemma_callback_failure_is_contained(
    s: DispatcherStateView,
    table: Map<Seq<char>, Seq<u64>>,
    o1: CallbackOutcome,
    o2: CallbackOutcome,
)
    ensures
        step_spec(s, DispatcherEvent::InvocationDone(o1), table) == step_spec(
            s,
            DispatcherEvent::InvocationDone(o2),
            table,
        ),
{
}

/// An envelope with zero subscribers is no error and has no effect: the
/// dispatcher stays idle, invokes nothing, and simply waits for the next
/// envelope.
pub proof fn lemma_no_subscribers_is_a_noop(env: Envelope, table: Map<Seq<char>, Seq<u64>>)
    requires
        lookup_spec(table, env.event@).len() == 0,
    ensures
        step_spec(DispatcherStateView::Idle, DispatcherEvent::EnvelopeReady(env), table) == (
            DispatcherStateView::Idle,
            DispatcherAction::AwaitEnvelope,
        ),
{
}

/// The handles invoked while the machine, holding an envelope, is driven
/// with one reported outcome after another, in invocation order.
pub open spec fn invocations_to_completion(
    s: DispatcherStateView,
    table: Map<Seq<char>, Seq<u64>>,
    outcomes: Seq<CallbackOutcome>,
) -> Seq<u64>
    decreases outcomes.len(),
{
    if !(s is Dispatching) || outcomes.len() == 0 {
        Seq::empty()
    } else {
        let (s2, a) = step_spec(s, DispatcherEvent::InvocationDone(outcomes[0]), table);
        match a {
            DispatcherAction::Invoke(h) => seq![h] + invocations_to_completion(
                s2,
                table,
                outcomes.drop_first(),
            ),
            _ => Seq::empty(),
        }
    }
}

proof fn lemma_completion_follows_plan(
    s: DispatcherStateView,
    table: Map<Seq<char>, Seq<u64>>,
    outcomes: Seq<CallbackOutcome>,
)
    requires
        state_wf(s),
        s is Dispatching,
        outcomes.len() >= planned(s).len(),
    ensures
        invocations_to_completion(s, table, outcomes) == planned(s),
    decreases outcomes.len(),
{
    match s {
        DispatcherStateView::Dispatching { payload, pending, next } => {
            if planned(s).len() == 0 {
                assert(invocations_to_completion(s, table, outcomes) =~= planned(s));
            } else {
                let (s2, a) = step_spec(s, DispatcherEvent::InvocationDone(outcomes[0]), table);
                assert(a == DispatcherAction::Invoke(pending[next]));
                assert(planned(s2) =~= planned(s).drop_first());
                lemma_completion_follows_plan(s2, table, outcomes.drop_first());
                assert(invocations_to_completion(s, table, outcomes) =~= seq![pending[next]]
                    + planned(s2));
                assert(seq![pending[next]] + planned(s).drop_first() =~= planned(s));
            }
        },
        _ => {
        },
    }
}

/// One envelope is delivered to exactly the callbacks subscribed to its
/// event at lookup time, one by one, in subscription order, whatever each
/// invocation reports: from idle, the machine first invokes the head of the
/// snapshot, and driving it with any outcomes — failures included — invokes
/// precisely the rest of the snapshot, in order.
pub proof fn lemma_envelope_delivered_in_subscription_order(
    env: Envelope,
    table: Map<Seq<char>, Seq<u64>>,
    outcomes: Seq<CallbackOutcome>,
)
    requires
        outcomes.len() + 1 >= lookup_spec(table, env.event@).len(),
    ensures
        ({
            let plan = lookup_spec(table, env.event@);
            let (s1, a1) = step_spec(
                DispatcherStateView::Idle,
                DispatcherEvent::EnvelopeReady(env),
                table,
            );
            &&& plan.len() == 0 ==> s1 == DispatcherStateView::Idle && a1
                == DispatcherAction::AwaitEnvelope
            &&& plan.len() > 0 ==> a1 == DispatcherAction::Invoke(plan[0]) && seq![plan[0]]
                + invocations_to_completion(s1, table, outcomes) == plan
        }),
{
    let plan = lookup_spec(table, env.event@);
    if plan.len() > 0 {
        let (s1, a1) = step_spec(
            DispatcherStateView::Idle,
            DispatcherEvent::EnvelopeReady(env),
            table,
        );
        assert(planned(s1) =~= plan.drop_first());
        lemma_completion_follows_plan(s1, table, outcomes);
        assert(seq![plan[0]] + plan.drop_first() =~= plan);
    }
}

} // verus!
