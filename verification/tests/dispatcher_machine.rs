use event_bus::dispatcher::{
    CallbackOutcome, DispatcherAction, DispatcherEvent, DispatcherState,
};
use event_bus::payload::{Envelope, Payload, Value};
use event_bus::registry::SubscriptionTable;

fn envelope_for(event: &str) -> Envelope {
    let mut payload = Payload::new();
    payload.push_field(String::from("from"), Value::Text(String::from(event)));
    Envelope { event: String::from(event), payload }
}

#[test]
fn delivers_in_subscription_order() {
    let mut table = SubscriptionTable::new();
    table.subscribe(String::from("e"), 10);
    table.subscribe(String::from("e"), 20);
    let state = DispatcherState::new();
    let (state, action) = state.step(
        DispatcherEvent::EnvelopeReady(envelope_for("e")),
        &table,
    );
    assert_eq!(action, DispatcherAction::Invoke(10));
    let (state, action) = state.step(
        DispatcherEvent::InvocationDone(CallbackOutcome::Completed),
        &table,
    );
    assert_eq!(action, DispatcherAction::Invoke(20));
    let (_, action) = state.step(
        DispatcherEvent::InvocationDone(CallbackOutcome::Completed),
        &table,
    );
    assert_eq!(action, DispatcherAction::AwaitEnvelope);
}

#[test]
fn callback_failure_does_not_stop_the_loop() {
    let mut table = SubscriptionTable::new();
    table.subscribe(String::from("e"), 1);
    table.subscribe(String::from("e"), 2);
    let state = DispatcherState::new();
    let (state, action) = state.step(
        DispatcherEvent::EnvelopeReady(envelope_for("e")),
        &table,
    );
    assert_eq!(action, DispatcherAction::Invoke(1));
    // the first callback fails; the second is still invoked
    let (state, action) = state.step(
        DispatcherEvent::InvocationDone(CallbackOutcome::Failed),
        &table,
    );
    assert_eq!(action, DispatcherAction::Invoke(2));
    // the second fails too; the loop goes back to waiting, not down
    let (state, action) = state.step(
        DispatcherEvent::InvocationDone(CallbackOutcome::Failed),
        &table,
    );
    assert_eq!(action, DispatcherAction::AwaitEnvelope);
    // and a later envelope is still delivered
    let (_, action) = state.step(
        DispatcherEvent::EnvelopeReady(envelope_for("e")),
        &table,
    );
    assert_eq!(action, DispatcherAction::Invoke(1));
}

#[test]
fn failure_and_success_drive_the_same_actions() {
    let mut table = SubscriptionTable::new();
    table.subscribe(String::from("e"), 1);
    table.subscribe(String::from("e"), 2);
    table.subscribe(String::from("e"), 3);
    for outcome in [CallbackOutcome::Completed, CallbackOutcome::Failed] {
        let mut actions: Vec<DispatcherAction> = Vec::new();
        let mut state = DispatcherState::new();
        let step = state.step(DispatcherEvent::EnvelopeReady(envelope_for("e")), &table);
        state = step.0;
        actions.push(step.1);
        loop {
            let step = state.step(DispatcherEvent::InvocationDone(outcome), &table);
            state = step.0;
            actions.push(step.1);
            if step.1 == DispatcherAction::AwaitEnvelope {
                break;
            }
        }
        assert_eq!(
            actions,
            vec![
                DispatcherAction::Invoke(1),
                DispatcherAction::Invoke(2),
                DispatcherAction::Invoke(3),
                DispatcherAction::AwaitEnvelope,
            ],
        );
    }
}

#[test]
fn no_subscribers_is_a_noop() {
    let table = SubscriptionTable::new();
    let state = DispatcherState::new();
    let (state, action) = state.step(
        DispatcherEvent::EnvelopeReady(envelope_for("silent")),
        &table,
    );
    assert_eq!(action, DispatcherAction::AwaitEnvelope);
    assert!(state.active_payload().is_none());
}

#[test]
fn every_callback_sees_the_same_payload() {
    let mut table = SubscriptionTable::new();
    table.subscribe(String::from("e"), 1);
    table.subscribe(String::from("e"), 2);
    let envelope = envelope_for("e");
    let expected = envelope_for("e").payload;
    let state = DispatcherState::new();
    let (state, _) = state.step(DispatcherEvent::EnvelopeReady(envelope), &table);
    assert_eq!(state.active_payload().expect("delivery is in flight"), &expected);
    let (state, _) = state.step(
        DispatcherEvent::InvocationDone(CallbackOutcome::Completed),
        &table,
    );
    assert_eq!(state.active_payload().expect("delivery is in flight"), &expected);
}

#[test]
fn stop_request_halts_from_any_state() {
    let mut table = SubscriptionTable::new();
    table.subscribe(String::from("e"), 1);

    let idle = DispatcherState::new();
    let (stopped, action) = idle.step(DispatcherEvent::StopRequested, &table);
    assert_eq!(action, DispatcherAction::HaltLoop);
    let (_, action) = stopped.step(
        DispatcherEvent::EnvelopeReady(envelope_for("e")),
        &table,
    );
    assert_eq!(action, DispatcherAction::HaltLoop);

    let busy = DispatcherState::new();
    let (busy, _) = busy.step(DispatcherEvent::EnvelopeReady(envelope_for("e")), &table);
    let (_, action) = busy.step(DispatcherEvent::StopRequested, &table);
    assert_eq!(action, DispatcherAction::HaltLoop);
}

#[test]
fn stray_completion_while_idle_is_ignored() {
    let table = SubscriptionTable::new();
    let state = DispatcherState::new();
    let (state, action) = state.step(
        DispatcherEvent::InvocationDone(CallbackOutcome::Completed),
        &table,
    );
    assert_eq!(action, DispatcherAction::AwaitEnvelope);
    assert!(state.active_payload().is_none());
}
