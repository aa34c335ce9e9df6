use aionui_ai_agent::async_completion::{
    AcpSessionBinding, AcpSessionBindingTurnGate, AcpSessionBindingTurnObservation,
};

fn bind(binding: &mut AcpSessionBinding, session_id: &str) -> bool {
    binding.request_transition(false);
    assert!(binding.try_enter_transition());
    let changed = binding.bind(session_id).unwrap();
    binding.leave_transition(false);
    changed
}

#[test]
fn lifecycle_ticket_drop_cancellation_and_unwind_release_the_transition_fence() {
    let mut binding = AcpSessionBinding::new();
    assert!(bind(&mut binding, "session-1"));

    let mut admission = binding.try_acquire_admission().expect("held admission");
    binding.request_transition(true);
    assert!(!binding.try_enter_transition(), "writer unexpectedly completed");
    assert!(binding.transition_pending());
    binding.abandon_transition(true);
    assert!(!binding.transition_pending());
    assert_eq!(binding.bound_session_id().as_deref(), Some("session-1"));
    admission.release_barrier(&mut binding);

    binding.request_transition(true);
    assert!(binding.try_enter_transition());
    let _unused = binding.begin_lifecycle();
    assert!(binding.transition_pending());
    binding.leave_transition(true);
    assert!(!binding.transition_pending());

    binding.request_transition(true);
    assert!(binding.try_enter_transition());
    let lifecycle = binding.begin_lifecycle();
    lifecycle.bind_acknowledged(&mut binding, "session-2").unwrap();
    binding.leave_transition(true);
    assert!(!binding.transition_pending());
    assert_eq!(binding.bound_session_id().as_deref(), Some("session-2"));
}

#[test]
fn lifecycle_transition_fences_new_admissions_until_the_existing_turn_claim_releases() {
    let mut binding = AcpSessionBinding::new();
    bind(&mut binding, "session-1");
    let mut observation = AcpSessionBindingTurnObservation::new();
    let mut admission = binding.try_acquire_admission().expect("positive binding");

    binding.request_transition(true);
    assert!(!binding.try_enter_transition());
    assert!(
        binding.transition_pending(),
        "rebind must fence new arrivals before writer admission"
    );
    assert!(
        binding.try_acquire_admission().is_none(),
        "stale work must not enter after rebind starts"
    );

    assert!(!observation.turn_claimed());
    admission.release_after_turn_claim(&mut binding, &mut observation);
    assert!(observation.turn_claimed());
    assert!(binding.try_enter_transition());
    binding.invalidate();
    binding.leave_transition(true);

    assert!(
        binding.lease().is_none(),
        "rebind leaves the route pre-bind and retryable"
    );
    assert!(binding.try_acquire_admission().is_none());
}

#[test]
fn admission_release_allows_the_next_positive_binding_without_reusing_the_old_lease() {
    let mut binding = AcpSessionBinding::new();
    bind(&mut binding, "session-1");
    let mut observation = AcpSessionBindingTurnObservation::new();
    let mut admission = binding.try_acquire_admission().unwrap();
    let old_lease = admission.lease().clone();
    admission.release_after_turn_claim(&mut binding, &mut observation);

    binding.request_transition(true);
    assert!(binding.try_enter_transition());
    binding.invalidate();
    binding.leave_transition(true);
    bind(&mut binding, "session-2");
    let current = binding.lease().unwrap();

    assert_ne!(current, old_lease);
    assert!(!binding.validate_lease(&old_lease));
    assert!(binding.validate_lease(&current));
}

#[test]
fn close_fence_invalidates_a_deferred_turn_gate_without_waiting_for_preturn_work() {
    let mut binding = AcpSessionBinding::new();
    bind(&mut binding, "session-1");
    let lease = binding.lease().expect("positive binding");
    let turn_gate = AcpSessionBindingTurnGate::new(lease);

    binding.request_transition(true);
    assert!(
        binding.try_enter_transition(),
        "close must not wait for deferred pre-turn work"
    );
    let closed = binding.unbind_matching("session-1");
    binding.leave_transition(true);

    assert!(closed);
    assert!(
        turn_gate.try_admit_turn(&mut binding).is_none(),
        "a close fence must win before a deferred completion inserts a turn"
    );
}

#[test]
fn conditional_bind_steps_aside_for_another_generation() {
    let mut binding = AcpSessionBinding::new();
    bind(&mut binding, "session-1");
    let generation = binding.lifecycle_generation().unwrap();
    binding.request_transition(false);
    assert!(binding.try_enter_transition());
    assert_eq!(
        binding.bind_if_generation("session-2", generation + 1, false),
        Ok(None)
    );
    assert_eq!(
        binding.bind_if_generation("session-2", generation, true),
        Ok(None)
    );
    assert_eq!(
        binding.bind_if_generation("session-1", generation, false),
        Ok(Some(false))
    );
    assert_eq!(
        binding.bind_if_generation("session-2", generation, false),
        Ok(Some(true))
    );
    binding.leave_transition(false);
    assert_eq!(binding.bound_session_id().as_deref(), Some("session-2"));
}

#[test]
fn closed_route_admits_nothing_any_more() {
    let mut binding = AcpSessionBinding::new();
    bind(&mut binding, "session-1");
    let lease = binding.lease().unwrap();
    binding.close_admissions();
    assert!(binding.try_acquire_admission().is_none());
    assert!(!binding.validate_lease(&lease));
    assert!(binding.lifecycle_change_pending());
    assert!(!binding.try_enter_transition());
}

#[test]
fn binding_twice_keeps_the_generation() {
    let mut binding = AcpSessionBinding::new();
    assert!(bind(&mut binding, "session-1"));
    let first = binding.lease().unwrap();
    assert_eq!(first.generation(), 1);
    assert!(!bind(&mut binding, "session-1"));
    assert!(binding.lease().unwrap().same_as(&first));
}
