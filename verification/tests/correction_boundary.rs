use agent_client_protocol::schema::AgentRequest;
use agent_client_protocol::JsonRpcMessage;
use aionui_ai_agent::async_completion::AcpSessionBinding;
use aionui_ai_agent::client_extensions::{
    Reason, RpcError, COMMAND_EVE_CORRECTION_BOUNDARY_EXT_METHOD,
    COMMAND_EVE_CORRECTION_BOUNDARY_WIRE_METHOD,
};
use aionui_ai_agent::correction_boundary::{
    BoundaryAnswer, BoundaryProgress, BoundaryRequest, BoundaryResponse, BoundaryStatus,
    CorrectionBoundaryReceipts, ReceiptState, RejectionReason, CORRECTION_BOUNDARY_VERSION,
    MAX_BOUNDARY_PAYLOAD_BYTES, MAX_RECEIPTS,
};
use aionui_ai_agent::json::JsonValue;
use aionui_ai_agent::wire::parse_boundary_request;

fn json_value(value: serde_json::Value) -> JsonValue {
    match value {
        serde_json::Value::Null => JsonValue::Null,
        serde_json::Value::Bool(b) => JsonValue::Bool(b),
        serde_json::Value::Number(n) => JsonValue::Number(n.to_string()),
        serde_json::Value::String(s) => JsonValue::Text(s),
        serde_json::Value::Array(items) => {
            JsonValue::Array(items.into_iter().map(json_value).collect())
        }
        serde_json::Value::Object(entries) => {
            JsonValue::Object(entries.into_iter().map(|(key, value)| (key, json_value(value))).collect())
        }
    }
}


fn bind(binding: &mut AcpSessionBinding, session_id: &str) {
    binding.request_transition(false);
    assert!(binding.try_enter_transition());
    binding.bind(session_id).unwrap();
    binding.leave_transition(false);
}

fn request(request_id: &str, session_id: &str) -> BoundaryRequest {
    BoundaryRequest {
        version: CORRECTION_BOUNDARY_VERSION.to_owned(),
        request_id: request_id.to_owned(),
        session_id: session_id.to_owned(),
    }
}

/// Handles a request with subscribers, and returns the answer and how often a boundary was marked.
fn dispatch(
    receipts: &mut CorrectionBoundaryReceipts,
    binding: &mut AcpSessionBinding,
    request: &BoundaryRequest,
) -> (BoundaryAnswer, usize) {
    match receipts.handle(binding, 64, Some(request)) {
        BoundaryProgress::Answer(answer) => (answer, 0),
        BoundaryProgress::Mark(ticket) => (receipts.finish(binding, ticket, true), 1),
    }
}

fn dispatch_raw(
    receipts: &mut CorrectionBoundaryReceipts,
    binding: &mut AcpSessionBinding,
    raw: &str,
) -> BoundaryAnswer {
    let parsed = serde_json::from_str::<serde_json::Value>(raw)
        .ok()
        .and_then(|value| parse_boundary_request(&json_value(value)));
    match receipts.handle(binding, raw.len(), parsed.as_ref()) {
        BoundaryProgress::Answer(answer) => answer,
        BoundaryProgress::Mark(ticket) => receipts.finish(binding, ticket, true),
    }
}

#[test]
fn correction_boundary_sdk_strips_private_wire_prefix_before_router_matching() {
    let mut params = serde_json::Map::new();
    let request = request("receipt-wire", "session-1");
    params.insert("version".to_owned(), request.version.into());
    params.insert("request_id".to_owned(), request.request_id.into());
    params.insert("session_id".to_owned(), request.session_id.into());
    let parsed = AgentRequest::parse_message(
        COMMAND_EVE_CORRECTION_BOUNDARY_WIRE_METHOD,
        &serde_json::Value::Object(params),
    )
    .unwrap();
    assert!(matches!(
        parsed,
        AgentRequest::ExtMethodRequest(request)
            if request.method.as_ref() == COMMAND_EVE_CORRECTION_BOUNDARY_EXT_METHOD
    ));
}

#[test]
fn request_is_idempotent_after_response_delivery_failure() {
    let mut binding = AcpSessionBinding::new();
    let mut receipts = CorrectionBoundaryReceipts::new();
    bind(&mut binding, "session-correction");
    let request = request("receipt-1", "session-correction");

    assert_eq!(
        dispatch(&mut receipts, &mut binding, &request),
        (BoundaryAnswer::Accepted, 1)
    );
    assert_eq!(
        dispatch(&mut receipts, &mut binding, &request),
        (BoundaryAnswer::Accepted, 0),
        "the same session receipt must not emit a second boundary"
    );
}

#[test]
fn request_rejects_invalid_or_unbound_envelopes_without_an_event() {
    let mut binding = AcpSessionBinding::new();
    let mut receipts = CorrectionBoundaryReceipts::new();
    bind(&mut binding, "session-correction");

    let committed = request("receipt-committed", "session-correction");
    assert_eq!(
        dispatch(&mut receipts, &mut binding, &committed),
        (BoundaryAnswer::Accepted, 1)
    );
    assert_eq!(
        dispatch(&mut receipts, &mut binding, &request("receipt-unbound", "session-other")),
        (BoundaryAnswer::Rejected(RejectionReason::SessionMismatch), 0)
    );
    assert_eq!(
        dispatch(&mut receipts, &mut binding, &committed),
        (BoundaryAnswer::Accepted, 0)
    );

    for invalid in [
        "{".to_owned(),
        format!(
            "{{\"version\":\"{CORRECTION_BOUNDARY_VERSION}\",\"request_id\":\"receipt-extra\",\"session_id\":\"session-correction\",\"unexpected\":true}}"
        ),
        "{\"version\":\"command-eve-correction-boundary/v0\",\"request_id\":\"receipt-version\",\"session_id\":\"session-correction\"}".to_owned(),
        format!(
            "{{\"version\":\"{CORRECTION_BOUNDARY_VERSION}\",\"request_id\":\"receipt\\ninvalid\",\"session_id\":\"session-correction\"}}"
        ),
    ] {
        let answer = dispatch_raw(&mut receipts, &mut binding, &invalid);
        assert_eq!(
            answer,
            BoundaryAnswer::Refused(RpcError::Internal(Reason::InvalidShape)),
            "{invalid}"
        );
        assert_eq!(answer.response("receipt").unwrap_err().code(), -32603);
    }
    let oversized = "x".repeat(MAX_BOUNDARY_PAYLOAD_BYTES + 1);
    assert_eq!(
        dispatch_raw(&mut receipts, &mut binding, &oversized),
        BoundaryAnswer::Refused(RpcError::Internal(Reason::PayloadTooLarge))
    );
}

#[test]
fn request_retries_after_no_subscriber_rejection() {
    let mut binding = AcpSessionBinding::new();
    let mut receipts = CorrectionBoundaryReceipts::new();
    bind(&mut binding, "session-correction");
    let request = request("receipt-subscriber", "session-correction");

    let ticket = match receipts.handle(&mut binding, 64, Some(&request)) {
        BoundaryProgress::Mark(ticket) => ticket,
        other => panic!("the boundary is to be marked: {other:?}"),
    };
    assert_eq!(
        receipts.finish(&mut binding, ticket, false),
        BoundaryAnswer::Rejected(RejectionReason::RetryableSameGeneration)
    );
    assert_eq!(
        dispatch(&mut receipts, &mut binding, &request),
        (BoundaryAnswer::Accepted, 1)
    );
}

fn leave_retryable(
    receipts: &mut CorrectionBoundaryReceipts,
    binding: &mut AcpSessionBinding,
    request: &BoundaryRequest,
) {
    match receipts.handle(binding, 64, Some(request)) {
        BoundaryProgress::Mark(ticket) => {
            receipts.finish(binding, ticket, false);
        }
        other => panic!("the boundary is to be marked: {other:?}"),
    }
}

#[test]
fn only_existing_same_generation_receipts_survive_receipt_preserving_bind_fence() {
    let mut binding = AcpSessionBinding::new();
    let mut receipts = CorrectionBoundaryReceipts::new();
    bind(&mut binding, "session-correction");
    let generation = binding.lifecycle_generation().unwrap();
    let accepted_request = request("receipt-bind-fence", "session-correction");
    let retryable_request = request("receipt-retryable-fence", "session-correction");
    let new_request = request("receipt-new-fence", "session-correction");

    assert_eq!(
        dispatch(&mut receipts, &mut binding, &accepted_request),
        (BoundaryAnswer::Accepted, 1)
    );
    leave_retryable(&mut receipts, &mut binding, &retryable_request);

    let mut held_admission = binding.try_acquire_admission().unwrap();
    let preexisting = binding.request_transition(false);
    assert!(!binding.try_enter_transition());
    assert!(!binding.lifecycle_change_pending());

    assert_eq!(
        dispatch(&mut receipts, &mut binding, &accepted_request),
        (BoundaryAnswer::Rejected(RejectionReason::RetryableSameGeneration), 0)
    );
    assert_eq!(
        dispatch(&mut receipts, &mut binding, &retryable_request),
        (BoundaryAnswer::Rejected(RejectionReason::RetryableSameGeneration), 0)
    );
    assert_eq!(
        dispatch(&mut receipts, &mut binding, &new_request),
        (BoundaryAnswer::Rejected(RejectionReason::LifecycleChanged), 0)
    );
    assert_eq!(
        receipts.get("session-correction", "receipt-bind-fence"),
        Some(ReceiptState::Accepted(generation))
    );
    assert_eq!(
        receipts.get("session-correction", "receipt-retryable-fence"),
        Some(ReceiptState::Retryable(generation))
    );
    assert_eq!(
        receipts.get("session-correction", "receipt-new-fence"),
        Some(ReceiptState::Rejected(RejectionReason::LifecycleChanged))
    );

    held_admission.release_barrier(&mut binding);
    assert!(binding.try_enter_transition());
    assert_eq!(
        binding.bind_if_generation("session-correction", generation, preexisting),
        Ok(Some(false))
    );
    binding.leave_transition(false);
    assert_eq!(
        dispatch(&mut receipts, &mut binding, &accepted_request),
        (BoundaryAnswer::Accepted, 0)
    );
    assert_eq!(
        dispatch(&mut receipts, &mut binding, &retryable_request),
        (BoundaryAnswer::Accepted, 1)
    );
    assert_eq!(
        dispatch(&mut receipts, &mut binding, &new_request),
        (BoundaryAnswer::Rejected(RejectionReason::LifecycleChanged), 0)
    );
}

#[test]
fn lifecycle_publication_rejects_before_new_load_resume_close_and_cancel_writers() {
    for operation in ["new", "load", "resume", "close", "cancel"] {
        let mut binding = AcpSessionBinding::new();
        let mut receipts = CorrectionBoundaryReceipts::new();
        bind(&mut binding, "session-correction");
        let request = request(&format!("receipt-{operation}"), "session-correction");
        assert_eq!(
            dispatch(&mut receipts, &mut binding, &request),
            (BoundaryAnswer::Accepted, 1)
        );

        let mut held_admission = binding.try_acquire_admission().unwrap();
        binding.request_transition(true);
        assert!(!binding.try_enter_transition());
        assert_eq!(
            dispatch(&mut receipts, &mut binding, &request),
            (BoundaryAnswer::Rejected(RejectionReason::LifecycleChanged), 0)
        );
        held_admission.release_barrier(&mut binding);
        assert!(binding.try_enter_transition());
        if operation == "close" {
            let (_, matched) = binding.begin_close_lifecycle("session-correction");
            assert!(matched);
        } else {
            binding.begin_lifecycle();
        }
        binding.leave_transition(true);
    }
}

#[test]
fn lifecycle_epoch_revalidation_closes_the_receipt_lock_toctou_window() {
    let mut binding = AcpSessionBinding::new();
    let mut receipts = CorrectionBoundaryReceipts::new();
    bind(&mut binding, "session-correction");
    let request = request("receipt-toctou", "session-correction");
    assert_eq!(
        dispatch(&mut receipts, &mut binding, &request),
        (BoundaryAnswer::Accepted, 1)
    );

    binding.request_transition(false);
    let snapshot = binding
        .receipt_retry_snapshot("session-correction")
        .expect("receipt-preserving snapshot");
    binding.request_transition(true);

    assert_eq!(
        receipts.retry_existing_receipt_during_bind(
            &binding,
            "session-correction",
            "receipt-toctou",
            &snapshot
        ),
        BoundaryAnswer::Rejected(RejectionReason::LifecycleChanged)
    );
}

#[test]
fn higher_generation_rejects_a_stale_receipt_retry_snapshot() {
    let mut binding = AcpSessionBinding::new();
    let mut receipts = CorrectionBoundaryReceipts::new();
    bind(&mut binding, "session-correction");
    let generation = binding.lifecycle_generation().unwrap();
    let request = request("receipt-stale-generation", "session-correction");
    assert_eq!(
        dispatch(&mut receipts, &mut binding, &request),
        (BoundaryAnswer::Accepted, 1)
    );

    binding.request_transition(false);
    let snapshot = binding
        .receipt_retry_snapshot("session-correction")
        .expect("receipt-preserving snapshot");
    assert!(binding.try_enter_transition());
    assert_eq!(
        binding.bind_if_generation("session-correction", generation, false),
        Ok(Some(false))
    );
    binding.leave_transition(false);

    binding.request_transition(true);
    assert!(binding.try_enter_transition());
    let lifecycle = binding.begin_lifecycle();
    lifecycle
        .bind_acknowledged(&mut binding, "session-correction")
        .unwrap();
    binding.leave_transition(true);
    assert_ne!(binding.lifecycle_generation().unwrap(), generation);

    assert_eq!(
        receipts.retry_existing_receipt_during_bind(
            &binding,
            "session-correction",
            "receipt-stale-generation",
            &snapshot
        ),
        BoundaryAnswer::Rejected(RejectionReason::LifecycleChanged)
    );
}

#[test]
fn request_stays_fenced_for_the_full_session_lifecycle_interval() {
    let mut binding = AcpSessionBinding::new();
    let mut receipts = CorrectionBoundaryReceipts::new();
    bind(&mut binding, "session-correction");
    binding.request_transition(true);
    assert!(binding.try_enter_transition());
    let lifecycle = binding.begin_lifecycle();
    let lifecycle_request = request("receipt-lifecycle", "session-correction");

    assert_eq!(
        dispatch(&mut receipts, &mut binding, &lifecycle_request),
        (BoundaryAnswer::Rejected(RejectionReason::LifecycleChanged), 0)
    );

    lifecycle
        .bind_acknowledged(&mut binding, "session-correction")
        .unwrap();
    binding.leave_transition(true);
    assert_eq!(
        dispatch(&mut receipts, &mut binding, &lifecycle_request),
        (BoundaryAnswer::Rejected(RejectionReason::LifecycleChanged), 0)
    );
    assert_eq!(
        dispatch(
            &mut receipts,
            &mut binding,
            &request("receipt-lifecycle-fresh", "session-correction")
        ),
        (BoundaryAnswer::Accepted, 1)
    );
}

#[test]
fn receipt_capacity_fails_closed_and_a_new_bound_session_recovers() {
    let mut binding = AcpSessionBinding::new();
    let mut receipts = CorrectionBoundaryReceipts::new();
    bind(&mut binding, "session-capacity");
    for index in 0..MAX_RECEIPTS {
        assert_eq!(
            dispatch(
                &mut receipts,
                &mut binding,
                &request(&format!("receipt-{index}"), "session-capacity")
            ),
            (BoundaryAnswer::Accepted, 1)
        );
    }
    assert_eq!(receipts.len(), MAX_RECEIPTS);

    let (exhausted, marked) = dispatch(
        &mut receipts,
        &mut binding,
        &request("receipt-overflow", "session-capacity"),
    );
    assert_eq!(
        exhausted,
        BoundaryAnswer::Refused(RpcError::Internal(Reason::ReceiptCapacityExhausted))
    );
    assert_eq!(exhausted.response("receipt-overflow").unwrap_err().code(), -32603);
    assert_eq!(marked, 0);

    bind(&mut binding, "session-recovered");
    assert_eq!(
        dispatch(
            &mut receipts,
            &mut binding,
            &request("receipt-recovered", "session-recovered")
        ),
        (BoundaryAnswer::Accepted, 1)
    );
    assert_eq!(receipts.len(), 1);
}

#[test]
fn answers_are_framed_for_the_agent() {
    assert_eq!(
        BoundaryAnswer::Accepted.response("receipt-1").unwrap(),
        BoundaryResponse {
            version: CORRECTION_BOUNDARY_VERSION.to_owned(),
            request_id: "receipt-1".to_owned(),
            status: BoundaryStatus::Accepted,
            rejection: None,
        }
    );
    assert_eq!(
        BoundaryAnswer::Rejected(RejectionReason::SessionMismatch)
            .response("receipt-2")
            .unwrap(),
        BoundaryResponse {
            version: CORRECTION_BOUNDARY_VERSION.to_owned(),
            request_id: "receipt-2".to_owned(),
            status: BoundaryStatus::Rejected,
            rejection: Some(RejectionReason::SessionMismatch),
        }
    );
}
