use agent_client_protocol::schema::AgentRequest;
use agent_client_protocol::JsonRpcMessage;
use aionui_ai_agent::acp::wire_method;
use aionui_ai_agent::async_completion::{
    AcpSessionBinding, AcpSessionBindingTurnGate, CommandEveAsyncCompletionDispatchKind,
    CommandEveAsyncCompletionResult,
};
use aionui_ai_agent::client_extensions::{
    route_method, AcpClientExtensionRouter, ExtensionMethod, ReadKind, ReadRequest, Reason,
    RpcError, SessionChange, COMMAND_EVE_ASYNC_COMPLETION_EXT_METHOD,
    COMMAND_EVE_ASYNC_COMPLETION_WIRE_METHOD, COMMAND_EVE_CORRECTION_BOUNDARY_EXT_METHOD,
    COMMAND_EVE_CORRECTION_BOUNDARY_WIRE_METHOD, COMMAND_EVE_READ_PREVIEW_EXT_METHOD,
    COMMAND_EVE_READ_PREVIEW_VERSION, COMMAND_EVE_READ_PREVIEW_WIRE_METHOD,
    COMMAND_EVE_READ_TERMINAL_EXT_METHOD, COMMAND_EVE_READ_TERMINAL_WIRE_METHOD, MAX_COUNT,
    MAX_REQUEST_PAYLOAD_BYTES, MAX_RESPONSE_PAYLOAD_BYTES, MAX_START,
};
use aionui_ai_agent::completion_route::{
    hand_over_refusal, AcpAsyncCompletionAckStatus, AcpAsyncCompletionRequest,
    AcpAsyncCompletionResponse, CompletionReply, CompletionStep, HandOver,
    COMMAND_EVE_ASYNC_COMPLETION_VERSION, MAX_ASYNC_COMPLETION_CONTENT_BYTES,
    MAX_ASYNC_COMPLETION_PAYLOAD_BYTES,
};
use aionui_ai_agent::json::JsonValue;
use aionui_ai_agent::prompt_admission::{
    claim_command_eve_prompt_admission, command_eve_prompt_admission_for_turn,
    complete_command_eve_prompt_admission, forget_command_eve_prompt_admission,
    register_command_eve_prompt_admission, AdmissionRegistry, AdmissionWaiter,
    CommandEvePromptAdmissionClaimResult, COMMAND_EVE_PROMPT_ADMISSION_EXT_METHOD,
    COMMAND_EVE_PROMPT_ADMISSION_VERSION,
};
use aionui_ai_agent::prompt_route::{
    after_accept, after_commit_answer, after_finalize_answer, before_commit_answer,
    handle_prompt_admission_request, prompt_admission_response, CommandEvePromptAdmissionPhase,
    CommandEvePromptAdmissionStatus, CommandEvePromptAdmissionWireRequest,
    PromptAdmissionProgress, MAX_PROMPT_ADMISSION_PAYLOAD_BYTES,
};
use aionui_ai_agent::read_preview::{AcpReadPreviewResponseRequest, AcpReadPreviewResult};
use aionui_ai_agent::wire::{parse_completion, parse_read_request, parse_wire_request};

fn json_value(value: serde_json::Value) -> JsonValue {
    match value {
        serde_json::Value::Null => JsonValue::Null,
        serde_json::Value::Bool(b) => JsonValue::Bool(b),
        serde_json::Value::Number(n) => JsonValue::Number(n.to_string()),
        serde_json::Value::String(s) => JsonValue::Text(s),
        serde_json::Value::Array(items) => {
            JsonValue::Array(items.into_iter().map(json_value).collect())
        }
        serde_json::Value::Object(entries) => {
            JsonValue::Object(entries.into_iter().map(|(key, value)| (key, json_value(value))).collect())
        }
    }
}

fn json(text: &str) -> JsonValue {
    json_value(serde_json::from_str(text).unwrap())
}

/// A route with its binding and the admissions of its turns.
struct Route {
    router: AcpClientExtensionRouter,
    binding: AcpSessionBinding,
    admissions: AdmissionRegistry,
}

impl Route {
    fn new() -> Route {
        Route {
            router: AcpClientExtensionRouter::new(),
            binding: AcpSessionBinding::new(),
            admissions: AdmissionRegistry::new(),
        }
    }

    fn with_completion() -> Route {
        let mut route = Route::new();
        route.router = AcpClientExtensionRouter::new().with_async_completion();
        route
    }

    fn bind_session(&mut self, session_id: &str) -> Result<Option<SessionChange>, ()> {
        let previous = self.binding.bound_session_id();
        self.binding.request_transition(false);
        assert!(self.binding.try_enter_transition());
        let result = self.router.bind_session(
            &mut self.binding,
            &mut self.admissions,
            previous.as_deref(),
            session_id,
        );
        self.binding.leave_transition(false);
        result
    }

    fn begin_session_binding(&mut self) -> SessionChange {
        let previous = self.binding.bound_session_id();
        self.binding.request_transition(true);
        assert!(self.binding.try_enter_transition());
        let change = self.router.begin_session_binding(
            &mut self.binding,
            &mut self.admissions,
            previous.as_deref(),
        );
        self.binding.leave_transition(true);
        change
    }

    fn begin_session_close(&mut self, session_id: &str) -> Option<SessionChange> {
        self.binding.request_transition(true);
        assert!(self.binding.try_enter_transition());
        let change =
            self.router
                .begin_session_close(&mut self.binding, &mut self.admissions, session_id);
        self.binding.leave_transition(true);
        change
    }

    fn cancel_all(&mut self) -> SessionChange {
        self.router.cancel_all(&mut self.binding, &mut self.admissions)
    }

    fn read(&mut self, kind: ReadKind, request: &ReadRequest) -> Result<(), RpcError> {
        let bound = self.binding.bound_session_id();
        self.router
            .handle_read_request(kind, 100, Some(request), bound.as_deref())
    }

    fn read_raw(&mut self, kind: ReadKind, raw: &str) -> Result<(), RpcError> {
        let bound = self.binding.bound_session_id();
        let parsed = serde_json::from_str::<serde_json::Value>(raw)
            .ok()
            .and_then(|value| parse_read_request(&json_value(value)));
        self.router
            .handle_read_request(kind, raw.len(), parsed.as_ref(), bound.as_deref())
    }

    fn respond(
        &mut self,
        response: &AcpReadPreviewResponseRequest,
        payload_bytes: usize,
    ) -> Option<AcpReadPreviewResponseRequest> {
        let bound = self.binding.bound_session_id();
        let answer = self
            .router
            .check_read_preview_response(bound.as_deref(), response)
            .ok()?;
        self.router
            .consume_read_preview_response(&response.request_id, payload_bytes)
            .ok()?;
        Some(answer)
    }

    fn complete(&self, request: &AcpAsyncCompletionRequest, slot_free: bool) -> CompletionStep {
        self.router
            .handle_async_completion_request(&self.binding, 100, Some(request), slot_free)
    }

    fn prompt_raw(&mut self, raw: &str, listening: bool) -> PromptAdmissionProgress {
        let bound = self.binding.bound_session_id();
        let parsed = serde_json::from_str::<serde_json::Value>(raw)
            .ok()
            .and_then(|value| parse_wire_request(&json_value(value)));
        handle_prompt_admission_request(
            &mut self.admissions,
            raw.len(),
            parsed.as_ref(),
            bound.as_deref(),
            listening,
        )
    }

    fn prompt(&mut self, wire: &CommandEvePromptAdmissionWireRequest) -> PromptAdmissionProgress {
        let bound = self.binding.bound_session_id();
        handle_prompt_admission_request(
            &mut self.admissions,
            500,
            Some(wire),
            bound.as_deref(),
            true,
        )
    }

    fn wire(
        &self,
        turn_id: &str,
        session_id: &str,
        phase: CommandEvePromptAdmissionPhase,
    ) -> CommandEvePromptAdmissionWireRequest {
        let request = command_eve_prompt_admission_for_turn(&self.admissions, turn_id)
            .expect("registered admission");
        CommandEvePromptAdmissionWireRequest {
            version: request.version,
            request_id: request.request_id,
            turn_id: request.turn_id,
            receipt_sha256: request.receipt_sha256,
            session_id: session_id.to_owned(),
            phase,
        }
    }
}

fn request(request_id: &str, session_id: &str) -> ReadRequest {
    ReadRequest {
        version: COMMAND_EVE_READ_PREVIEW_VERSION.to_owned(),
        request_id: request_id.to_owned(),
        session_id: session_id.to_owned(),
        start: Some(4),
        count: Some(12),
    }
}

fn response(request_id: &str, session_id: &str) -> AcpReadPreviewResponseRequest {
    AcpReadPreviewResponseRequest {
        version: COMMAND_EVE_READ_PREVIEW_VERSION.to_owned(),
        request_id: request_id.to_owned(),
        session_id: session_id.to_owned(),
        result: Some(AcpReadPreviewResult {
            kind: "url".to_owned(),
            url: "https://example.test/preview?token=secret#frag".to_owned(),
            title: "Preview".to_owned(),
            text: "hello world".to_owned(),
            start: 4,
            end: 15,
            total_chars: 50,
            note: None,
            path: None,
        }),
    }
}

fn completion_request(session_id: &str) -> AcpAsyncCompletionRequest {
    AcpAsyncCompletionRequest {
        version: COMMAND_EVE_ASYNC_COMPLETION_VERSION.to_owned(),
        completion_id: "completion-1".to_owned(),
        session_id: session_id.to_owned(),
        content: "Continue the conversation".to_owned(),
    }
}

#[test]
fn client_extensions_sdk_strips_private_wire_prefix_before_router_matching() {
    let mut params = serde_json::Map::new();
    let request = completion_request("session-1");
    params.insert("version".to_owned(), request.version.into());
    params.insert("completion_id".to_owned(), request.completion_id.into());
    params.insert("session_id".to_owned(), request.session_id.into());
    params.insert("content".to_owned(), request.content.into());
    let parsed = AgentRequest::parse_message(
        COMMAND_EVE_ASYNC_COMPLETION_WIRE_METHOD,
        &serde_json::Value::Object(params),
    )
    .unwrap();
    assert!(matches!(
        parsed,
        AgentRequest::ExtMethodRequest(request)
            if request.method.as_ref() == COMMAND_EVE_ASYNC_COMPLETION_EXT_METHOD
    ));
}

#[test]
fn wire_methods_carry_the_private_prefix() {
    for (ext, wire) in [
        (COMMAND_EVE_ASYNC_COMPLETION_EXT_METHOD, COMMAND_EVE_ASYNC_COMPLETION_WIRE_METHOD),
        (COMMAND_EVE_READ_PREVIEW_EXT_METHOD, COMMAND_EVE_READ_PREVIEW_WIRE_METHOD),
        (COMMAND_EVE_READ_TERMINAL_EXT_METHOD, COMMAND_EVE_READ_TERMINAL_WIRE_METHOD),
        (COMMAND_EVE_CORRECTION_BOUNDARY_EXT_METHOD, COMMAND_EVE_CORRECTION_BOUNDARY_WIRE_METHOD),
    ] {
        assert_eq!(wire_method(ext), wire);
        assert!(route_method(ext).is_ok());
        assert_eq!(route_method(wire), Err(RpcError::MethodNotFound));
    }
    assert_eq!(
        route_method(COMMAND_EVE_PROMPT_ADMISSION_EXT_METHOD),
        Ok(ExtensionMethod::PromptAdmission)
    );
}

#[test]
fn async_completion_is_canonically_bound_and_acknowledged() {
    let mut route = Route::with_completion();
    route.router.enable_async_completion().unwrap();
    route.bind_session("session-1").unwrap();

    match route.complete(&completion_request("session-1"), true) {
        CompletionStep::Dispatch { kind, lease } => {
            assert_eq!(kind, CommandEveAsyncCompletionDispatchKind::Apply);
            assert_eq!(lease.session_id(), "session-1");
        }
        other => panic!("the completion is dispatched: {other:?}"),
    }
    let response = AcpAsyncCompletionResponse::of_reply(CompletionReply::Result(
        CommandEveAsyncCompletionResult::Completed {
            turn_id: "turn-1".to_owned(),
        },
    ));
    assert_eq!(response.status, AcpAsyncCompletionAckStatus::Accepted);
    assert_eq!(response.turn_id.as_deref(), Some("turn-1"));
    let again = AcpAsyncCompletionResponse::of_reply(CompletionReply::Result(
        CommandEveAsyncCompletionResult::AlreadyCompleted {
            turn_id: "turn-1".to_owned(),
        },
    ));
    assert_eq!(again.status, AcpAsyncCompletionAckStatus::AlreadyApplied);
}

#[test]
fn async_completion_is_retryable_until_session_binding_is_positive() {
    let mut route = Route::with_completion();
    for expected_phase in ["before enable", "before bind"] {
        assert!(
            matches!(
                route.complete(&completion_request("session-1"), true),
                CompletionStep::Retryable(Reason::SessionNotBound)
            ),
            "{expected_phase}"
        );
        if expected_phase == "before enable" {
            route.router.enable_async_completion().unwrap();
        }
    }
    assert_eq!(Reason::SessionNotBound.as_str(), "session_not_bound");

    route.bind_session("session-1").unwrap();
    match route.complete(&completion_request("session-2"), true) {
        CompletionStep::Dispatch {
            kind: CommandEveAsyncCompletionDispatchKind::RejectSessionMismatch { bound_session_id },
            ..
        } => assert_eq!(bound_session_id, "session-1"),
        other => panic!("the mismatch is dispatched: {other:?}"),
    }
    let response = AcpAsyncCompletionResponse::of_reply(CompletionReply::Result(
        CommandEveAsyncCompletionResult::Rejected {
            code: "session_mismatch".to_owned(),
        },
    ));
    assert_eq!(response.status, AcpAsyncCompletionAckStatus::Rejected);
    assert_eq!(response.code.as_deref(), Some("session_mismatch"));
}

#[test]
fn async_completion_rejects_session_mismatch_and_maps_busy_retryably() {
    let mut route = Route::with_completion();
    route.router.enable_async_completion().unwrap();
    route.bind_session("session-1").unwrap();
    match route.complete(&completion_request("session-2"), true) {
        CompletionStep::Dispatch {
            kind: CommandEveAsyncCompletionDispatchKind::RejectSessionMismatch { bound_session_id },
            ..
        } => assert_eq!(bound_session_id, "session-1"),
        other => panic!("the mismatch is dispatched: {other:?}"),
    }
    let response = AcpAsyncCompletionResponse::of_reply(CompletionReply::Result(
        CommandEveAsyncCompletionResult::Rejected {
            code: "session_mismatch".to_owned(),
        },
    ));
    assert_eq!(response.status, AcpAsyncCompletionAckStatus::Rejected);
    assert_eq!(response.code.as_deref(), Some("session_mismatch"));

    assert!(matches!(
        route.complete(&completion_request("session-1"), true),
        CompletionStep::Dispatch {
            kind: CommandEveAsyncCompletionDispatchKind::Apply,
            ..
        }
    ));
    let response = AcpAsyncCompletionResponse::of_reply(CompletionReply::Result(
        CommandEveAsyncCompletionResult::RetryableBusy {
            code: "conversation_busy".to_owned(),
        },
    ));
    assert_eq!(response.status, AcpAsyncCompletionAckStatus::Retryable);
    assert_eq!(response.code.as_deref(), Some("conversation_busy"));
    let unknown = AcpAsyncCompletionResponse::of_reply(CompletionReply::Result(
        CommandEveAsyncCompletionResult::PersistedUnknown {
            code: "explicit_unknown".to_owned(),
        },
    ));
    assert_eq!(unknown.status, AcpAsyncCompletionAckStatus::Rejected);
}

#[test]
fn async_completion_concurrency_saturation_is_retryable_before_dispatch() {
    let mut route = Route::with_completion();
    route.router.enable_async_completion().unwrap();
    route.bind_session("session-1").unwrap();
    assert!(matches!(
        route.complete(&completion_request("session-1"), false),
        CompletionStep::Retryable(Reason::ConsumerSaturated)
    ));
    assert_eq!(Reason::ConsumerSaturated.as_str(), "consumer_saturated");
}

#[test]
fn async_completion_reply_timeout_is_retryable_never_terminal_unknown() {
    let response = AcpAsyncCompletionResponse::of_reply(CompletionReply::TimedOut);
    assert_eq!(response.status, AcpAsyncCompletionAckStatus::Retryable);
    assert_eq!(response.code.as_deref(), Some("consumer_reply_timeout"));
}

#[test]
fn async_completion_dropped_consumer_reply_is_retryable_never_terminal_unknown() {
    let response = AcpAsyncCompletionResponse::of_reply(CompletionReply::Dropped);
    assert_eq!(response.status, AcpAsyncCompletionAckStatus::Retryable);
    assert_eq!(response.code.as_deref(), Some("consumer_reply_dropped"));
}

#[test]
fn async_completion_closed_consumer_channel_is_retryable() {
    assert_eq!(
        hand_over_refusal(HandOver::Closed).map(Reason::as_str),
        Some("consumer_unavailable")
    );
    assert_eq!(
        hand_over_refusal(HandOver::Full).map(Reason::as_str),
        Some("consumer_saturated")
    );
    assert_eq!(hand_over_refusal(HandOver::Sent), None);
    let response = AcpAsyncCompletionResponse::retryable("consumer_unavailable");
    assert_eq!(response.status, AcpAsyncCompletionAckStatus::Retryable);
    assert_eq!(response.code.as_deref(), Some("consumer_unavailable"));
}

#[test]
fn completion_is_refused_for_what_it_says() {
    let mut route = Route::with_completion();
    route.router.enable_async_completion().unwrap();
    route.bind_session("session-1").unwrap();
    let cases: [(fn(&mut AcpAsyncCompletionRequest), Reason); 5] = [
        (|request| request.version = "v0".to_owned(), Reason::UnsupportedVersion),
        (|request| request.completion_id = String::new(), Reason::InvalidCompletionId),
        (|request| request.session_id = "a\nb".to_owned(), Reason::InvalidSessionId),
        (|request| request.content = " \n ".to_owned(), Reason::InvalidContent),
        (
            |request| request.content = "x".repeat(MAX_ASYNC_COMPLETION_CONTENT_BYTES + 1),
            Reason::InvalidContent,
        ),
    ];
    for (change, expected) in cases {
        let mut request = completion_request("session-1");
        change(&mut request);
        match route.complete(&request, true) {
            CompletionStep::Rejected(reason) => assert_eq!(reason, expected),
            other => panic!("{expected:?}: {other:?}"),
        }
    }
    assert!(matches!(
        route.router.handle_async_completion_request(
            &route.binding,
            MAX_ASYNC_COMPLETION_PAYLOAD_BYTES + 1,
            None,
            true
        ),
        CompletionStep::Rejected(Reason::PayloadTooLarge)
    ));
    assert!(matches!(
        route
            .router
            .handle_async_completion_request(&route.binding, 1, None, true),
        CompletionStep::Rejected(Reason::InvalidShape)
    ));
    let unrouted = Route::new();
    assert!(matches!(
        unrouted.complete(&completion_request("session-1"), true),
        CompletionStep::MethodNotFound
    ));
    assert!(Route::new().router.enable_async_completion().is_err());
    assert_eq!(
        parse_completion(&json(
            r#"{"version":"v","completion_id":"c","session_id":"s","content":"x"}"#
        ))
        .unwrap()
        .completion_id,
        "c"
    );
    assert!(parse_completion(&json(r#"{"version":"v","completion_id":"c"}"#)).is_none());
}

#[test]
fn binding_lease_generation_tracks_the_session_lifecycle() {
    let mut route = Route::new();
    assert!(route.binding.lease().is_none());

    route.bind_session("session-1").unwrap();
    let first = route.binding.lease().unwrap();
    assert_eq!(first.session_id(), "session-1");
    assert!(route.binding.validate_lease(&first));

    assert!(route.bind_session("session-1").unwrap().is_none());
    assert_eq!(route.binding.lease().unwrap(), first);

    route.begin_session_binding();
    assert!(route.binding.lease().is_none());
    assert!(!route.binding.validate_lease(&first));

    route.bind_session("session-1").unwrap();
    let second = route.binding.lease().unwrap();
    assert_eq!(second.session_id(), "session-1");
    assert!(second.generation() > first.generation());
    assert!(route.binding.validate_lease(&second));
    assert!(!route.binding.validate_lease(&first));

    route.bind_session("session-2").unwrap();
    let third = route.binding.lease().unwrap();
    assert!(third.generation() > second.generation());
    assert!(!route.binding.validate_lease(&second));

    route.begin_session_close("session-2").unwrap();
    assert!(route.binding.lease().is_none());
    assert!(!route.binding.validate_lease(&third));

    route.bind_session("session-3").unwrap();
    let fourth = route.binding.lease().unwrap();
    route.cancel_all();
    assert!(route.binding.lease().is_none());
    assert!(!route.binding.validate_lease(&fourth));
}

#[test]
fn async_completion_stays_retryable_session_not_bound_during_the_binding_interval() {
    let mut route = Route::with_completion();
    route.router.enable_async_completion().unwrap();
    route.bind_session("session-1").unwrap();

    route.begin_session_binding();
    assert!(matches!(
        route.complete(&completion_request("session-1"), true),
        CompletionStep::Retryable(Reason::SessionNotBound)
    ));

    route.bind_session("session-1").unwrap();
    assert!(matches!(
        route.complete(&completion_request("session-1"), true),
        CompletionStep::Dispatch { kind: CommandEveAsyncCompletionDispatchKind::Apply, .. }
    ));
}

#[test]
fn close_fence_blocks_a_deferred_completion_before_it_can_admit_a_turn() {
    let mut route = Route::with_completion();
    route.router.enable_async_completion().unwrap();
    route.bind_session("session-1").unwrap();

    let gate = match route.complete(&completion_request("session-1"), true) {
        CompletionStep::Dispatch { lease, .. } => AcpSessionBindingTurnGate::new(lease),
        other => panic!("routed completion: {other:?}"),
    };
    route.begin_session_close("session-1").unwrap();
    assert!(route.binding.lease().is_none());
    assert!(gate.try_admit_turn(&mut route.binding).is_none());
    assert!(matches!(
        route.complete(&completion_request("session-1"), true),
        CompletionStep::Retryable(Reason::SessionNotBound)
    ));
}

#[test]
fn prompt_admission_router_rejects_bad_binding_wire_and_payload_without_consuming_the_ticket() {
    let mut route = Route::new();
    route.bind_session("session-router").unwrap();
    register_command_eve_prompt_admission(&mut route.admissions, "turn-router-wire", &"a".repeat(64))
        .unwrap();

    let wrong_session = route.wire(
        "turn-router-wire",
        "session-other",
        CommandEvePromptAdmissionPhase::Accept,
    );
    assert_eq!(
        route.prompt(&wrong_session),
        PromptAdmissionProgress::Answer { accepted: false }
    );
    assert!(command_eve_prompt_admission_for_turn(&route.admissions, "turn-router-wire").is_some());

    let oversized = "x".repeat(MAX_PROMPT_ADMISSION_PAYLOAD_BYTES + 1);
    match route.prompt_raw(&oversized, true) {
        PromptAdmissionProgress::Refused(error) => assert_eq!(error.code(), -32603),
        other => panic!("{other:?}"),
    }
    for invalid in [
        "{".to_owned(),
        format!(
            "{{\"version\":\"{COMMAND_EVE_PROMPT_ADMISSION_VERSION}\",\"request_id\":\"request\",\"turn_id\":\"turn\",\"receipt_sha256\":\"{}\",\"session_id\":\"session-router\",\"phase\":\"accept\",\"unexpected\":true}}",
            "a".repeat(64)
        ),
        format!(
            "{{\"version\":\"{COMMAND_EVE_PROMPT_ADMISSION_VERSION}\",\"request_id\":\"request\",\"turn_id\":\"turn\",\"receipt_sha256\":\"{}\",\"session_id\":\"session-router\",\"phase\":\"unknown\"}}",
            "a".repeat(64)
        ),
    ] {
        match route.prompt_raw(&invalid, true) {
            PromptAdmissionProgress::Refused(error) => assert_eq!(error.code(), -32603),
            other => panic!("{other:?}"),
        }
    }

    let accepted = route.wire(
        "turn-router-wire",
        "session-router",
        CommandEvePromptAdmissionPhase::Accept,
    );
    assert_eq!(
        route.prompt(&accepted),
        PromptAdmissionProgress::AnswerAccept { accepted: true }
    );
    forget_command_eve_prompt_admission(&mut route.admissions, "turn-router-wire");
}

/// Brings a registered turn as far as its finalize answer.
fn finalize(route: &mut Route, turn_id: &str, session_id: &str, delivered: bool) -> String {
    let accept = route.wire(turn_id, session_id, CommandEvePromptAdmissionPhase::Accept);
    assert_eq!(
        route.prompt(&accept),
        PromptAdmissionProgress::AnswerAccept { accepted: true }
    );
    assert!(after_accept(&mut route.admissions, &accept.request_id, session_id, true, true).is_none());
    let commit = route.wire(turn_id, session_id, CommandEvePromptAdmissionPhase::Commit);
    assert_eq!(
        route.prompt(&commit),
        PromptAdmissionProgress::AwaitDecision(CommandEvePromptAdmissionPhase::Commit)
    );
    assert!(
        before_commit_answer(&mut route.admissions, &commit.request_id, session_id, true).is_none()
    );
    assert!(
        after_commit_answer(&mut route.admissions, &commit.request_id, session_id, true, true)
            .is_none()
    );
    let finalize = route.wire(turn_id, session_id, CommandEvePromptAdmissionPhase::Finalize);
    assert_eq!(
        route.prompt(&finalize),
        PromptAdmissionProgress::AwaitDecision(CommandEvePromptAdmissionPhase::Finalize)
    );
    let wake = after_finalize_answer(
        &mut route.admissions,
        &finalize.request_id,
        session_id,
        true,
        delivered,
    );
    assert_eq!(wake.is_none(), delivered);
    if let Some(wake) = wake {
        assert_eq!(wake.waiter, AdmissionWaiter::PeerAck);
        assert!(wake.code.contains("PEER_ACK_UNAVAILABLE"));
    }
    finalize.request_id
}

#[test]
fn prompt_admission_router_requires_peer_ack_after_finalize_before_acceptance() {
    let mut route = Route::new();
    route.bind_session("session-router-race").unwrap();
    register_command_eve_prompt_admission(&mut route.admissions, "turn-router-race", &"b".repeat(64))
        .unwrap();
    let request_id = finalize(&mut route, "turn-router-race", "session-router-race", true);
    let request =
        command_eve_prompt_admission_for_turn(&route.admissions, "turn-router-race").unwrap();
    assert_eq!(
        claim_command_eve_prompt_admission(
            &mut route.admissions,
            &request,
            "session-router-race",
            true
        ),
        Err("request_in_progress")
    );

    let ack = route.wire(
        "turn-router-race",
        "session-router-race",
        CommandEvePromptAdmissionPhase::Ack,
    );
    assert_eq!(
        route.prompt(&ack),
        PromptAdmissionProgress::AwaitDecision(CommandEvePromptAdmissionPhase::Ack)
    );
    complete_command_eve_prompt_admission(
        &mut route.admissions,
        &request_id,
        "session-router-race",
        true,
    );
    assert_eq!(
        claim_command_eve_prompt_admission(
            &mut route.admissions,
            &request,
            "session-router-race",
            true
        ),
        Ok(CommandEvePromptAdmissionClaimResult::AlreadyAccepted)
    );
}

#[test]
fn prompt_admission_router_rolls_back_accept_commit_and_finalize_delivery_failures() {
    let session = "session-router-delivery";
    let mut route = Route::new();
    route.bind_session(session).unwrap();

    register_command_eve_prompt_admission(
        &mut route.admissions,
        "turn-router-accept-fail",
        &"c".repeat(64),
    )
    .unwrap();
    let accept = route.wire(
        "turn-router-accept-fail",
        session,
        CommandEvePromptAdmissionPhase::Accept,
    );
    assert_eq!(
        route.prompt(&accept),
        PromptAdmissionProgress::AnswerAccept { accepted: true }
    );
    let wake = after_accept(&mut route.admissions, &accept.request_id, session, true, false).unwrap();
    assert_eq!(wake.waiter, AdmissionWaiter::Claim);
    assert!(
        command_eve_prompt_admission_for_turn(&route.admissions, "turn-router-accept-fail")
            .is_none()
    );

    register_command_eve_prompt_admission(
        &mut route.admissions,
        "turn-router-commit-fail",
        &"d".repeat(64),
    )
    .unwrap();
    let accept = route.wire(
        "turn-router-commit-fail",
        session,
        CommandEvePromptAdmissionPhase::Accept,
    );
    route.prompt(&accept);
    let commit = route.wire(
        "turn-router-commit-fail",
        session,
        CommandEvePromptAdmissionPhase::Commit,
    );
    route.prompt(&commit);
    before_commit_answer(&mut route.admissions, &commit.request_id, session, true);
    let wake =
        after_commit_answer(&mut route.admissions, &commit.request_id, session, true, false).unwrap();
    assert_eq!(wake.waiter, AdmissionWaiter::Finalize);
    assert!(
        command_eve_prompt_admission_for_turn(&route.admissions, "turn-router-commit-fail")
            .is_none()
    );

    register_command_eve_prompt_admission(
        &mut route.admissions,
        "turn-router-finalize-fail",
        &"e".repeat(64),
    )
    .unwrap();
    finalize(&mut route, "turn-router-finalize-fail", session, false);
    assert!(
        command_eve_prompt_admission_for_turn(&route.admissions, "turn-router-finalize-fail")
            .is_none()
    );
}

#[test]
fn prompt_admission_router_connection_drop_before_peer_ack_is_typed_unavailable() {
    let mut route = Route::new();
    route.bind_session("session-router-drop").unwrap();
    register_command_eve_prompt_admission(&mut route.admissions, "turn-router-drop", &"f".repeat(64))
        .unwrap();
    finalize(&mut route, "turn-router-drop", "session-router-drop", true);

    let change = route.cancel_all();
    assert_eq!(change.wakes.len(), 1);
    assert_eq!(change.wakes[0].waiter, AdmissionWaiter::PeerAck);
    assert!(change.wakes[0].code.contains("PEER_ACK_UNAVAILABLE"));
    assert!(
        command_eve_prompt_admission_for_turn(&route.admissions, "turn-router-drop").is_none()
    );
}

#[test]
fn prompt_answers_are_framed_for_the_agent() {
    let accepted = prompt_admission_response("request-1", true);
    assert_eq!(accepted.version, COMMAND_EVE_PROMPT_ADMISSION_VERSION);
    assert_eq!(accepted.request_id, "request-1");
    assert_eq!(accepted.status, CommandEvePromptAdmissionStatus::Accepted);
    assert_eq!(
        prompt_admission_response("request-1", false).status,
        CommandEvePromptAdmissionStatus::Rejected
    );
}

#[test]
fn accepts_only_the_exact_allowlisted_method_and_emits_typed_event() {
    let mut route = Route::new();
    let disabled = route
        .read(ReadKind::Preview, &request("request-disabled", "session-1"))
        .unwrap_err();
    assert_eq!(disabled.code(), -32601);
    assert_eq!(disabled.reason(), None);
    route.router.enable_read_preview();
    route.bind_session("session-1").unwrap();

    assert_eq!(
        route_method(COMMAND_EVE_READ_PREVIEW_EXT_METHOD),
        Ok(ExtensionMethod::Read(ReadKind::Preview))
    );
    route
        .read(ReadKind::Preview, &request("request-1", "session-1"))
        .unwrap();
    assert_eq!(route.router.pending_count(), 1);
    assert!(route.respond(&response("request-1", "session-1"), 400).is_some());

    assert_eq!(route_method("command_eve/other").unwrap_err().code(), -32601);
}

#[test]
fn rejects_unknown_fields_versions_sessions_and_caps_without_pending_state() {
    let mut route = Route::new();
    route.router.enable_read_preview();
    route.bind_session("session-1").unwrap();

    for (invalid, reason) in [
        (
            format!("{{\"version\":\"{COMMAND_EVE_READ_PREVIEW_VERSION}\",\"request_id\":\"request-unknown-field\",\"session_id\":\"session-1\",\"surprise\":true}}"),
            Reason::InvalidShape,
        ),
        (
            "{\"version\":\"command-eve-read-preview/v2\",\"request_id\":\"request-version\",\"session_id\":\"session-1\"}".to_owned(),
            Reason::UnsupportedVersion,
        ),
        (
            format!("{{\"version\":\"{COMMAND_EVE_READ_PREVIEW_VERSION}\",\"request_id\":\"request-session\",\"session_id\":\"session-2\"}}"),
            Reason::SessionMismatch,
        ),
        (
            format!("{{\"version\":\"{COMMAND_EVE_READ_PREVIEW_VERSION}\",\"request_id\":\"request-start\",\"session_id\":\"session-1\",\"start\":{}}}", MAX_START + 1),
            Reason::StartOutOfRange,
        ),
        (
            format!("{{\"version\":\"{COMMAND_EVE_READ_PREVIEW_VERSION}\",\"request_id\":\"request-count\",\"session_id\":\"session-1\",\"count\":{}}}", MAX_COUNT + 1),
            Reason::CountOutOfRange,
        ),
        (
            format!("{{\"version\":\"{COMMAND_EVE_READ_PREVIEW_VERSION}\",\"request_id\":\"\",\"session_id\":\"session-1\"}}"),
            Reason::InvalidRequestId,
        ),
        (
            format!("{{\"version\":\"{COMMAND_EVE_READ_PREVIEW_VERSION}\",\"request_id\":\"request\",\"session_id\":\"{}\"}}", "s".repeat(257)),
            Reason::InvalidSessionId,
        ),
        ("x".repeat(MAX_REQUEST_PAYLOAD_BYTES + 1), Reason::PayloadTooLarge),
    ] {
        let error = route.read_raw(ReadKind::Preview, &invalid).unwrap_err();
        assert_eq!(error.code(), -32602);
        assert_eq!(error, RpcError::InvalidParams(reason), "{invalid}");
    }
    assert_eq!(route.router.pending_count(), 0);
}

#[test]
fn response_is_exactly_once_and_mismatch_does_not_consume_pending_request() {
    let mut route = Route::new();
    route.router.enable_read_preview();
    route.bind_session("session-1").unwrap();
    route
        .read(ReadKind::Preview, &request("request-1", "session-1"))
        .unwrap();

    let mut mismatched = response("request-1", "session-2");
    assert!(route.respond(&mismatched, 400).is_none());
    assert_eq!(route.router.pending_count(), 1);
    mismatched.session_id = "session-1".to_owned();
    assert!(route.respond(&mismatched, 400).is_some());
    assert!(route.respond(&mismatched, 400).is_none());
    assert_eq!(route.router.pending_count(), 0);
}

#[test]
fn duplicate_request_id_rejects_only_the_duplicate() {
    let mut route = Route::new();
    route.router.enable_read_preview();
    route.bind_session("session-1").unwrap();
    let value = request("request-1", "session-1");
    route.read(ReadKind::Preview, &value).unwrap();
    let duplicate = route.read(ReadKind::Preview, &value).unwrap_err();
    assert_eq!(duplicate.code(), -32602);
    assert_eq!(duplicate.reason(), Some(Reason::DuplicateRequestId));
    assert_eq!(route.router.pending_count(), 1);
    assert!(route.respond(&response("request-1", "session-1"), 400).is_some());
}

#[test]
fn rebind_close_and_cancel_fail_pending_requests_closed() {
    let mut route = Route::new();
    route.router.enable_read_preview();
    route.bind_session("session-1").unwrap();
    route
        .read(ReadKind::Preview, &request("request-rebind", "session-1"))
        .unwrap();
    let rebound = route.bind_session("session-2").unwrap().unwrap();
    assert_eq!(route.binding.bound_session_id().as_deref(), Some("session-2"));
    assert_eq!(rebound.cancelled.previews, vec!["request-rebind"]);

    route
        .read(ReadKind::Preview, &request("request-close", "session-2"))
        .unwrap();
    let closed = route.begin_session_close("session-2").unwrap();
    assert_eq!(route.binding.bound_session_id(), None);
    assert_eq!(closed.cancelled.previews, vec!["request-close"]);

    route.bind_session("session-3").unwrap();
    route
        .read(ReadKind::Preview, &request("request-cancel", "session-3"))
        .unwrap();
    let cancelled = route.cancel_all();
    assert_eq!(cancelled.cancelled.previews, vec!["request-cancel"]);
    assert_eq!(route.router.pending_count(), 0);
    assert_eq!(
        route
            .read(ReadKind::Preview, &request("request-late", "session-3"))
            .unwrap_err(),
        RpcError::MethodNotFound
    );
}

#[test]
fn timeout_consumes_request_once() {
    let mut route = Route::new();
    route.router.enable_read_preview();
    route.bind_session("session-1").unwrap();
    route
        .read(ReadKind::Preview, &request("request-timeout", "session-1"))
        .unwrap();
    assert!(!route
        .router
        .expire_pending(ReadKind::Preview, "request-timeout", "session-other"));
    assert!(route
        .router
        .expire_pending(ReadKind::Preview, "request-timeout", "session-1"));
    assert!(!route
        .router
        .expire_pending(ReadKind::Preview, "request-timeout", "session-1"));
    assert_eq!(RpcError::Internal(Reason::Timeout).code(), -32603);
    assert_eq!(route.router.pending_count(), 0);
    assert!(route
        .respond(&response("request-timeout", "session-1"), 400)
        .is_none());
}

#[test]
fn request_that_nobody_sees_is_given_up() {
    let mut route = Route::new();
    route.router.enable_read_preview();
    route.bind_session("session-1").unwrap();
    route
        .read(ReadKind::Preview, &request("request-unseen", "session-1"))
        .unwrap();
    assert!(route.router.reject_pending(ReadKind::Preview, "request-unseen"));
    assert!(!route.router.reject_pending(ReadKind::Preview, "request-unseen"));
    assert_eq!(Reason::RendererUnavailable.as_str(), "renderer_unavailable");
}

#[test]
fn response_redacts_secret_material_and_url_queries_before_acp_delivery() {
    let mut route = Route::new();
    route.router.enable_read_preview();
    route.bind_session("session-1").unwrap();
    let mut secret_request = request("request-secret", "session-1");
    secret_request.count = Some(200);
    route.read(ReadKind::Preview, &secret_request).unwrap();

    let mut value = response("request-secret", "session-1");
    let result = value.result.as_mut().unwrap();
    result.text =
        "Authorization: Bearer abcdefghijkl\nhttps://example.test/?api_key=hidden".to_owned();
    result.end = result.start + result.text.chars().count() as u32;
    result.total_chars = result.end;
    let answer = route.respond(&value, 400).unwrap();

    let raw = format!("{answer:?}");
    assert!(!raw.contains("abcdefghijkl"));
    assert!(!raw.contains("api_key=hidden"));
    assert!(!raw.contains("token=secret"));
    assert!(raw.contains("[redacted]"));
    let result = answer.result.unwrap();
    assert_eq!(result.url, "https://example.test/preview");
    assert_eq!(
        result.text,
        "Authorization: Bearer [redacted]\nhttps://example.test/?[redacted] [redacted]"
    );
}

#[test]
fn unicode_text_cap_counts_characters_while_json_cap_counts_bytes() {
    let mut route = Route::new();
    route.router.enable_read_preview();
    route.bind_session("session-1").unwrap();
    let mut unicode_request = request("request-unicode", "session-1");
    unicode_request.count = Some(MAX_COUNT);
    route.read(ReadKind::Preview, &unicode_request).unwrap();

    let mut value = response("request-unicode", "session-1");
    let result = value.result.as_mut().unwrap();
    result.text = "é".repeat(13_000);
    result.end = result.start + 13_000;
    result.total_chars = result.end;
    assert!(result.text.len() > 24_000, "fixture must exceed the old byte cap");
    let payload = result.text.len() + 400;
    assert!(route.respond(&value, MAX_RESPONSE_PAYLOAD_BYTES + 1).is_none());
    assert_eq!(route.router.pending_count(), 1);
    assert!(route.respond(&value, payload).is_some());
}

#[test]
fn preview_result_is_held_to_its_bounds() {
    let cases: [(fn(&mut AcpReadPreviewResponseRequest), &str); 11] = [
        (
            |value| value.version = "v0".to_owned(),
            "Unsupported ACP read_preview response version",
        ),
        (
            |value| value.session_id = String::new(),
            "Invalid ACP read_preview session_id",
        ),
        (
            |value| value.request_id = "unknown".to_owned(),
            "ACP read_preview request is unknown, expired, or already answered",
        ),
        (
            |value| value.result.as_mut().unwrap().url = "u".repeat(4097),
            "ACP read_preview url exceeds the payload cap",
        ),
        (
            |value| value.result.as_mut().unwrap().title = "t".repeat(513),
            "ACP read_preview title exceeds the payload cap",
        ),
        (
            |value| value.result.as_mut().unwrap().text = "t".repeat(24_001),
            "ACP read_preview text exceeds the character cap",
        ),
        (
            |value| value.result.as_mut().unwrap().note = Some("n".repeat(2049)),
            "ACP read_preview note exceeds the payload cap",
        ),
        (
            |value| value.result.as_mut().unwrap().path = Some("p".repeat(4097)),
            "ACP read_preview path exceeds the payload cap",
        ),
        (
            |value| value.result.as_mut().unwrap().end = 51,
            "ACP read_preview result offsets are out of range",
        ),
        (
            |value| value.result.as_mut().unwrap().start = 5,
            "ACP read_preview result start does not match the request",
        ),
        (
            |value| value.result.as_mut().unwrap().end = 17,
            "ACP read_preview result exceeds the requested window",
        ),
    ];
    for (change, message) in cases {
        let mut route = Route::new();
        route.router.enable_read_preview();
        route.bind_session("session-1").unwrap();
        route
            .read(ReadKind::Preview, &request("request-1", "session-1"))
            .unwrap();
        let mut value = response("request-1", "session-1");
        change(&mut value);
        let error = route
            .router
            .check_read_preview_response(Some("session-1"), &value)
            .unwrap_err();
        assert_eq!(error.message(), message);
        assert_eq!(route.router.pending_count(), 1);
    }
}
