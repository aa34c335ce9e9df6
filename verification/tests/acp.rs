use aionui_ai_agent::acp::{
    build_initialize_request, is_streaming_chunk, notification_log_level, permission_outcome,
    request_log_level, wire_method, AcpConnectionEvent, AcpConnectionPhase, AcpLogLevel,
    AcpLogSummary, PermissionDecision, ReplaySuppression, ReplaySuppressionGuard,
    COMMAND_EVE_ASYNC_COMPLETION_CAPABILITY_VERSION,
};
use aionui_ai_agent::json::json_to_string;

#[test]
fn replay_suppression_guard_sets_and_clears_flag() {
    let mut flag = ReplaySuppression::new();
    assert!(!flag.is_active());

    {
        let guard = ReplaySuppressionGuard::new(&mut flag);
        assert!(flag.is_active());
        guard.end(&mut flag);
    }

    assert!(!flag.is_active());
}

#[test]
fn log_agent_notify_filters_streaming_chunks_and_omits_raw_body() {
    let chunk = r#"{"sessionId":"s1","update":{"sessionUpdate":"agent_message_chunk","content":{"type":"text","text":"hidden stream text"}}}"#;
    let mode = r#"{"sessionId":"s1","update":{"sessionUpdate":"current_mode_update","modeId":"yolo"}}"#;
    assert_eq!(
        notification_log_level("session/update", is_streaming_chunk(chunk)),
        AcpLogLevel::Debug
    );
    assert_eq!(
        notification_log_level("session/update", is_streaming_chunk(mode)),
        AcpLogLevel::Info
    );
    let summary = AcpLogSummary::from_payload(mode);
    assert_eq!(
        summary,
        AcpLogSummary {
            payload_bytes: mode.len(),
            payload_json: true,
            session_id: Some("s1".to_owned()),
            session_update_kind: Some("current_mode_update".to_owned()),
        }
    );
    let shown = format!("{summary:?}");
    assert!(!shown.contains("modeId") && !shown.contains("yolo"));
    assert!(!format!("{:?}", AcpLogSummary::from_payload(chunk)).contains("hidden stream text"));
}

#[test]
fn log_client_request_omits_prompt_body_even_at_debug_level() {
    let body = r#"{"sessionId":"s1","prompt":[{"type":"text","text":"secret prompt text"}]}"#;
    assert_eq!(request_log_level("session/prompt"), AcpLogLevel::Debug);
    assert_eq!(request_log_level("session/new"), AcpLogLevel::Info);
    let shown = format!("{:?}", AcpLogSummary::from_payload(body));
    assert!(shown.contains("payload_bytes"));
    assert!(!shown.contains("secret prompt text") && !shown.contains("\"prompt\""));
}

#[test]
fn is_streaming_chunk_recognises_prompt_stream_kinds() {
    let body_chunk = r#"{"sessionId":"s1","update":{"sessionUpdate":"agent_message_chunk","content":{"type":"text","text":"hi"}}}"#;
    let mode_update = r#"{"sessionId":"s1","update":{"sessionUpdate":"current_mode_update","modeId":"yolo"}}"#;
    let unknown = r#"{"sessionId":"s1","update":{"sessionUpdate":"future_unknown_kind"}}"#;
    let malformed = "not json";

    assert!(is_streaming_chunk(body_chunk));
    assert!(!is_streaming_chunk(mode_update));
    assert!(!is_streaming_chunk(unknown), "unknown kinds default to keep");
    assert!(!is_streaming_chunk(malformed), "malformed bodies default to keep");
    for kind in [
        "agent_thought_chunk",
        "user_message_chunk",
        "tool_call",
        "tool_call_update",
        "plan",
    ] {
        assert!(is_streaming_chunk(&format!(
            "{{\"update\":{{\"sessionUpdate\":\"{kind}\"}}}}"
        )));
    }
}

#[test]
fn initialize_request_sends_non_empty_client_info() {
    let req = build_initialize_request(false);

    let client_info = &req.client_info;
    assert_eq!(client_info.name, "AionUi");
    assert!(!client_info.name.is_empty(), "client name must not be empty");
    assert!(!client_info.version.is_empty(), "client version must not be empty");
    assert!(
        req.capabilities_meta.is_none(),
        "ordinary ACP clients must not advertise Command EVE async completion"
    );
}

#[test]
fn initialize_request_advertises_async_completion_only_for_a_configured_route() {
    let enabled = build_initialize_request(true);
    assert_eq!(
        json_to_string(enabled.capabilities_meta.as_ref().unwrap()),
        format!(
            "{{\"command_eve\":{{\"async_completion\":{{\"version\":{COMMAND_EVE_ASYNC_COMPLETION_CAPABILITY_VERSION}}}}}}}"
        )
    );

    let disabled = build_initialize_request(false);
    assert!(disabled.capabilities_meta.is_none());
}

#[test]
fn summary_of_what_is_no_json_names_nothing() {
    let summary = AcpLogSummary::from_payload("{\"sessionId\":\"s1\"");
    assert!(!summary.payload_json);
    assert_eq!(summary.payload_bytes, 17);
    assert_eq!(summary.session_id, None);
    let snake = AcpLogSummary::from_payload("{\"session_id\":\"s2\",\"update\":{\"session_update\":\"plan\"}}");
    assert_eq!(snake.session_id.as_deref(), Some("s2"));
    assert_eq!(snake.session_update_kind.as_deref(), Some("plan"));
}

#[test]
fn connection_goes_through_its_phases() {
    let (phase, on) = AcpConnectionPhase::Starting.after(AcpConnectionEvent::HandshakeSent);
    assert_eq!((phase, on), (AcpConnectionPhase::Initializing, true));
    assert_eq!(
        phase.after(AcpConnectionEvent::HandshakeAnswered { succeeded: false }),
        (AcpConnectionPhase::Initializing, false)
    );
    let (phase, on) = phase.after(AcpConnectionEvent::HandshakeAnswered { succeeded: true });
    assert!(on);
    let (phase, on) = phase.after(AcpConnectionEvent::Published { owned: true });
    assert_eq!((phase, on), (AcpConnectionPhase::Ready, true));
    assert_eq!(
        phase.after(AcpConnectionEvent::Released),
        (AcpConnectionPhase::ShuttingDown, false)
    );
}

#[test]
fn undecided_permission_is_a_refusal() {
    assert_eq!(
        permission_outcome(Some(PermissionDecision::Selected {
            option_id: "allow_once".to_owned()
        })),
        Some("allow_once".to_owned())
    );
    assert_eq!(permission_outcome(Some(PermissionDecision::Cancelled)), None);
    assert_eq!(permission_outcome(None), None);
}

#[test]
fn extension_methods_are_marked_on_the_wire() {
    assert_eq!(wire_method("command_eve/read_preview"), "_command_eve/read_preview");
}
