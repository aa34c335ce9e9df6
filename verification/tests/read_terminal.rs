use aionui_ai_agent::async_completion::AcpSessionBinding;
use aionui_ai_agent::client_extensions::{
    AcpClientExtensionRouter, CancelledReads, ReadKind, ReadRequest, Reason, RpcError,
    COMMAND_EVE_READ_PREVIEW_VERSION, COMMAND_EVE_READ_TERMINAL_VERSION, MAX_COUNT,
    MAX_RESPONSE_PAYLOAD_BYTES, MAX_START,
};
use aionui_ai_agent::json::JsonValue;
use aionui_ai_agent::prompt_admission::AdmissionRegistry;
use aionui_ai_agent::read_terminal::{AcpReadTerminalResponseRequest, AcpReadTerminalResult};
use aionui_ai_agent::wire::parse_read_request;

fn json_value(value: serde_json::Value) -> JsonValue {
    match value {
        serde_json::Value::Null => JsonValue::Null,
        serde_json::Value::Bool(b) => JsonValue::Bool(b),
        serde_json::Value::Number(n) => JsonValue::Number(n.to_string()),
        serde_json::Value::String(s) => JsonValue::Text(s),
        serde_json::Value::Array(items) => {
            JsonValue::Array(items.into_iter().map(json_value).collect())
        }
        serde_json::Value::Object(entries) => {
            JsonValue::Object(entries.into_iter().map(|(key, value)| (key, json_value(value))).collect())
        }
    }
}

fn json(text: &str) -> JsonValue {
    json_value(serde_json::from_str(text).unwrap())
}

fn request(request_id: &str, session_id: &str) -> ReadRequest {
    ReadRequest {
        version: COMMAND_EVE_READ_TERMINAL_VERSION.to_owned(),
        request_id: request_id.to_owned(),
        session_id: session_id.to_owned(),
        start: Some(4),
        count: Some(12),
    }
}

fn preview(request_id: &str) -> ReadRequest {
    ReadRequest {
        version: COMMAND_EVE_READ_PREVIEW_VERSION.to_owned(),
        request_id: request_id.to_owned(),
        session_id: "session-1".to_owned(),
        start: None,
        count: None,
    }
}

fn response(request_id: &str, session_id: &str) -> AcpReadTerminalResponseRequest {
    AcpReadTerminalResponseRequest {
        version: COMMAND_EVE_READ_TERMINAL_VERSION.to_owned(),
        request_id: request_id.to_owned(),
        session_id: session_id.to_owned(),
        result: Some(AcpReadTerminalResult {
            total_lines: 50,
            start: 4,
            end: 7,
            viewport_rows: 24,
            cursor_row: 6,
            text: "line one\nline two\nline three".to_owned(),
        }),
    }
}

fn read(
    router: &mut AcpClientExtensionRouter,
    kind: ReadKind,
    request: &ReadRequest,
    bound: &str,
) -> Result<(), RpcError> {
    router.handle_read_request(kind, 100, Some(request), Some(bound))
}

fn respond(
    router: &mut AcpClientExtensionRouter,
    bound: &str,
    response: &AcpReadTerminalResponseRequest,
) -> Option<AcpReadTerminalResponseRequest> {
    let answer = router.check_read_terminal_response(Some(bound), response).ok()?;
    router
        .consume_read_terminal_response(&response.request_id, 400)
        .ok()?;
    Some(answer)
}

fn bind(
    router: &mut AcpClientExtensionRouter,
    binding: &mut AcpSessionBinding,
    admissions: &mut AdmissionRegistry,
    session_id: &str,
) -> CancelledReads {
    let previous = binding.bound_session_id();
    binding.request_transition(false);
    assert!(binding.try_enter_transition());
    let change = router
        .bind_session(binding, admissions, previous.as_deref(), session_id)
        .unwrap()
        .unwrap();
    binding.leave_transition(false);
    change.cancelled
}

#[test]
fn requires_explicit_enable_and_emits_the_typed_terminal_event() {
    let mut router = AcpClientExtensionRouter::new();
    let disabled = read(
        &mut router,
        ReadKind::Terminal,
        &request("request-disabled", "session-1"),
        "session-1",
    )
    .unwrap_err();
    assert_eq!(disabled.code(), -32601);

    router.enable_read_terminal();
    read(&mut router, ReadKind::Terminal, &request("request-1", "session-1"), "session-1").unwrap();
    assert_eq!(router.pending_terminal_count(), 1);
    let answer = respond(&mut router, "session-1", &response("request-1", "session-1")).unwrap();
    assert_eq!(answer, response("request-1", "session-1"));
}

#[test]
fn rejects_unknown_fields_versions_sessions_and_request_caps() {
    let mut router = AcpClientExtensionRouter::new();
    router.enable_read_terminal();
    for invalid in [
        format!("{{\"version\":\"{COMMAND_EVE_READ_TERMINAL_VERSION}\",\"request_id\":\"request-unknown-field\",\"session_id\":\"session-1\",\"surprise\":true}}"),
        "{\"version\":\"command-eve-read-terminal/v2\",\"request_id\":\"request-version\",\"session_id\":\"session-1\"}".to_owned(),
        format!("{{\"version\":\"{COMMAND_EVE_READ_TERMINAL_VERSION}\",\"request_id\":\"request-session\",\"session_id\":\"session-2\"}}"),
        format!("{{\"version\":\"{COMMAND_EVE_READ_TERMINAL_VERSION}\",\"request_id\":\"request-start\",\"session_id\":\"session-1\",\"start\":{}}}", MAX_START + 1),
        format!("{{\"version\":\"{COMMAND_EVE_READ_TERMINAL_VERSION}\",\"request_id\":\"request-count-zero\",\"session_id\":\"session-1\",\"count\":0}}"),
        format!("{{\"version\":\"{COMMAND_EVE_READ_TERMINAL_VERSION}\",\"request_id\":\"request-count-high\",\"session_id\":\"session-1\",\"count\":{}}}", MAX_COUNT + 1),
    ] {
        let parsed = parse_read_request(&json(&invalid));
        let error = router
            .handle_read_request(
                ReadKind::Terminal,
                invalid.len(),
                parsed.as_ref(),
                Some("session-1"),
            )
            .unwrap_err();
        assert_eq!(error.code(), -32602, "{invalid}");
    }
    assert_eq!(router.pending_terminal_count(), 0);
}

#[test]
fn duplicate_unknown_and_replayed_responses_fail_without_cross_method_confusion() {
    let mut router = AcpClientExtensionRouter::new();
    router.enable_read_terminal();
    router.enable_read_preview();
    let bound = "session-1";

    let value = request("request-1", "session-1");
    read(&mut router, ReadKind::Terminal, &value, bound).unwrap();
    assert_eq!(
        read(&mut router, ReadKind::Terminal, &value, bound).unwrap_err().code(),
        -32602
    );
    assert_eq!(
        read(&mut router, ReadKind::Preview, &preview("request-1"), bound),
        Err(RpcError::InvalidParams(Reason::DuplicateRequestId))
    );

    let mut mismatched = response("request-1", "session-2");
    assert!(respond(&mut router, bound, &mismatched).is_none());
    assert_eq!(router.pending_terminal_count(), 1);
    mismatched.session_id = "session-1".to_owned();
    assert!(respond(&mut router, bound, &mismatched).is_some());
    assert!(respond(&mut router, bound, &mismatched).is_none());
    assert!(respond(&mut router, bound, &response("unknown", "session-1")).is_none());
    assert_eq!(router.pending_terminal_count(), 0);

    read(&mut router, ReadKind::Preview, &preview("request-preview"), bound).unwrap();
    assert_eq!(
        read(
            &mut router,
            ReadKind::Terminal,
            &request("request-preview", "session-1"),
            bound
        )
        .unwrap_err()
        .code(),
        -32602
    );
    let change = router.cancel_all(&mut AcpSessionBinding::new(), &mut AdmissionRegistry::new());
    assert_eq!(change.cancelled.previews, vec!["request-preview"]);
    assert!(change.cancelled.terminals.is_empty());
}

#[test]
fn rebind_close_cancel_and_timeout_consume_terminal_requests_once() {
    let mut router = AcpClientExtensionRouter::new();
    let mut binding = AcpSessionBinding::new();
    let mut admissions = AdmissionRegistry::new();
    router.enable_read_terminal();
    bind(&mut router, &mut binding, &mut admissions, "session-1");

    read(&mut router, ReadKind::Terminal, &request("request-rebind", "session-1"), "session-1")
        .unwrap();
    let rebound = bind(&mut router, &mut binding, &mut admissions, "session-2");
    assert_eq!(rebound.terminals, vec!["request-rebind"]);

    read(&mut router, ReadKind::Terminal, &request("request-close", "session-2"), "session-2")
        .unwrap();
    binding.request_transition(true);
    assert!(binding.try_enter_transition());
    let closed = router
        .begin_session_close(&mut binding, &mut admissions, "session-2")
        .unwrap();
    binding.leave_transition(true);
    assert_eq!(closed.cancelled.terminals, vec!["request-close"]);

    bind(&mut router, &mut binding, &mut admissions, "session-3");
    read(&mut router, ReadKind::Terminal, &request("request-timeout", "session-3"), "session-3")
        .unwrap();
    assert!(router.expire_pending(ReadKind::Terminal, "request-timeout", "session-3"));
    assert!(!router.expire_pending(ReadKind::Terminal, "request-timeout", "session-3"));
    assert!(
        respond(&mut router, "session-3", &response("request-timeout", "session-3")).is_none()
    );

    read(&mut router, ReadKind::Terminal, &request("request-cancel", "session-3"), "session-3")
        .unwrap();
    let cancelled = router.cancel_all(&mut binding, &mut admissions);
    assert_eq!(cancelled.cancelled.terminals, vec!["request-cancel"]);
    assert_eq!(router.pending_terminal_count(), 0);
}

#[test]
fn result_bounds_payload_cap_and_redaction_fail_closed() {
    let mut router = AcpClientExtensionRouter::new();
    router.enable_read_terminal();
    let bound = "session-1";
    read(&mut router, ReadKind::Terminal, &request("request-result", "session-1"), bound).unwrap();

    let mut invalid = response("request-result", "session-1");
    invalid.result.as_mut().unwrap().start = 5;
    assert!(respond(&mut router, bound, &invalid).is_none());
    assert_eq!(router.pending_terminal_count(), 1);

    let mut control = response("request-result", "session-1");
    control.result.as_mut().unwrap().text = "plain\u{1b}[31m".to_owned();
    assert!(respond(&mut router, bound, &control).is_none());
    assert_eq!(router.pending_terminal_count(), 1);

    let mut oversized = response("request-result", "session-1");
    oversized.result.as_mut().unwrap().text = "é".repeat(17_000);
    assert!(router
        .check_read_terminal_response(Some(bound), &oversized)
        .is_ok());
    assert_eq!(
        router
            .consume_read_terminal_response("request-result", MAX_RESPONSE_PAYLOAD_BYTES + 1)
            .unwrap_err()
            .message(),
        "ACP read_terminal response exceeds the payload cap"
    );
    assert_eq!(router.pending_terminal_count(), 1);

    let mut valid = response("request-result", "session-1");
    valid.result.as_mut().unwrap().text =
        "Authorization: Bearer abcdefghijkl\nhttps://example.test/?api_key=hidden".to_owned();
    let answer = respond(&mut router, bound, &valid).unwrap();
    let wire = format!("{answer:?}");
    assert!(!wire.contains("abcdefghijkl"));
    assert!(!wire.contains("api_key=hidden"));
    assert!(wire.contains("[redacted]"));
}

#[test]
fn terminal_result_is_held_to_its_bounds() {
    let cases: [(fn(&mut AcpReadTerminalResult), &str); 7] = [
        (
            |result| result.text = "t".repeat(24_001),
            "ACP read_terminal text exceeds the character cap",
        ),
        (
            |result| result.text = "bell\u{7}".to_owned(),
            "ACP read_terminal text contains unsupported control characters",
        ),
        (
            |result| result.cursor_row = 51,
            "ACP read_terminal result offsets are out of range",
        ),
        (
            |result| result.viewport_rows = 0,
            "ACP read_terminal result offsets are out of range",
        ),
        (
            |result| result.start = 3,
            "ACP read_terminal result start does not match the request",
        ),
        (
            |result| result.end = 17,
            "ACP read_terminal result exceeds the requested window",
        ),
        (
            |result| result.text = "1\n2\n3\n4".to_owned(),
            "ACP read_terminal result exceeds the requested window",
        ),
    ];
    for (change, message) in cases {
        let mut router = AcpClientExtensionRouter::new();
        router.enable_read_terminal();
        read(&mut router, ReadKind::Terminal, &request("request-1", "session-1"), "session-1")
            .unwrap();
        let mut value = response("request-1", "session-1");
        change(value.result.as_mut().unwrap());
        let error = router
            .check_read_terminal_response(Some("session-1"), &value)
            .unwrap_err();
        assert_eq!(error.message(), message);
    }
}

#[test]
fn last_line_counts_with_or_without_its_line_feed() {
    let mut router = AcpClientExtensionRouter::new();
    router.enable_read_terminal();
    read(&mut router, ReadKind::Terminal, &request("request-1", "session-1"), "session-1").unwrap();
    let mut value = response("request-1", "session-1");
    value.result.as_mut().unwrap().text = "1\n2\n3\n".to_owned();
    assert!(router.check_read_terminal_response(Some("session-1"), &value).is_ok());
    value.result.as_mut().unwrap().text = "1\n2\n3\n4".to_owned();
    assert!(router.check_read_terminal_response(Some("session-1"), &value).is_err());
}

#[test]
fn read_request_is_an_exact_record() {
    let listed = parse_read_request(&json(r#"["v","r","s",null,7]"#)).unwrap();
    assert_eq!(
        listed,
        ReadRequest {
            version: "v".to_owned(),
            request_id: "r".to_owned(),
            session_id: "s".to_owned(),
            start: None,
            count: Some(7),
        }
    );
    for refused in [
        r#"{"version":"v","request_id":"r"}"#,
        r#"{"version":"v","request_id":"r","session_id":7}"#,
        r#"{"version":"v","request_id":"r","session_id":"s","start":-1}"#,
        r#"{"version":"v","request_id":"r","session_id":"s","start":1.5}"#,
        r#"{"version":"v","request_id":"r","session_id":"s","start":4294967296}"#,
        r#"["v","r","s",null]"#,
        r#""text""#,
    ] {
        assert!(parse_read_request(&json(refused)).is_none(), "{refused}");
    }
    assert!(parse_read_request(&JsonValue::Object(vec![
        ("version".to_owned(), JsonValue::Text("v".to_owned())),
        ("version".to_owned(), JsonValue::Text("v".to_owned())),
        ("request_id".to_owned(), JsonValue::Text("r".to_owned())),
        ("session_id".to_owned(), JsonValue::Text("s".to_owned())),
    ]))
    .is_none());
}
