use aionui_ai_agent::json::JsonValue;
use aionui_ai_agent::permission_event::{
    AcpPermissionOptionData, AcpPermissionOptionKind, AcpPermissionRequestData,
    AcpPermissionToolCall, Confirmation, ConfirmationOption,
};
use aionui_ai_agent::permission_operation::{
    auto_approve_option_id, command_eve_team_auto_approve_option_id, contain_command_eve_options,
    extract_mcp_server_name, operation_digest, permission_ttl_ms, OptionDisposition,
};
use aionui_ai_agent::permission_request::{
    PermissionOption, PermissionOptionKind, RequestPermissionRequest, ToolCallUpdate, ToolKind,
};
use aionui_ai_agent::permission_router::{
    build_command_eve_authority, CommandEveAuthority, PermissionRoute, PermissionRouter,
};

fn json_value(value: serde_json::Value) -> JsonValue {
    match value {
        serde_json::Value::Null => JsonValue::Null,
        serde_json::Value::Bool(b) => JsonValue::Bool(b),
        serde_json::Value::Number(n) => JsonValue::Number(n.to_string()),
        serde_json::Value::String(s) => JsonValue::Text(s),
        serde_json::Value::Array(items) => {
            JsonValue::Array(items.into_iter().map(json_value).collect())
        }
        serde_json::Value::Object(entries) => {
            JsonValue::Object(entries.into_iter().map(|(key, value)| (key, json_value(value))).collect())
        }
    }
}

fn json(text: &str) -> JsonValue {
    json_value(serde_json::from_str(text).unwrap())
}

fn request_of_kind(
    session_id: &str,
    tool_call_id: &str,
    kind: ToolKind,
    title: &str,
    raw_input: Option<JsonValue>,
    options: Vec<PermissionOption>,
) -> RequestPermissionRequest {
    RequestPermissionRequest {
        session_id: session_id.to_owned(),
        tool_call: ToolCallUpdate {
            tool_call_id: tool_call_id.to_owned(),
            kind: Some(kind),
            title: Some(title.to_owned()),
            raw_input,
        },
        options,
    }
}

fn permission_request_with_title_and_raw_input(
    title: &str,
    raw_input: Option<JsonValue>,
    options: Vec<PermissionOption>,
) -> RequestPermissionRequest {
    request_of_kind("session-1", "tool-1", ToolKind::Other, title, raw_input, options)
}

fn allow_always_option(option_id: &str) -> PermissionOption {
    PermissionOption::new(option_id, "Allow for this session", PermissionOptionKind::AllowAlways)
}

fn allow_once_option(option_id: &str) -> PermissionOption {
    PermissionOption::new(option_id, "Allow", PermissionOptionKind::AllowOnce)
}

fn allow_session_option(option_id: &str) -> PermissionOption {
    PermissionOption::new(option_id, "Allow for session", PermissionOptionKind::AllowAlways)
}

fn allow_permanent_option(option_id: &str) -> PermissionOption {
    PermissionOption::new(option_id, "Allow always", PermissionOptionKind::AllowAlways)
}

fn reject_option(option_id: &str) -> PermissionOption {
    PermissionOption::new(option_id, "Reject", PermissionOptionKind::RejectOnce)
}

fn reject_always_option(option_id: &str) -> PermissionOption {
    PermissionOption::new(option_id, "Reject always", PermissionOptionKind::RejectAlways)
}

fn event_data(request: &RequestPermissionRequest) -> AcpPermissionRequestData {
    AcpPermissionRequestData {
        session_id: request.session_id.clone(),
        tool_call: AcpPermissionToolCall {
            tool_call_id: request.tool_call.tool_call_id.clone(),
            status: None,
            title: request.tool_call.title.clone(),
            kind: None,
            raw_input: None,
            raw_output: None,
            content: None,
            locations: None,
            meta: None,
        },
        options: request
            .options
            .iter()
            .map(|option| AcpPermissionOptionData {
                option_id: option.option_id.clone(),
                name: option.name.clone(),
                kind: match option.kind {
                    PermissionOptionKind::AllowOnce => AcpPermissionOptionKind::AllowOnce,
                    PermissionOptionKind::AllowAlways => AcpPermissionOptionKind::AllowAlways,
                    PermissionOptionKind::RejectOnce => AcpPermissionOptionKind::RejectOnce,
                    PermissionOptionKind::RejectAlways => AcpPermissionOptionKind::RejectAlways,
                },
                meta: None,
            })
            .collect(),
        meta: None,
    }
}

fn command_eve_authority_for_test(grant_key: Option<&str>) -> CommandEveAuthority {
    CommandEveAuthority {
        grant_key: grant_key.map(str::to_owned),
        allow_once_option_id: Some("allow_once".to_owned()),
        reject_once_option_id: Some("deny".to_owned()),
        option_dispositions: vec![
            ("allow_once".to_owned(), OptionDisposition::AllowOnce),
            ("allow_session".to_owned(), OptionDisposition::ExactSession),
            ("allow_always".to_owned(), OptionDisposition::UnsupportedPermanent),
            ("deny".to_owned(), OptionDisposition::RejectOnce),
            ("deny_always".to_owned(), OptionDisposition::UnsupportedPermanent),
        ],
        gate: None,
    }
}

fn sample_confirmation(call_id: &str) -> Confirmation {
    Confirmation {
        id: call_id.to_owned(),
        call_id: call_id.to_owned(),
        title: Some("Write file".to_owned()),
        action: None,
        description: "Write /tmp/current_time.txt".to_owned(),
        command_type: Some("edit".to_owned()),
        options: vec![ConfirmationOption {
            label: "Allow".to_owned(),
            value: JsonValue::Text("allow_once".to_owned()),
            params: None,
        }],
        authority: None,
    }
}

#[test]
fn get_confirmations_returns_pending_acp_permission() {
    let mut router = PermissionRouter::new();
    router.register("tool-1", sample_confirmation("tool-1"), None, "conv-1", 1_000, None);

    let (confirmations, _) = router.get_confirmations(1_000);
    assert_eq!(confirmations.len(), 1);
    assert_eq!(confirmations[0].id, "tool-1");
    assert_eq!(confirmations[0].call_id, "tool-1");
    assert_eq!(confirmations[0].description, "Write /tmp/current_time.txt");
}

#[test]
fn confirm_removes_pending_confirmation_and_forwards_option() {
    let mut router = PermissionRouter::new();
    router.register("tool-1", sample_confirmation("tool-1"), None, "conv-1", 1_000, None);

    let (forwarded, _) = router.confirm("tool-1", "allow_once", 1_000, true);
    assert_eq!(forwarded.expect("confirm should succeed"), "allow_once");
    assert!(router.get_confirmations(1_000).0.is_empty());
}

#[test]
fn command_eve_containment_removes_permanent_options_but_keeps_exact_session_intent() {
    let request = permission_request_with_title_and_raw_input(
        "Execute command",
        Some(json(r#"{ "command": "echo bounded" }"#)),
        vec![
            allow_once_option("allow_once"),
            allow_session_option("allow_session"),
            allow_permanent_option("allow_always"),
            reject_option("deny"),
            reject_always_option("deny_always"),
        ],
    );
    let mut event = event_data(&request);

    contain_command_eve_options(&mut event, true, false);

    let option_ids = event
        .options
        .iter()
        .map(|option| option.option_id.as_str())
        .collect::<Vec<_>>();
    assert_eq!(option_ids, vec!["allow_once", "allow_session", "deny"]);
    assert_eq!(event.options[1].name, "Allow this exact request for this session");
}

#[test]
fn exact_session_intent_forwards_allow_once_and_records_only_the_local_digest() {
    let mut router = PermissionRouter::new();
    router.register(
        "tool-1",
        sample_confirmation("tool-1"),
        Some(command_eve_authority_for_test(Some("digest-1"))),
        "conv-1",
        1_000,
        None,
    );

    let (forwarded, _) = router.confirm("tool-1", "allow_session", 1_000, true);
    assert_eq!(forwarded.expect("exact-session intent should succeed"), "allow_once");
    assert!(router.has_session_grant("digest-1"));
    assert!(router.get_confirmations(1_000).0.is_empty());
}

#[test]
fn permanent_intent_is_rejected_without_consuming_the_pending_request() {
    let mut router = PermissionRouter::new();
    router.register(
        "tool-1",
        sample_confirmation("tool-1"),
        Some(command_eve_authority_for_test(Some("digest-1"))),
        "conv-1",
        1_000,
        None,
    );

    let error = router
        .confirm("tool-1", "allow_always", 1_000, true)
        .0
        .expect_err("permanent intent must fail closed");

    assert!(error.message().contains("Permanent allow/deny is unavailable"));
    assert_eq!(router.get_confirmations(1_000).0.len(), 1);
}

#[test]
fn expired_command_eve_permission_is_disabled_and_rejects_late_confirmation() {
    let mut router = PermissionRouter::new();
    router.register(
        "tool-1",
        sample_confirmation("tool-1"),
        Some(command_eve_authority_for_test(Some("digest-1"))),
        "conv-1",
        1_000,
        Some(1),
    );

    let (confirmations, notices) = router.get_confirmations(1_002);
    assert_eq!(confirmations.len(), 1);
    assert_eq!(confirmations[0].action.as_deref(), Some("expired"));
    assert!(confirmations[0].options.is_empty());
    assert_eq!(notices.len(), 1);
    assert!(notices[0].responder_open, "the waiting request is cancelled");
    assert_eq!(notices[0].confirmation.action.as_deref(), Some("expired"));

    let error = router
        .confirm("tool-1", "allow_once", 1_002, true)
        .0
        .expect_err("late confirmation must not report success");
    assert!(error.message().contains("expired"));
}

#[test]
fn operation_digest_ignores_call_id_but_binds_payload_workspace_mode_and_session() {
    fn request(tool_call_id: &str, session_id: &str, command: &str) -> RequestPermissionRequest {
        request_of_kind(
            session_id,
            tool_call_id,
            ToolKind::Execute,
            "Execute command",
            Some(json(&format!("{{ \"command\": \"{command}\" }}"))),
            vec![allow_once_option("allow_once"), allow_session_option("allow_session")],
        )
    }

    let first = request("call-1", "session-1", "echo bounded");
    let repeated = request("call-2", "session-1", "echo bounded");
    let changed = request("call-3", "session-1", "echo changed");

    let first_digest = operation_digest("/tmp/workspace", "hermes", "default", &first);
    assert_eq!(
        first_digest,
        operation_digest("/tmp/workspace", "hermes", "default", &repeated)
    );
    assert_ne!(
        first_digest,
        operation_digest("/tmp/workspace", "hermes", "default", &changed)
    );
    assert_ne!(
        first_digest,
        operation_digest("/tmp/other", "hermes", "default", &first)
    );
    assert_ne!(
        first_digest,
        operation_digest("/tmp/workspace", "hermes", "dont_ask", &first)
    );
    assert_ne!(
        first_digest,
        operation_digest(
            "/tmp/workspace",
            "hermes",
            "default",
            &request("call-4", "session-2", "echo bounded"),
        )
    );
    assert_eq!(first_digest.len(), 64);
}

#[test]
fn operation_digest_ignores_the_order_of_the_fields() {
    let first = permission_request_with_title_and_raw_input(
        "Execute command",
        Some(JsonValue::Object(vec![
            ("b".to_owned(), JsonValue::Null),
            ("a".to_owned(), JsonValue::Bool(true)),
        ])),
        vec![],
    );
    let second = permission_request_with_title_and_raw_input(
        "Execute command",
        Some(JsonValue::Object(vec![
            ("a".to_owned(), JsonValue::Bool(true)),
            ("b".to_owned(), JsonValue::Null),
        ])),
        vec![],
    );
    assert_eq!(
        operation_digest("/w", "hermes", "default", &first),
        operation_digest("/w", "hermes", "default", &second)
    );
}

#[test]
fn command_eve_authority_is_hermes_scoped_and_requires_matching_acknowledged_session_state() {
    let request = permission_request_with_title_and_raw_input(
        "Execute command",
        Some(json(r#"{ "command": "echo bounded" }"#)),
        vec![allow_once_option("allow_once"), allow_session_option("allow_session")],
    );

    assert!(
        build_command_eve_authority(
            Some("codex"),
            Some("session-1"),
            Some("default"),
            "/tmp/workspace",
            &request,
        )
        .is_none(),
        "shared ACP backends must retain their existing manual semantics"
    );

    let authority = build_command_eve_authority(
        Some("hermes"),
        Some("session-1"),
        Some("default"),
        "/tmp/workspace",
        &request,
    )
    .expect("Hermes is the authenticated Command EVE backend");
    assert!(authority.grant_key.is_some());

    let wrong_session = build_command_eve_authority(
        Some("hermes"),
        Some("session-other"),
        Some("default"),
        "/tmp/workspace",
        &request,
    )
    .expect("Hermes request still remains visible and manual");
    assert!(wrong_session.grant_key.is_none());

    let unknown_mode = build_command_eve_authority(
        Some("hermes"),
        Some("session-1"),
        None,
        "/tmp/workspace",
        &request,
    )
    .expect("missing classification/state asks rather than auto-approving");
    assert!(unknown_mode.grant_key.is_none());
}

#[test]
fn auto_approve_matches_claude_team_mcp_title_prefix() {
    let request = permission_request_with_title_and_raw_input(
        "mcp__aionui-team__team_members",
        None,
        vec![allow_always_option("allow_always"), reject_option("reject")],
    );

    assert!(auto_approve_option_id(&request).is_some());
    assert_eq!(extract_mcp_server_name(&request).as_deref(), Some("aionui-team"));
}

#[test]
fn auto_approve_matches_codex_raw_input_server_name() {
    let request = permission_request_with_title_and_raw_input(
        "Approve MCP tool call",
        Some(json(
            r#"{
                "server_name": "aionui-team",
                "request": {
                    "_meta": {
                        "codex_approval_kind": "mcp_tool_call"
                    }
                }
            }"#,
        )),
        vec![
            allow_once_option("approved"),
            allow_always_option("approved-for-session"),
            allow_always_option("approved-always"),
            reject_option("cancel"),
        ],
    );

    assert!(auto_approve_option_id(&request).is_some());
}

#[test]
fn auto_approve_rejects_non_team_mcp_server() {
    let request = permission_request_with_title_and_raw_input(
        "Approve MCP tool call",
        Some(json(r#"{ "server_name": "aionui-image-generation" }"#)),
        vec![allow_always_option("approved-for-session"), reject_option("cancel")],
    );

    assert!(auto_approve_option_id(&request).is_none());
}

#[test]
fn auto_approve_selects_first_codex_allow_always_option() {
    let request = permission_request_with_title_and_raw_input(
        "Approve MCP tool call",
        Some(json(r#"{ "server_name": "aionui-team" }"#)),
        vec![
            allow_once_option("approved"),
            allow_always_option("approved-for-session"),
            allow_always_option("approved-always"),
            reject_option("cancel"),
        ],
    );

    assert_eq!(
        auto_approve_option_id(&request).as_deref(),
        Some("approved-for-session")
    );
}

#[test]
fn command_eve_team_auto_approval_never_forwards_session_or_permanent_allow() {
    let request = permission_request_with_title_and_raw_input(
        "Approve MCP tool call",
        Some(json(r#"{ "server_name": "aionui-team" }"#)),
        vec![
            allow_once_option("allow_once"),
            allow_session_option("allow_session"),
            allow_permanent_option("allow_always"),
        ],
    );

    assert_eq!(
        command_eve_team_auto_approve_option_id(&request).as_deref(),
        Some("allow_once")
    );
}

#[test]
fn auto_approve_selects_claude_allow_always_by_kind() {
    let request = permission_request_with_title_and_raw_input(
        "mcp__aionui-team-guide__guide_write_plan",
        None,
        vec![
            allow_always_option("allow_always"),
            allow_once_option("allow"),
            reject_option("reject"),
        ],
    );

    assert_eq!(auto_approve_option_id(&request).as_deref(), Some("allow_always"));
}

#[test]
fn auto_approve_selects_first_available_allow_always_option() {
    let request = permission_request_with_title_and_raw_input(
        "Approve MCP tool call",
        Some(json(r#"{ "server_name": "aionui-team" }"#)),
        vec![
            allow_always_option("custom-allow-always"),
            allow_once_option("custom-allow-once"),
        ],
    );

    assert_eq!(auto_approve_option_id(&request).as_deref(), Some("custom-allow-always"));
}

#[test]
fn auto_approve_returns_none_when_team_mcp_has_no_allow_option() {
    let request = permission_request_with_title_and_raw_input(
        "Approve MCP tool call",
        Some(json(r#"{ "server_name": "aionui-team" }"#)),
        vec![reject_option("cancel")],
    );

    assert_eq!(auto_approve_option_id(&request), None);
}

#[test]
fn confirm_missing_permission_returns_specific_error() {
    let mut router = PermissionRouter::new();

    let error = router
        .confirm("missing-tool", "allow_once", 1_000, true)
        .0
        .expect_err("missing permission should fail");

    assert!(error
        .message()
        .contains("Pending ACP permission not found: missing-tool"));
}

#[test]
fn cancel_all_removes_pending_confirmations() {
    let mut router = PermissionRouter::new();
    router.register("tool-1", sample_confirmation("tool-1"), None, "conv-1", 1_000, None);

    let notices = router.cancel_all();

    assert_eq!(notices.len(), 1);
    assert!(router.get_confirmations(1_000).0.is_empty());
}

#[test]
fn undelivered_answer_is_an_error() {
    let mut router = PermissionRouter::new();
    router.register("tool-1", sample_confirmation("tool-1"), None, "conv-1", 1_000, None);
    let (result, notices) = router.confirm("tool-1", "allow_once", 1_000, false);
    assert!(result.unwrap_err().message().contains("expired"));
    assert_eq!(notices.len(), 1);
    assert!(!notices[0].responder_open);
    assert_eq!(notices[0].confirmation.action.as_deref(), Some("expired"));
}

#[test]
fn team_request_is_answered_and_any_other_is_asked() {
    let router = PermissionRouter::new();
    let team = permission_request_with_title_and_raw_input(
        "mcp__aionui-team__team_members",
        None,
        vec![allow_always_option("allow_always"), reject_option("reject")],
    );
    assert!(matches!(
        router.route_request(&team, None, 1_000),
        PermissionRoute::Answer { option_id } if option_id == "allow_always"
    ));
    let other = permission_request_with_title_and_raw_input(
        "Write file",
        None,
        vec![allow_once_option("allow_once")],
    );
    assert!(matches!(router.route_request(&other, None, 1_000), PermissionRoute::Ask));
}

#[test]
fn permission_lives_as_long_as_its_request_says() {
    let request = permission_request_with_title_and_raw_input("t", None, vec![]);
    assert!(permission_ttl_ms(&request) > 0);
}
