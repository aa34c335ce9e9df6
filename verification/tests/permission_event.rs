use aionui_ai_agent::json::{json_to_string, JsonValue};
use aionui_ai_agent::permission_event::{
    attach_confirmation_authority_metadata, read_metadata, write_metadata, AcpPermissionEventData,
    AcpPermissionOptionData, AcpPermissionOptionKind, AcpPermissionRequestData,
    AcpPermissionToolCall, AcpToolCallKind, ConfirmationAuthorityMetadata,
    COMMAND_EVE_AUTHORITY_META_KEY,
};

fn json_value(value: serde_json::Value) -> JsonValue {
    match value {
        serde_json::Value::Null => JsonValue::Null,
        serde_json::Value::Bool(b) => JsonValue::Bool(b),
        serde_json::Value::Number(n) => JsonValue::Number(n.to_string()),
        serde_json::Value::String(s) => JsonValue::Text(s),
        serde_json::Value::Array(items) => {
            JsonValue::Array(items.into_iter().map(json_value).collect())
        }
        serde_json::Value::Object(entries) => {
            JsonValue::Object(entries.into_iter().map(|(key, value)| (key, json_value(value))).collect())
        }
    }
}

fn json(text: &str) -> JsonValue {
    json_value(serde_json::from_str(text).unwrap())
}

#[test]
fn edit_confirmation_projection_does_not_serialize_raw_arguments() {
    let request = AcpPermissionRequestData {
        session_id: "session-1".into(),
        tool_call: AcpPermissionToolCall {
            tool_call_id: "call-1".into(),
            status: None,
            title: Some("Edit file".into()),
            kind: Some(AcpToolCallKind::Edit),
            raw_input: Some(json(
                r#"{
                    "tool": "write_file",
                    "arguments": {
                        "path": "/tmp/example.txt",
                        "content": "sensitive-full-file-body"
                    }
                }"#,
            )),
            raw_output: None,
            content: None,
            locations: None,
            meta: None,
        },
        options: vec![AcpPermissionOptionData {
            option_id: "allow_once".into(),
            name: "Allow edit".into(),
            kind: AcpPermissionOptionKind::AllowOnce,
            meta: None,
        }],
        meta: None,
    };

    let confirmation = request.to_confirmation();
    assert_eq!(confirmation.description, "write_file");
    assert!(!confirmation.description.contains("sensitive-full-file-body"));
    assert_eq!(confirmation.command_type.as_deref(), Some("edit"));
    assert!(confirmation.authority.is_none());
    assert_eq!(confirmation.options.len(), 1);
    assert_eq!(confirmation.options[0].label, "Allow edit");
}

#[test]
fn malformed_or_mismatched_authority_meta_fails_closed() {
    let mut request = AcpPermissionRequestData {
        session_id: "session-1".into(),
        tool_call: AcpPermissionToolCall {
            tool_call_id: "call-1".into(),
            status: None,
            title: Some("Run command".into()),
            kind: Some(AcpToolCallKind::Execute),
            raw_input: Some(json(r#"{"command":"pwd"}"#)),
            raw_output: None,
            content: None,
            locations: None,
            meta: None,
        },
        options: vec![],
        meta: Some(vec![(
            COMMAND_EVE_AUTHORITY_META_KEY.to_owned(),
            json(r#"{"protocol_version":"not-a-number"}"#),
        )]),
    };
    assert!(request.to_confirmation().authority.is_none());

    request.meta = Some(vec![(
        COMMAND_EVE_AUTHORITY_META_KEY.to_owned(),
        json(&format!(
            r#"{{
                "protocol_version": 1,
                "operation_id": "different-call",
                "operation_digest": "{}",
                "confirmation_version": 1,
                "policy_revision": 1,
                "session_epoch": 1,
                "created_at_ms": 1,
                "expires_at_ms": 2,
                "lifecycle": "pending",
                "classification": "routine_terminal",
                "required_authority": null,
                "runtime_receipt_digest": "{}"
            }}"#,
            "a".repeat(64),
            "b".repeat(64)
        )),
    )]);
    assert!(request.to_confirmation().authority.is_none());
}

fn expected_metadata() -> ConfirmationAuthorityMetadata {
    ConfirmationAuthorityMetadata {
        protocol_version: 1,
        operation_id: "call-1".into(),
        operation_digest: "a".repeat(64),
        confirmation_version: 7,
        policy_revision: 5,
        session_epoch: 3,
        created_at_ms: 100,
        expires_at_ms: 200,
        lifecycle: "pending".into(),
        classification: "hg4".into(),
        required_authority: Some("founder".into()),
        runtime_receipt_digest: "b".repeat(64),
    }
}

#[test]
fn validated_authority_meta_projects_from_existing_request_meta() {
    let mut event = AcpPermissionEventData::Request(AcpPermissionRequestData {
        session_id: "session-1".into(),
        tool_call: AcpPermissionToolCall {
            tool_call_id: "call-1".into(),
            status: None,
            title: Some("Release operation".into()),
            kind: Some(AcpToolCallKind::Execute),
            raw_input: Some(json(r#"{"command":"opaque"}"#)),
            raw_output: None,
            content: None,
            locations: None,
            meta: None,
        },
        options: vec![],
        meta: None,
    });

    attach_confirmation_authority_metadata(&mut event, &expected_metadata());
    let confirmation = event.as_confirmation().unwrap();
    assert_eq!(confirmation.authority, Some(expected_metadata()));
    let request = match event {
        AcpPermissionEventData::Request(request) => request,
        _ => panic!("request event expected"),
    };
    assert_eq!(
        json_to_string(request.tool_call.raw_input.as_ref().unwrap()),
        r#"{"command":"opaque"}"#
    );
}

#[test]
fn metadata_is_read_back_as_it_was_written() {
    let written = write_metadata(&expected_metadata());
    assert_eq!(read_metadata(&written), Some(expected_metadata()));
    assert_eq!(read_metadata(&JsonValue::Null), None);
}
