use aionui_ai_agent::agent_reconcile::{
    prepare_command_eve_policy_change_state, PolicyChangeOrigin, PolicyPreparation,
};
use aionui_ai_agent::classifier::{classify_request, PathRules};
use aionui_ai_agent::identifiers::{ModeId, SessionId};
use aionui_ai_agent::json::{json_to_string, JsonValue};
use aionui_ai_agent::permission_authority::{
    decide, DecisionInput, OperationClass, PermissionDecision, PermissionMode, PolicyGateError,
    PolicySnapshot, RequiredAuthority, RuntimeCapabilityReceipt, TrustedClassification,
};
use aionui_ai_agent::permission_event::{
    read_metadata, write_metadata, AcpPermissionOptionData, AcpPermissionOptionKind,
    AcpPermissionRequestData, AcpPermissionToolCall, Confirmation, ConfirmationOption,
};
use aionui_ai_agent::permission_operation::{contain_command_eve_options, OptionDisposition};
use aionui_ai_agent::permission_request::{
    PermissionOption, PermissionOptionKind, RequestPermissionRequest, ToolCallUpdate, ToolKind,
};
use aionui_ai_agent::permission_router::{
    attach_authority_challenge, build_gated_authority, refused_confirmation, AutoAllow,
    CommandEveAuthority, ConfirmationLifecycle, ConfirmationPrincipalContext, ConfirmationResponseResult, OperationGate,
    PermissionRoute, PermissionRouter, SessionGrant, COMMAND_EVE_AUTHORITY_CHALLENGE_META_KEY,
    MAX_TERMINAL_CONFIRMATION_HISTORY,
};
use aionui_ai_agent::session::{AcpSession, CatalogEntry, SessionModeState};
use aionui_ai_agent::text_map::TextMap;

fn json_value(value: serde_json::Value) -> JsonValue {
    match value {
        serde_json::Value::Null => JsonValue::Null,
        serde_json::Value::Bool(b) => JsonValue::Bool(b),
        serde_json::Value::Number(n) => JsonValue::Number(n.to_string()),
        serde_json::Value::String(s) => JsonValue::Text(s),
        serde_json::Value::Array(items) => {
            JsonValue::Array(items.into_iter().map(json_value).collect())
        }
        serde_json::Value::Object(entries) => {
            JsonValue::Object(entries.into_iter().map(|(key, value)| (key, json_value(value))).collect())
        }
    }
}

fn json(text: &str) -> JsonValue {
    json_value(serde_json::from_str(text).unwrap())
}

fn modes(names: &[(&str, &str)]) -> SessionModeState {
    SessionModeState {
        current_mode_id: "default".to_owned(),
        available_modes: names.iter().map(|(id, name)| CatalogEntry::new(id, name)).collect(),
    }
}

fn policy(mode: PermissionMode) -> PolicySnapshot {
    let mut session = AcpSession::new(Some(ModeId::new(mode.as_str())), None, TextMap::new());
    assert!(session.apply_command_eve_runtime_hello(RuntimeCapabilityReceipt::test_receipt()));
    assert!(session.apply_command_eve_transport_modes(modes(&[("default", "Ask")])));
    session.set_session_id(SessionId::new("session-1"));
    assert!(session.acknowledge_command_eve_policy(ModeId::new(mode.as_str())).is_some());
    session.begin_command_eve_turn().unwrap()
}

fn authority(class: OperationClass, mode: PermissionMode, digest: &str) -> CommandEveAuthority {
    let policy = policy(mode);
    let classification = TrustedClassification::new(class);
    let decision = decide(DecisionInput {
        mode,
        classification,
        explicit_deny: false,
        exact_grant: false,
        authority_receipt_verified: false,
        capabilities: policy.capabilities,
    });
    CommandEveAuthority {
        grant_key: Some(digest.to_owned()),
        allow_once_option_id: Some("allow_once".to_owned()),
        reject_once_option_id: Some("deny".to_owned()),
        option_dispositions: vec![
            ("allow_once".to_owned(), OptionDisposition::AllowOnce),
            ("allow_session".to_owned(), OptionDisposition::ExactSession),
            ("allow_always".to_owned(), OptionDisposition::UnsupportedPermanent),
            ("deny".to_owned(), OptionDisposition::RejectOnce),
            ("deny_always".to_owned(), OptionDisposition::UnsupportedPermanent),
        ],
        gate: Some(OperationGate {
            operation_digest: digest.to_owned(),
            policy: Some(policy),
            classification,
            decision,
            grant_eligible: matches!(
                class,
                OperationClass::RoutineEdit | OperationClass::RoutineTerminal
            ),
            authority_nonce: if matches!(class, OperationClass::Hg35 | OperationClass::Hg4) {
                Some(format!("nonce-{digest}"))
            } else {
                None
            },
        }),
    }
}

fn policy_of(authority: &CommandEveAuthority) -> PolicySnapshot {
    authority.gate.as_ref().unwrap().policy.clone().expect("bound policy")
}

fn confirmation(call_id: &str) -> Confirmation {
    Confirmation {
        id: call_id.to_owned(),
        call_id: call_id.to_owned(),
        title: Some("Bound operation".to_owned()),
        action: None,
        description: "Bound operation".to_owned(),
        command_type: Some("execute".to_owned()),
        options: vec![ConfirmationOption {
            label: "Allow".to_owned(),
            value: JsonValue::Text("allow_once".to_owned()),
            params: None,
        }],
        authority: None,
    }
}

const NOW: u64 = 1_000_000;

fn insert(router: &mut PermissionRouter, call_id: &str, authority: CommandEveAuthority) {
    router.register(
        call_id,
        confirmation(call_id),
        Some(authority),
        "conv-1",
        NOW,
        Some(60_000),
    );
}

fn answer(
    router: &mut PermissionRouter,
    call_id: &str,
    option_id: &str,
    conversation_id: &str,
) -> (ConfirmationResponseResult, Option<String>) {
    let (result, forwarded, _) =
        router.confirm_result(call_id, option_id, conversation_id, NOW, true);
    (result, forwarded)
}

fn side_effects(forwarded: &Option<String>) -> usize {
    if forwarded.as_deref() == Some("allow_once") {
        1
    } else {
        0
    }
}

fn superseding_policy(authority: &CommandEveAuthority) -> PolicySnapshot {
    let mut snapshot = policy_of(authority);
    snapshot.policy_revision += 1;
    snapshot.session_epoch += 1;
    snapshot
}

fn edit_request(session_id: &str, call_id: &str) -> RequestPermissionRequest {
    RequestPermissionRequest {
        session_id: session_id.to_owned(),
        tool_call: ToolCallUpdate {
            tool_call_id: call_id.to_owned(),
            kind: Some(ToolKind::Edit),
            title: None,
            raw_input: Some(json(r#"{"tool":"write_file","arguments":{"path":"safe.txt"}}"#)),
        },
        options: vec![PermissionOption::new(
            "allow_once",
            "Allow",
            PermissionOptionKind::AllowOnce,
        )],
    }
}

fn event_data(request: &RequestPermissionRequest, raw: Option<JsonValue>) -> AcpPermissionRequestData {
    AcpPermissionRequestData {
        session_id: request.session_id.clone(),
        tool_call: AcpPermissionToolCall {
            tool_call_id: request.tool_call.tool_call_id.clone(),
            status: None,
            title: request.tool_call.title.clone(),
            kind: None,
            raw_input: raw,
            raw_output: None,
            content: None,
            locations: None,
            meta: None,
        },
        options: request
            .options
            .iter()
            .map(|option| AcpPermissionOptionData {
                option_id: option.option_id.clone(),
                name: option.name.clone(),
                kind: match option.kind {
                    PermissionOptionKind::AllowOnce => AcpPermissionOptionKind::AllowOnce,
                    PermissionOptionKind::AllowAlways => AcpPermissionOptionKind::AllowAlways,
                    PermissionOptionKind::RejectOnce => AcpPermissionOptionKind::RejectOnce,
                    PermissionOptionKind::RejectAlways => AcpPermissionOptionKind::RejectAlways,
                },
                meta: None,
            })
            .collect(),
        meta: None,
    }
}

#[test]
fn unknown_call_returns_unknown_confirmation() {
    let mut router = PermissionRouter::new();
    assert_eq!(
        answer(&mut router, "missing", "allow_once", "conv-1").0,
        ConfirmationResponseResult::UnknownConfirmation
    );
}

#[test]
fn wrong_conversation_is_denied_without_forwarding() {
    let mut router = PermissionRouter::new();
    insert(
        &mut router,
        "cross-conversation",
        authority(OperationClass::RoutineEdit, PermissionMode::Default, "digest-cross"),
    );
    let (result, forwarded) =
        answer(&mut router, "cross-conversation", "allow_once", "conv-other");
    assert_eq!(result, ConfirmationResponseResult::WrongSession);
    assert!(forwarded.is_none());
}

#[test]
fn same_decision_is_idempotent_and_forwards_once() {
    let mut router = PermissionRouter::new();
    insert(
        &mut router,
        "idem",
        authority(OperationClass::RoutineEdit, PermissionMode::Default, "digest-idem"),
    );
    let (first, forwarded) = answer(&mut router, "idem", "allow_once", "conv-1");
    assert_eq!(first, ConfirmationResponseResult::Applied);
    let mut count = side_effects(&forwarded);
    let (second, forwarded) = answer(&mut router, "idem", "allow_once", "conv-1");
    assert_eq!(second, ConfirmationResponseResult::IdempotentSameDecision);
    count += side_effects(&forwarded);
    assert_eq!(count, 1);
}

#[test]
fn different_decision_conflicts_after_first_apply() {
    let mut router = PermissionRouter::new();
    insert(
        &mut router,
        "race",
        authority(OperationClass::RoutineEdit, PermissionMode::Default, "digest-race"),
    );
    let (first, forwarded) = answer(&mut router, "race", "allow_once", "conv-1");
    assert_eq!(first, ConfirmationResponseResult::Applied);
    assert!(forwarded.is_some());
    let (second, forwarded) = answer(&mut router, "race", "deny", "conv-1");
    assert_eq!(second, ConfirmationResponseResult::ConflictDifferentDecision);
    assert!(forwarded.is_none());
}

#[test]
fn restart_epoch_supersedes_pending_and_late_response_is_denied() {
    let mut router = PermissionRouter::new();
    let old_authority =
        authority(OperationClass::RoutineEdit, PermissionMode::Default, "digest-restart");
    let restarted = superseding_policy(&old_authority);
    insert(&mut router, "restart", old_authority);
    let notices = router.apply_policy_snapshot(restarted);
    assert_eq!(notices.len(), 1);
    assert!(notices[0].responder_open);
    assert_eq!(
        answer(&mut router, "restart", "allow_once", "conv-1").0,
        ConfirmationResponseResult::ConflictDifferentDecision
    );
    let (cards, _) = router.get_confirmations(NOW);
    assert_eq!(cards[0].action.as_deref(), Some("superseded"));
}

#[test]
fn tampered_classification_and_mode_fields_cannot_elevate_unknown_operation() {
    let request = RequestPermissionRequest {
        session_id: "session-1".to_owned(),
        tool_call: ToolCallUpdate {
            tool_call_id: "tampered".to_owned(),
            kind: Some(ToolKind::Execute),
            title: None,
            raw_input: Some(json(
                r#"{
                    "command": "python3 -c 'print(1)'",
                    "classification": "routine_terminal",
                    "mode": "dont_ask"
                }"#,
            )),
        },
        options: vec![PermissionOption::new(
            "allow_once",
            "Allow",
            PermissionOptionKind::AllowOnce,
        )],
    };
    let built = build_gated_authority(
        Some("hermes"),
        Some(policy(PermissionMode::Default)),
        "/tmp/workspace",
        "/tmp/workspace",
        &PathRules::Posix,
        false,
        &request,
        "nonce",
    )
    .unwrap();
    let gate = built.gate.as_ref().unwrap();
    assert_eq!(gate.classification.class, OperationClass::Unknown);
    let snapshot = gate.policy.as_ref().unwrap();
    let decision = decide(DecisionInput {
        mode: snapshot.mode,
        classification: gate.classification,
        explicit_deny: false,
        exact_grant: false,
        authority_receipt_verified: false,
        capabilities: snapshot.capabilities,
    });
    assert_ne!(decision, PermissionDecision::Allow);
    assert_eq!(decision, PermissionDecision::AskWithOwner(RequiredAuthority::User));
}

#[test]
fn hard_block_manual_allow_is_denied_with_zero_side_effects() {
    let mut router = PermissionRouter::new();
    insert(
        &mut router,
        "hard-block",
        authority(OperationClass::HardBlocked, PermissionMode::DontAsk, "digest-hard"),
    );
    let (result, forwarded) = answer(&mut router, "hard-block", "allow_once", "conv-1");
    assert_eq!(result, ConfirmationResponseResult::ConflictDifferentDecision);
    assert_eq!(side_effects(&forwarded), 0);
}

#[test]
fn hg4_normal_allow_is_denied_but_authenticated_founder_resumes_exactly_once() {
    let mut router = PermissionRouter::new();
    insert(
        &mut router,
        "hg4",
        authority(OperationClass::Hg4, PermissionMode::DontAsk, "digest-hg4"),
    );
    let (result, forwarded) = answer(&mut router, "hg4", "allow_once", "conv-1");
    assert_eq!(result, ConfirmationResponseResult::ConflictDifferentDecision);
    assert!(forwarded.is_none());

    let remote_user = ConfirmationPrincipalContext::for_authenticated_user("remote-user");
    let (result, forwarded, _) =
        router.confirm_authority_as("hg4", "conv-1", &remote_user, NOW, true);
    assert!(result.is_err());
    assert!(forwarded.is_none());

    let remote_default_user =
        ConfirmationPrincipalContext::for_authenticated_user("system_default_user");
    let (result, forwarded, _) =
        router.confirm_authority_as("hg4", "conv-1", &remote_default_user, NOW, true);
    assert!(result.is_err());
    assert!(forwarded.is_none());

    let founder = ConfirmationPrincipalContext::for_local_capability("system_default_user");
    let (result, forwarded, _) =
        router.confirm_authority_as("hg4", "conv-1", &founder, NOW, true);
    assert_eq!(result.unwrap(), ConfirmationResponseResult::Applied);
    let mut count = side_effects(&forwarded);
    let (result, forwarded, _) =
        router.confirm_authority_as("hg4", "conv-1", &founder, NOW, true);
    assert_eq!(result.unwrap(), ConfirmationResponseResult::IdempotentSameDecision);
    count += side_effects(&forwarded);
    assert_eq!(count, 1);

    let receipt = router.authority_receipt_of("hg4").unwrap();
    assert_eq!(receipt.operation_digest, "digest-hg4");
    assert_eq!(receipt.required_level, RequiredAuthority::Founder);
    assert_eq!(receipt.principal, "system_default_user");
    assert_eq!(router.used_authority_nonce_count(), 1);
}

#[test]
fn missing_responder_does_not_consume_human_gate_nonce() {
    let mut router = PermissionRouter::new();
    insert(
        &mut router,
        "missing-responder",
        authority(OperationClass::Hg4, PermissionMode::DontAsk, "digest-no-responder"),
    );
    let founder = ConfirmationPrincipalContext::for_local_capability("system_default_user");
    let (result, forwarded, _) =
        router.confirm_authority_as("missing-responder", "conv-1", &founder, NOW, false);
    assert!(result.is_err());
    assert!(forwarded.is_none());
    assert_eq!(router.used_authority_nonce_count(), 0);
}

#[test]
fn high_gate_challenge_metadata_preserves_original_operation() {
    let raw = r#"{"command":"xcrun notarytool submit app.zip"}"#;
    let request = RequestPermissionRequest {
        session_id: "session-1".to_owned(),
        tool_call: ToolCallUpdate {
            tool_call_id: "hg4-meta".to_owned(),
            kind: Some(ToolKind::Execute),
            title: Some("Notarize release".to_owned()),
            raw_input: Some(json(raw)),
        },
        options: vec![
            PermissionOption::new("allow_once", "Allow", PermissionOptionKind::AllowOnce),
            PermissionOption::new("deny", "Deny", PermissionOptionKind::RejectOnce),
        ],
    };
    let mut built = build_gated_authority(
        Some("hermes"),
        Some(policy(PermissionMode::Default)),
        "/tmp/workspace",
        "/tmp/workspace",
        &PathRules::Posix,
        false,
        &request,
        "nonce-meta",
    )
    .unwrap();
    {
        let gate = built.gate.as_mut().unwrap();
        gate.decision = PermissionDecision::RequireAuthority(RequiredAuthority::Founder);
        gate.authority_nonce = Some("nonce-meta".to_owned());
    }
    let mut event = event_data(&request, Some(json(raw)));
    contain_command_eve_options(&mut event, false, true);
    attach_authority_challenge(&mut event, &built);
    assert_eq!(json_to_string(event.tool_call.raw_input.as_ref().unwrap()), raw);
    let meta = JsonValue::Object(event.tool_call.meta.unwrap());
    assert_eq!(
        meta.get("command_eve_authority_challenge")
            .and_then(|challenge| challenge.get_str("single_use_nonce")),
        Some("nonce-meta")
    );
}

#[test]
fn spoofed_team_mcp_identity_remains_unknown() {
    let request = RequestPermissionRequest {
        session_id: "session-1".to_owned(),
        tool_call: ToolCallUpdate {
            tool_call_id: "spoofed-team".to_owned(),
            kind: Some(ToolKind::Other),
            title: Some("mcp__aionui-team__team_members".to_owned()),
            raw_input: Some(json(r#"{"server_name":"aionui-team"}"#)),
        },
        options: vec![],
    };
    assert_eq!(
        classify_request(&request, "/tmp/workspace", &PathRules::Posix, false).class,
        OperationClass::Unknown
    );
}

#[test]
fn c7_s1_mode_matrix_edit_terminal_has_expected_side_effect_counts() {
    let cases = [
        (PermissionMode::Default, OperationClass::RoutineEdit, 0),
        (PermissionMode::Default, OperationClass::RoutineTerminal, 0),
        (PermissionMode::AcceptEdits, OperationClass::RoutineEdit, 1),
        (PermissionMode::AcceptEdits, OperationClass::RoutineTerminal, 0),
        (PermissionMode::DontAsk, OperationClass::RoutineEdit, 1),
        (PermissionMode::DontAsk, OperationClass::RoutineTerminal, 1),
    ];
    for (index, (mode, class, expected)) in cases.into_iter().enumerate() {
        let authority = authority(class, mode, &format!("s1-{index}"));
        let router = PermissionRouter::new();
        let forwarded = match authority.gate.as_ref().unwrap().decision {
            PermissionDecision::Allow => authority.allow_once_option_id.clone(),
            _ => None,
        };
        assert_eq!(side_effects(&forwarded), expected, "{mode:?}/{class:?}");
        let routed = router.route_request(
            &edit_request("session-1", &format!("s1-{index}")),
            Some(&authority),
            NOW,
        );
        assert_eq!(matches!(routed, PermissionRoute::Ask), expected == 0, "{mode:?}/{class:?}");
    }
}

#[test]
fn c7_s2_guarded_is_unavailable_without_full_receipt_and_enabled_with_it() {
    let mut unavailable = AcpSession::new(Some(ModeId::new("guarded")), None, TextMap::new());
    assert!(unavailable.apply_command_eve_runtime_hello(RuntimeCapabilityReceipt::test_receipt()));
    unavailable.apply_command_eve_transport_modes(modes(&[
        ("default", "Ask"),
        ("guarded", "Guarded Auto"),
    ]));
    unavailable.set_session_id(SessionId::new("session-guarded-off"));
    assert_eq!(
        unavailable.ensure_command_eve_mode_available("guarded"),
        Err(PolicyGateError::GuardedAutoUnavailable)
    );
    assert!(unavailable
        .acknowledge_command_eve_policy(ModeId::new("guarded"))
        .is_none());
    assert!(!unavailable.command_eve_policy_acknowledged());
    assert_eq!(
        unavailable.config_snapshot().option_current("mode").as_deref(),
        Some("default")
    );
    assert!(unavailable.plan_reconcile().is_empty());
    assert!(unavailable.begin_command_eve_turn().is_err());

    let mut enabled = AcpSession::new(Some(ModeId::new("guarded")), None, TextMap::new());
    assert!(
        enabled.apply_command_eve_runtime_hello(RuntimeCapabilityReceipt::test_guarded_receipt())
    );
    enabled.apply_command_eve_transport_modes(modes(&[
        ("default", "Ask"),
        ("guarded", "Guarded Auto"),
    ]));
    enabled.set_session_id(SessionId::new("session-guarded-on"));
    assert!(enabled.acknowledge_command_eve_policy(ModeId::new("guarded")).is_some());
    let snapshot = enabled.begin_command_eve_turn().unwrap();
    assert!(snapshot.capabilities.guarded_auto_proven());
    assert_eq!(
        enabled.config_snapshot().option_current("mode").as_deref(),
        Some("guarded")
    );
}

#[test]
fn c7_s3_recovery_returns_one_pending_card_without_execution() {
    let mut router = PermissionRouter::new();
    insert(
        &mut router,
        "s3",
        authority(OperationClass::RoutineEdit, PermissionMode::Default, "digest-s3"),
    );
    assert_eq!(router.get_confirmations(NOW).0.len(), 1);
    assert_eq!(router.get_confirmations(NOW).0.len(), 1);
    assert_eq!(router.lifecycle_of("s3"), Some(ConfirmationLifecycle::Pending));
}

#[test]
fn c7_pending_recovery_exposes_complete_safe_authority_metadata() {
    let mut router = PermissionRouter::new();
    let digest = "d".repeat(64);
    let bound = authority(OperationClass::RoutineEdit, PermissionMode::Default, &digest);
    let expected_policy = policy_of(&bound);
    insert(&mut router, "metadata-recovery", bound);

    let (cards, _) = router.get_confirmations(NOW);
    assert_eq!(cards.len(), 1);
    let metadata = cards[0].authority.as_ref().expect("Command EVE metadata");
    assert_eq!(metadata.protocol_version, 1);
    assert_eq!(metadata.operation_id, "metadata-recovery");
    assert_eq!(metadata.operation_digest, digest);
    assert!(metadata.confirmation_version > 0);
    assert_eq!(metadata.policy_revision, expected_policy.policy_revision);
    assert_eq!(metadata.session_epoch, expected_policy.session_epoch);
    assert!(metadata.created_at_ms <= metadata.expires_at_ms);
    assert_eq!(metadata.lifecycle, "pending");
    assert_eq!(metadata.classification, "routine_edit");
    assert_eq!(metadata.required_authority, None);
    assert_eq!(
        metadata.runtime_receipt_digest,
        expected_policy.runtime_receipt.receipt_digest
    );

    let wire = write_metadata(metadata);
    assert_eq!(read_metadata(&wire).as_ref(), Some(metadata));
}

#[test]
fn c7_s4_expiry_and_late_response_produce_zero_side_effects() {
    let mut router = PermissionRouter::new();
    router.register(
        "s4",
        confirmation("s4"),
        Some(authority(OperationClass::RoutineTerminal, PermissionMode::Default, "digest-s4")),
        "conv-1",
        NOW - 2,
        Some(1),
    );
    assert_eq!(
        router.get_confirmations(NOW).0[0].action.as_deref(),
        Some("expired")
    );
    let (result, forwarded) = answer(&mut router, "s4", "allow_once", "conv-1");
    assert_eq!(result, ConfirmationResponseResult::Expired);
    assert_eq!(side_effects(&forwarded), 0);
}

#[test]
fn c7_s5_exact_grant_matches_only_digest_revision_and_epoch() {
    let mut router = PermissionRouter::new();
    insert(
        &mut router,
        "s5",
        authority(OperationClass::RoutineEdit, PermissionMode::Default, "digest-s5"),
    );
    let (result, forwarded) = answer(&mut router, "s5", "allow_session", "conv-1");
    assert_eq!(result, ConfirmationResponseResult::Applied);
    assert_eq!(forwarded.as_deref(), Some("allow_once"));
    let grant_authority =
        authority(OperationClass::RoutineEdit, PermissionMode::Default, "digest-s5");
    assert!(router.has_valid_session_grant(&grant_authority, NOW));

    let changed =
        authority(OperationClass::RoutineEdit, PermissionMode::Default, "digest-s5-changed");
    assert!(!router.has_valid_session_grant(&changed, NOW));
    let mut changed_policy = grant_authority;
    changed_policy
        .gate
        .as_mut()
        .unwrap()
        .policy
        .as_mut()
        .unwrap()
        .policy_revision += 1;
    assert!(!router.has_valid_session_grant(&changed_policy, NOW));
}

#[test]
fn c7_s6_runtime_restart_cancels_pending_and_revokes_session_grants() {
    let mut router = PermissionRouter::new();
    insert(
        &mut router,
        "s6-grant",
        authority(OperationClass::RoutineEdit, PermissionMode::Default, "digest-s6-grant"),
    );
    let (result, forwarded) = answer(&mut router, "s6-grant", "allow_session", "conv-1");
    assert_eq!(result, ConfirmationResponseResult::Applied);
    assert!(forwarded.is_some());
    insert(
        &mut router,
        "s6-pending",
        authority(OperationClass::RoutineTerminal, PermissionMode::Default, "digest-s6-pending"),
    );
    let notices = router.cancel_all();
    assert_eq!(router.session_grant_count(), 0);
    assert!(notices
        .iter()
        .any(|notice| notice.call_id == "s6-pending" && notice.responder_open));
    assert_eq!(
        answer(&mut router, "s6-pending", "allow_once", "conv-1").0,
        ConfirmationResponseResult::ConflictDifferentDecision
    );
}

#[test]
fn c7_s7_policy_and_multiwindow_race_applies_at_most_once() {
    same_decision_is_idempotent_and_forwards_once();
    different_decision_conflicts_after_first_apply();
    restart_epoch_supersedes_pending_and_late_response_is_denied();
}

#[test]
fn grant_of_a_superseded_policy_does_not_survive() {
    let mut router = PermissionRouter::new();
    let old_authority =
        authority(OperationClass::RoutineEdit, PermissionMode::Default, "manual-race-digest");
    let new_policy = superseding_policy(&old_authority);
    insert(&mut router, "manual-policy-race", old_authority);
    let (result, forwarded) =
        answer(&mut router, "manual-policy-race", "allow_session", "conv-1");
    assert_eq!(result, ConfirmationResponseResult::Applied);
    assert_eq!(forwarded.as_deref(), Some("allow_once"));
    router.apply_policy_snapshot(new_policy.clone());
    assert_eq!(router.current_policy(), Some(&new_policy));
    assert_eq!(router.session_grant_count(), 0);
}

#[test]
fn founder_allow_before_a_policy_change_leaves_no_grant() {
    let mut router = PermissionRouter::new();
    let old_authority =
        authority(OperationClass::Hg4, PermissionMode::DontAsk, "founder-race-digest");
    let new_policy = superseding_policy(&old_authority);
    insert(&mut router, "founder-policy-race", old_authority);
    let founder = ConfirmationPrincipalContext::for_local_capability("system_default_user");
    let (result, forwarded, _) =
        router.confirm_authority_as("founder-policy-race", "conv-1", &founder, NOW, true);
    assert_eq!(result.unwrap(), ConfirmationResponseResult::Applied);
    assert_eq!(forwarded.as_deref(), Some("allow_once"));
    router.apply_policy_snapshot(new_policy.clone());
    assert_eq!(router.current_policy(), Some(&new_policy));
    assert_eq!(router.session_grant_count(), 0);
}

#[test]
fn automatic_allow_of_a_superseded_policy_has_no_side_effect() {
    let mut router = PermissionRouter::new();
    let old_authority =
        authority(OperationClass::RoutineEdit, PermissionMode::DontAsk, "auto-race-digest");
    assert_eq!(
        old_authority.gate.as_ref().unwrap().decision,
        PermissionDecision::Allow
    );
    let old_policy = policy_of(&old_authority);
    let new_policy = superseding_policy(&old_authority);
    router.apply_policy_snapshot(old_policy.clone());
    router.insert_session_grant(
        "auto-race-digest",
        SessionGrant {
            policy_revision: old_policy.policy_revision,
            session_epoch: old_policy.session_epoch,
            expires_at_ms: Some(NOW + 60_000),
            revoked: false,
        },
    );
    assert!(matches!(
        router.resolve_command_eve_auto_allow(&old_authority, true, NOW),
        AutoAllow::Answer { option_id } if option_id == "allow_once"
    ));
    router.apply_policy_snapshot(new_policy.clone());
    assert_eq!(router.current_policy(), Some(&new_policy));
    assert_eq!(router.session_grant_count(), 0);
    let stale = router.resolve_command_eve_auto_allow(&old_authority, true, NOW);
    assert!(matches!(stale, AutoAllow::Superseded));
    let card = refused_confirmation(confirmation("auto-policy-race"), stale.refusal().unwrap());
    assert_eq!(card.action.as_deref(), Some("superseded"));
    assert!(card.options.is_empty());
    let route =
        router.route_request(&edit_request("session-1", "auto-policy-race"), Some(&old_authority), NOW);
    assert!(matches!(route, PermissionRoute::Superseded));
    assert_eq!(route.refusal(), Some(ConfirmationLifecycle::Superseded));
}

#[test]
fn expired_exact_grant_routes_to_a_visible_ask() {
    let mut router = PermissionRouter::new();
    let mut bound =
        authority(OperationClass::RoutineEdit, PermissionMode::Default, "expiring-grant-digest");
    let policy = policy_of(&bound);
    router.apply_policy_snapshot(policy.clone());
    router.insert_session_grant(
        "expiring-grant-digest",
        SessionGrant {
            policy_revision: policy.policy_revision,
            session_epoch: policy.session_epoch,
            expires_at_ms: Some(NOW - 1),
            revoked: false,
        },
    );
    assert!(matches!(
        router.resolve_command_eve_auto_allow(&bound, true, NOW),
        AutoAllow::Ask
    ));
    bound.gate.as_mut().unwrap().decision = PermissionDecision::Ask;
    insert(&mut router, "expiring-grant", bound);
    assert_eq!(router.get_confirmations(NOW).0.len(), 1);
    assert_eq!(router.session_grant_count(), 0);
}

#[test]
fn mode_change_revokes_the_old_authority_before_the_transport_answers() {
    let mut session = AcpSession::new(Some(ModeId::new("dont_ask")), None, TextMap::new());
    assert!(session.apply_command_eve_runtime_hello(RuntimeCapabilityReceipt::test_receipt()));
    assert!(session.apply_command_eve_transport_modes(modes(&[("default", "Ask")])));
    session.set_session_id(SessionId::new("delayed-policy-session"));
    let old_policy = session
        .acknowledge_command_eve_policy(ModeId::new("dont_ask"))
        .unwrap();
    assert!(session.begin_command_eve_turn().is_ok());

    let mut router = PermissionRouter::new();
    router.apply_policy_snapshot(old_policy.clone());
    router.insert_session_grant(
        "delayed-exact-grant",
        SessionGrant {
            policy_revision: old_policy.policy_revision,
            session_epoch: old_policy.session_epoch,
            expires_at_ms: Some(NOW + 60_000),
            revoked: false,
        },
    );
    let mut manual_authority =
        authority(OperationClass::RoutineEdit, PermissionMode::DontAsk, "delayed-manual");
    {
        let gate = manual_authority.gate.as_mut().unwrap();
        gate.policy = Some(old_policy.clone());
        gate.decision = PermissionDecision::Ask;
    }
    insert(&mut router, "delayed-manual", manual_authority);

    let (preparation, notices) = prepare_command_eve_policy_change_state(
        &mut session,
        &mut router,
        "delayed-policy-session",
        "default",
        PolicyChangeOrigin::Operator,
    );
    assert_eq!(preparation, PolicyPreparation::Ready);
    assert!(router.current_policy().is_none());
    assert_eq!(router.session_grant_count(), 0);
    assert!(notices
        .iter()
        .any(|notice| notice.call_id == "delayed-manual" && notice.responder_open));
    assert_eq!(
        session.begin_command_eve_turn(),
        Err(PolicyGateError::PolicyPending)
    );

    let mut auto_authority =
        authority(OperationClass::RoutineEdit, PermissionMode::DontAsk, "old-auto-during-transport");
    {
        let gate = auto_authority.gate.as_mut().unwrap();
        gate.policy = Some(old_policy);
        gate.decision = PermissionDecision::Allow;
    }
    assert!(matches!(
        router.resolve_command_eve_auto_allow(&auto_authority, false, NOW),
        AutoAllow::Superseded
    ));
    assert_eq!(
        answer(&mut router, "delayed-manual", "allow_once", "conv-1").0,
        ConfirmationResponseResult::ConflictDifferentDecision
    );

    assert!(session.apply_command_eve_transport_mode(ModeId::new("default")));
    let snapshot = session
        .acknowledge_command_eve_policy(ModeId::new("default"))
        .unwrap();
    router.apply_policy_snapshot(snapshot);
    assert_eq!(
        router.current_policy().map(|policy| policy.mode),
        Some(PermissionMode::Default)
    );
}

#[test]
fn c7_s8_human_gates_unknown_and_hard_block_never_bypass_authority() {
    hard_block_manual_allow_is_denied_with_zero_side_effects();
    hg4_normal_allow_is_denied_but_authenticated_founder_resumes_exactly_once();

    let unknown = authority(OperationClass::Unknown, PermissionMode::DontAsk, "digest-s8-unknown");
    assert_eq!(unknown.gate.unwrap().decision, PermissionDecision::Ask);
    let hg35 = authority(OperationClass::Hg35, PermissionMode::DontAsk, "digest-s8-hg35");
    assert_eq!(
        hg35.gate.unwrap().decision,
        PermissionDecision::RequireAuthority(RequiredAuthority::Proxy)
    );
}

fn execute_request(call_id: &str, command: &str) -> RequestPermissionRequest {
    RequestPermissionRequest {
        session_id: "session-unbound".to_owned(),
        tool_call: ToolCallUpdate {
            tool_call_id: call_id.to_owned(),
            kind: Some(ToolKind::Execute),
            title: Some("Execute".to_owned()),
            raw_input: Some(json(&format!("{{\"command\":\"{command}\"}}"))),
        },
        options: vec![
            PermissionOption::new("allow_once", "Allow", PermissionOptionKind::AllowOnce),
            PermissionOption::new("deny", "Deny", PermissionOptionKind::RejectOnce),
        ],
    }
}

#[test]
fn missing_policy_hard_block_stays_blocked_in_start_path() {
    let router = PermissionRouter::new();
    let request = execute_request("missing-policy-hard", "rm -rf /");
    let authority =
        build_gated_authority(Some("hermes"), None, "/tmp/workspace", "/tmp/workspace", &PathRules::Posix, false, &request, "nonce")
            .unwrap();
    let route = router.route_request(&request, Some(&authority), NOW);
    let lifecycle = route.refusal().unwrap();
    assert!(matches!(
        route,
        PermissionRoute::Deny { reject_option_id: Some(option_id) } if option_id == "deny"
    ));
    let card = refused_confirmation(event_data(&request, None).to_confirmation(), lifecycle);
    assert_eq!(card.call_id, "missing-policy-hard");
    assert_eq!(card.action.as_deref(), Some("denied"));
    assert!(card.options.is_empty());
}

#[test]
fn closing_router_routes_no_new_request() {
    let mut router = PermissionRouter::new();
    let request = execute_request("while-open", "pwd");
    assert!(matches!(router.route_request(&request, None, NOW), PermissionRoute::Ask));
    router.register("while-open", confirmation("while-open"), None, "conv-1", NOW, None);
    assert!(!router.is_closing());
    router.set_closing();
    assert!(router.is_closing());
    let late = execute_request("while-closing", "pwd");
    let route = router.route_request(&late, None, NOW);
    assert!(matches!(route, PermissionRoute::Closing));
    assert!(route.refusal().is_none());
    let authority =
        build_gated_authority(Some("hermes"), None, "/tmp/workspace", "/tmp/workspace", &PathRules::Posix, false, &late, "nonce");
    assert!(matches!(
        router.route_request(&late, authority.as_ref(), NOW),
        PermissionRoute::Closing
    ));
    assert!(!router.can_register(NOW, None));
    assert_eq!(router.get_confirmations(NOW).0.len(), 1);
    assert!(router.confirmation_of("while-closing").is_none());
    assert!(router.confirmation_of("while-open").is_some());
    let (result, _, _) = router.confirm_result("while-open", "allow_once", "conv-1", NOW, true);
    assert_eq!(result, ConfirmationResponseResult::Applied);
}

#[test]
fn cancellation_leaves_no_card_and_keeps_what_was_answered() {
    let mut router = PermissionRouter::new();
    insert(
        &mut router,
        "answered",
        authority(OperationClass::RoutineEdit, PermissionMode::Default, "digest-answered"),
    );
    answer(&mut router, "answered", "allow_once", "conv-1");
    insert(
        &mut router,
        "late",
        authority(OperationClass::RoutineEdit, PermissionMode::Default, "digest-late"),
    );
    let (cards, _) = router.get_confirmations(NOW + 60_000);
    assert_eq!(cards.len(), 1);
    assert_eq!(cards[0].action.as_deref(), Some("expired"));
    assert!(router.cancel_all().is_empty());
    assert!(router.get_confirmations(NOW + 60_000).0.is_empty());
    assert!(router.lifecycle_of("late").is_none());
    assert_eq!(router.lifecycle_of("answered"), Some(ConfirmationLifecycle::Allowed));
}

#[test]
fn challenge_is_added_to_the_metadata_of_the_tool_call() {
    let request = execute_request("challenged", "xcrun notarytool submit app.zip");
    let policy = policy(PermissionMode::DontAsk);
    let authority = build_gated_authority(
        Some("hermes"),
        Some(policy),
        "/tmp/workspace",
        "/tmp/workspace",
        &PathRules::Posix,
        false,
        &request,
        "nonce-1",
    )
    .unwrap();
    let mut event = event_data(&request, None);
    event.tool_call.meta = Some(vec![("a_note".to_owned(), json("1"))]);
    attach_authority_challenge(&mut event, &authority);
    let entries = event.tool_call.meta.unwrap();
    assert_eq!(entries.len(), 2);
    assert_eq!(entries[0].0, "a_note");
    assert_eq!(entries[1].0, COMMAND_EVE_AUTHORITY_CHALLENGE_META_KEY);
    assert_eq!(entries[1].1.get_str("single_use_nonce"), Some("nonce-1"));
}

#[test]
fn missing_policy_hg4_never_exposes_or_accepts_normal_allow() {
    let mut router = PermissionRouter::new();
    let request = execute_request("missing-policy-hg4", "xcrun notarytool submit app.zip");
    let authority =
        build_gated_authority(Some("hermes"), None, "/tmp/workspace", "/tmp/workspace", &PathRules::Posix, false, &request, "nonce")
            .unwrap();
    assert!(matches!(
        router.route_request(&request, Some(&authority), NOW),
        PermissionRoute::Ask
    ));
    let mut event = event_data(&request, None);
    contain_command_eve_options(&mut event, false, true);
    let card = event.to_confirmation();
    assert!(card
        .options
        .iter()
        .all(|option| option.value.as_str() != Some("allow_once")));
    router.register("missing-policy-hg4", card, Some(authority), "conv-1", NOW, Some(60_000));
    assert_eq!(router.get_confirmations(NOW).0.len(), 1);
    let (result, forwarded) = answer(&mut router, "missing-policy-hg4", "allow_once", "conv-1");
    assert_eq!(result, ConfirmationResponseResult::ConflictDifferentDecision);
    assert!(forwarded.is_none());
    let founder = ConfirmationPrincipalContext::for_local_capability("system_default_user");
    let (result, forwarded, _) =
        router.confirm_authority_as("missing-policy-hg4", "conv-1", &founder, NOW, true);
    assert!(result.is_err());
    assert!(forwarded.is_none());
}

#[test]
fn no_allow_once_hides_exact_session_option() {
    let workspace = tempfile::tempdir().unwrap();
    let mut request = edit_request("session-1", "no-one-shot");
    request.options = vec![PermissionOption::new(
        "allow_session",
        "Allow session",
        PermissionOptionKind::AllowAlways,
    )];
    let mut built = build_gated_authority(
        Some("hermes"),
        Some(policy(PermissionMode::Default)),
        workspace.path().to_str().unwrap(),
        workspace.path().to_str().unwrap(),
        &PathRules::Posix,
        true,
        &request,
        "nonce",
    )
    .unwrap();
    let offering = build_gated_authority(
        Some("hermes"),
        Some(policy(PermissionMode::Default)),
        workspace.path().to_str().unwrap(),
        workspace.path().to_str().unwrap(),
        &PathRules::Posix,
        true,
        &edit_request("session-1", "one-shot"),
        "nonce",
    )
    .unwrap();
    assert!(offering.offers_exact_session());
    built.allow_once_option_id = None;
    assert!(!built.offers_exact_session());
    let mut event = event_data(&request, None);
    let gate = built.gate.as_ref().unwrap();
    contain_command_eve_options(
        &mut event,
        gate.grant_eligible && gate.policy.is_some() && built.allow_once_option_id.is_some(),
        built.is_gated(),
    );
    assert!(event.options.is_empty());
}

#[test]
fn unsafe_hermes_transport_revokes_policy_turn_and_router_projection() {
    let mut session = AcpSession::new(Some(ModeId::new("dont_ask")), None, TextMap::new());
    assert!(session.apply_command_eve_runtime_hello(RuntimeCapabilityReceipt::test_receipt()));
    assert!(session
        .apply_command_eve_transport_modes(modes(&[("default", "Ask"), ("dont_ask", "Auto")])));
    session.set_session_id(SessionId::new("session-drift"));
    let policy = session
        .acknowledge_command_eve_policy(ModeId::new("dont_ask"))
        .unwrap();
    assert!(session.begin_command_eve_turn().is_ok());

    let mut router = PermissionRouter::new();
    router.apply_policy_snapshot(policy.clone());
    router.insert_session_grant(
        "old-grant",
        SessionGrant {
            policy_revision: 1,
            session_epoch: 1,
            expires_at_ms: Some(NOW + 60_000),
            revoked: false,
        },
    );
    let mut command_eve = authority(
        OperationClass::RoutineEdit,
        PermissionMode::Default,
        "unsafe-transport-command-eve",
    );
    command_eve.gate.as_mut().unwrap().policy = Some(policy);
    insert(&mut router, "unsafe-transport-command-eve", command_eve);
    router.register(
        "unsafe-transport-shared",
        confirmation("unsafe-transport-shared"),
        None,
        "conv-1",
        NOW,
        None,
    );
    assert!(!session.apply_command_eve_transport_mode(ModeId::new("dont_ask")));
    let notices = router.revoke_command_eve_policy();
    assert!(router.current_policy().is_none());
    assert_eq!(router.session_grant_count(), 0);
    assert_eq!(notices.len(), 1);
    assert_eq!(notices[0].call_id, "unsafe-transport-command-eve");
    assert_eq!(
        router.lifecycle_of("unsafe-transport-command-eve"),
        Some(ConfirmationLifecycle::Superseded)
    );
    assert_eq!(
        router.lifecycle_of("unsafe-transport-shared"),
        Some(ConfirmationLifecycle::Pending)
    );
    assert_eq!(
        session.begin_command_eve_turn(),
        Err(PolicyGateError::UnsafeTransportMode)
    );
}

#[test]
fn terminal_history_and_authority_nonces_are_bounded_without_pruning_pending() {
    let mut router = PermissionRouter::new();
    for index in 0..5 {
        router.register(
            &format!("still-pending-{index}"),
            confirmation("shared-pending"),
            None,
            "conv-1",
            NOW,
            None,
        );
    }

    router.register(
        "recent-visible-expired",
        confirmation("recent-visible-expired"),
        Some(authority(OperationClass::RoutineEdit, PermissionMode::Default, "digest-expired")),
        "conv-1",
        NOW - 2,
        Some(1),
    );
    let (_, notices) = router.get_confirmations(NOW);
    assert!(notices
        .iter()
        .any(|notice| notice.call_id == "recent-visible-expired" && notice.responder_open));

    let founder = ConfirmationPrincipalContext::for_local_capability("system_default_user");
    let total = MAX_TERMINAL_CONFIRMATION_HISTORY + 16;
    for index in 0..total {
        let call_id = format!("bounded-founder-{index}");
        insert(
            &mut router,
            &call_id,
            authority(OperationClass::Hg4, PermissionMode::DontAsk, &format!("digest-{index}")),
        );
        let (result, forwarded, _) =
            router.confirm_authority_as(&call_id, "conv-1", &founder, NOW, true);
        assert_eq!(result.unwrap(), ConfirmationResponseResult::Applied);
        assert!(forwarded.is_some());
    }

    assert!(router.terminal_confirmation_count() <= MAX_TERMINAL_CONFIRMATION_HISTORY);
    for index in 0..5 {
        assert_eq!(
            router.lifecycle_of(&format!("still-pending-{index}")),
            Some(ConfirmationLifecycle::Pending)
        );
    }
    assert_eq!(
        router.lifecycle_of("recent-visible-expired"),
        Some(ConfirmationLifecycle::Expired)
    );
    assert!(router.used_authority_nonce_count() <= MAX_TERMINAL_CONFIRMATION_HISTORY);
    let (result, _, _) = router.confirm_authority_as(
        &format!("bounded-founder-{}", total - 1),
        "conv-1",
        &founder,
        NOW,
        true,
    );
    assert_eq!(result.unwrap(), ConfirmationResponseResult::IdempotentSameDecision);
}
