use std::path::{Path, PathBuf};

use aionui_ai_agent::classifier::{
    classify_command, classify_request, native_path_to_probe, native_resolves_within, path_to_probe,
    resolves_within, write_path, PathPart, PathRules, TargetPath,
};
use aionui_ai_agent::json::{json_to_string, JsonValue};
use aionui_ai_agent::permission_authority::{
    command_eve_transport_mode, decide, digest_json, executable_digest, is_digest,
    CommandEveCapabilities, CommandEvePolicyState, DecisionInput, OperationClass,
    PermissionDecision, PermissionMode, PolicyGateError, RequiredAuthority,
    RuntimeCapabilityReceipt, TrustedClassification,
};
use aionui_ai_agent::permission_request::{RequestPermissionRequest, ToolCallUpdate, ToolKind};

fn json_value(value: serde_json::Value) -> JsonValue {
    match value {
        serde_json::Value::Null => JsonValue::Null,
        serde_json::Value::Bool(b) => JsonValue::Bool(b),
        serde_json::Value::Number(n) => JsonValue::Number(n.to_string()),
        serde_json::Value::String(s) => JsonValue::Text(s),
        serde_json::Value::Array(items) => {
            JsonValue::Array(items.into_iter().map(json_value).collect())
        }
        serde_json::Value::Object(entries) => {
            JsonValue::Object(entries.into_iter().map(|(key, value)| (key, json_value(value))).collect())
        }
    }
}

fn json(text: &str) -> JsonValue {
    json_value(serde_json::from_str(text).unwrap())
}

fn quoted(path: &Path) -> String {
    serde_json::to_string(path.to_str().unwrap()).unwrap()
}

fn input(mode: PermissionMode, class: OperationClass) -> DecisionInput {
    DecisionInput {
        mode,
        classification: TrustedClassification::new(class),
        explicit_deny: false,
        exact_grant: false,
        authority_receipt_verified: false,
        capabilities: RuntimeCapabilityReceipt::test_receipt().capabilities,
    }
}

fn request(kind: ToolKind, raw: JsonValue) -> RequestPermissionRequest {
    RequestPermissionRequest {
        session_id: "session-1".to_owned(),
        tool_call: ToolCallUpdate {
            tool_call_id: "call-1".to_owned(),
            kind: Some(kind),
            title: None,
            raw_input: Some(raw),
        },
        options: vec![],
    }
}

/// Whether the path that a request has to be looked at for lies in the workspace.
fn lies_in_workspace(request: &RequestPermissionRequest, workspace: &str) -> bool {
    let path = match path_to_probe(request, workspace) {
        Some(path) => path,
        None => return false,
    };
    let mut probe = PathBuf::from(&path);
    let mut missing: usize = 0;
    while !probe.exists() {
        missing += 1;
        if !probe.pop() {
            return false;
        }
    }
    let ancestor = probe.canonicalize().unwrap();
    let root = match Path::new(workspace).canonicalize() {
        Ok(root) => root,
        Err(_) => return false,
    };
    resolves_within(&path, missing, ancestor.to_str().unwrap(), root.to_str().unwrap())
}

fn class_of(request: &RequestPermissionRequest, workspace: &str) -> OperationClass {
    classify_request(
        request,
        workspace,
        &PathRules::Posix,
        lies_in_workspace(request, workspace),
    )
    .class
}

#[test]
fn full_four_mode_matrix_is_table_driven() {
    let cases = [
        (PermissionMode::Default, OperationClass::RoutineEdit, PermissionDecision::Ask),
        (PermissionMode::Default, OperationClass::RoutineTerminal, PermissionDecision::Ask),
        (PermissionMode::AcceptEdits, OperationClass::RoutineEdit, PermissionDecision::Allow),
        (PermissionMode::AcceptEdits, OperationClass::RoutineTerminal, PermissionDecision::Ask),
        (PermissionMode::DontAsk, OperationClass::RoutineEdit, PermissionDecision::Allow),
        (PermissionMode::DontAsk, OperationClass::RoutineTerminal, PermissionDecision::Allow),
        (PermissionMode::Guarded, OperationClass::RoutineEdit, PermissionDecision::Unsupported),
        (PermissionMode::Guarded, OperationClass::RoutineTerminal, PermissionDecision::Unsupported),
    ];
    for (mode, class, expected) in cases {
        assert_eq!(decide(input(mode, class)), expected, "{mode:?}/{class:?}");
    }

    for mode in [
        PermissionMode::Default,
        PermissionMode::AcceptEdits,
        PermissionMode::DontAsk,
        PermissionMode::Guarded,
    ] {
        assert_eq!(decide(input(mode, OperationClass::HardBlocked)), PermissionDecision::Block);
        assert_eq!(
            decide(input(mode, OperationClass::Sensitive)),
            PermissionDecision::AskWithOwner(RequiredAuthority::User)
        );
        assert_eq!(
            decide(input(mode, OperationClass::Hg35)),
            PermissionDecision::RequireAuthority(RequiredAuthority::Proxy)
        );
        assert_eq!(
            decide(input(mode, OperationClass::Hg4)),
            PermissionDecision::RequireAuthority(RequiredAuthority::Founder)
        );
        assert_eq!(
            decide(input(mode, OperationClass::Unknown)),
            if mode == PermissionMode::Guarded {
                PermissionDecision::Unsupported
            } else {
                PermissionDecision::Ask
            }
        );
    }
}

#[test]
fn grant_never_lowers_human_authority() {
    for class in [OperationClass::Hg35, OperationClass::Hg4] {
        let mut case = input(PermissionMode::DontAsk, class);
        case.exact_grant = true;
        assert!(matches!(
            decide(case),
            PermissionDecision::RequireAuthority(
                RequiredAuthority::Proxy | RequiredAuthority::Founder
            )
        ));
    }
}

#[test]
fn guarded_requires_the_complete_capability_set() {
    let mut case = input(PermissionMode::Guarded, OperationClass::RoutineEdit);
    case.capabilities = CommandEveCapabilities {
        trusted_classification: true,
        policy_handshake: true,
        guarded_auto: true,
        versioned_grant_store: true,
        revocation: true,
    };
    assert_eq!(decide(case), PermissionDecision::Allow);
}

#[test]
fn explicit_deny_blocks_and_a_verified_receipt_opens_a_high_gate() {
    let mut denied = input(PermissionMode::DontAsk, OperationClass::RoutineEdit);
    denied.explicit_deny = true;
    assert_eq!(decide(denied), PermissionDecision::Block);

    let mut verified = input(PermissionMode::Default, OperationClass::Hg4);
    verified.authority_receipt_verified = true;
    assert_eq!(decide(verified), PermissionDecision::Allow);
}

#[test]
fn policy_state_requires_set_policy_applied_before_run_turn() {
    let mut state = CommandEvePolicyState::default();
    assert!(state.apply_runtime_hello(RuntimeCapabilityReceipt::test_receipt()));
    state.begin_session();
    state.request_mode(PermissionMode::DontAsk);
    assert_eq!(state.begin_turn(), Err(PolicyGateError::PolicyPending));

    let applied = state
        .acknowledge_runtime_mode(PermissionMode::DontAsk)
        .expect("matching runtime acknowledgement");
    assert_eq!(state.begin_turn(), Ok(applied.clone()));
    assert_eq!(state.permission_snapshot(), Ok(applied));
}

#[test]
fn policy_change_invalidates_the_old_turn_lease() {
    let mut state = CommandEvePolicyState::default();
    assert!(state.apply_runtime_hello(RuntimeCapabilityReceipt::test_receipt()));
    state.begin_session();
    state.request_mode(PermissionMode::DontAsk);
    state.acknowledge_runtime_mode(PermissionMode::DontAsk);
    state.begin_turn().unwrap();
    state.request_mode(PermissionMode::Default);
    assert_eq!(state.permission_snapshot(), Err(PolicyGateError::PolicyPending));
}

#[test]
fn mode_change_keeps_the_old_turn_from_going_on() {
    let mut state = CommandEvePolicyState::default();
    assert!(state.apply_runtime_hello(RuntimeCapabilityReceipt::test_receipt()));
    state.begin_session();
    state.request_mode(PermissionMode::DontAsk);
    let first = state.acknowledge_runtime_mode(PermissionMode::DontAsk).unwrap();
    state.begin_turn().unwrap();
    let revision = state.begin_mode_change(PermissionMode::AcceptEdits);
    assert!(revision > first.policy_revision);
    assert_eq!(state.pending_mode(), Some(PermissionMode::AcceptEdits));
    assert!(state.acknowledge_runtime_mode(PermissionMode::DontAsk).is_none());
    let second = state.acknowledge_runtime_mode(PermissionMode::AcceptEdits).unwrap();
    assert_eq!(second.policy_revision, revision);
    assert_eq!(state.permission_snapshot(), Err(PolicyGateError::MissingTurnLease));
    state.revoke();
    assert_eq!(state.begin_turn(), Err(PolicyGateError::UnacknowledgedPolicy));
}

#[test]
fn guarded_mode_needs_a_guarded_runtime() {
    let mut state = CommandEvePolicyState::default();
    assert!(state.apply_runtime_hello(RuntimeCapabilityReceipt::test_receipt()));
    state.begin_session();
    assert!(!state.mode_available(PermissionMode::Guarded));
    state.request_mode(PermissionMode::Guarded);
    assert!(state.acknowledge_runtime_mode(PermissionMode::Guarded).is_none());

    let mut guarded = CommandEvePolicyState::default();
    assert!(guarded.apply_runtime_hello(RuntimeCapabilityReceipt::test_guarded_receipt()));
    guarded.begin_session();
    assert!(guarded.mode_available(PermissionMode::Guarded));
    guarded.request_mode(PermissionMode::Guarded);
    assert!(guarded.acknowledge_runtime_mode(PermissionMode::Guarded).is_some());
    assert!(guarded.begin_turn().is_ok());
}

#[test]
fn classifier_trusts_only_structurally_bound_workspace_edits() {
    let workspace = tempfile::tempdir().unwrap();
    let inside = workspace.path().join("src/lib.rs");
    let routine = request(
        ToolKind::Edit,
        json(&format!(
            "{{\"tool\":\"write_file\",\"arguments\":{{\"path\":{},\"content\":\"ok\"}}}}",
            quoted(&inside)
        )),
    );
    assert_eq!(
        class_of(&routine, workspace.path().to_str().unwrap()),
        OperationClass::RoutineEdit
    );

    let escape = request(
        ToolKind::Edit,
        json(r#"{"tool":"write_file","arguments":{"path":"../escape.txt","content":"no"}}"#),
    );
    assert_eq!(
        class_of(&escape, workspace.path().to_str().unwrap()),
        OperationClass::HardBlocked
    );
}

#[test]
fn classifier_never_trusts_spoofed_single_path_for_multi_file_patch() {
    let workspace = tempfile::tempdir().unwrap();
    let request = request(
        ToolKind::Edit,
        json(&format!(
            "{{\"tool\":\"patch\",\"arguments\":{{\"path\":{},\"patch\":\"*** Update File: safe.txt\\n*** Update File: ../outside.txt\"}}}}",
            quoted(&workspace.path().join("safe.txt"))
        )),
    );
    assert_eq!(
        class_of(&request, workspace.path().to_str().unwrap()),
        OperationClass::Unknown
    );
}

#[test]
fn classifier_blocks_all_dot_env_component_variants_case_insensitively() {
    let workspace = tempfile::tempdir().unwrap();
    for path in [
        ".env",
        ".env.local",
        ".env.development",
        ".ENV.TEST",
        "config/.env.staging",
    ] {
        let request = request(
            ToolKind::Edit,
            json(&format!(
                "{{\"tool\":\"write_file\",\"arguments\":{{\"path\":\"{path}\",\"content\":\"secret\"}}}}"
            )),
        );
        assert_eq!(
            class_of(&request, workspace.path().to_str().unwrap()),
            OperationClass::HardBlocked,
            "{path}"
        );
    }
}

#[test]
fn path_that_leaves_the_workspace_by_a_link_is_blocked() {
    let request = request(
        ToolKind::Edit,
        json(r#"{"tool":"write_file","arguments":{"path":"escape-link/new.txt","content":"no"}}"#),
    );
    let path = path_to_probe(&request, "/work/space").unwrap();
    assert_eq!(path, "/work/space/escape-link/new.txt");
    assert!(!resolves_within(&path, 1, "/outside", "/work/space"));
    assert!(resolves_within(&path, 1, "/work/space/real", "/work/space"));
    assert!(!resolves_within(&path, 1, "/work/spaceship", "/work/space"));
    assert_eq!(
        classify_request(&request, "/work/space", &PathRules::Posix, false).class,
        OperationClass::HardBlocked
    );
    assert_eq!(
        classify_request(&request, "/work/space", &PathRules::Posix, true).class,
        OperationClass::RoutineEdit
    );
}

#[test]
fn runtime_receipt_tampering_revokes_policy_capability() {
    let mut receipt = RuntimeCapabilityReceipt::test_receipt();
    receipt.executable_sha256 = "b".repeat(64);
    let mut state = CommandEvePolicyState::default();
    assert!(!state.apply_runtime_hello(receipt));
    state.begin_session();
    assert_eq!(
        state.acknowledge_runtime_mode(PermissionMode::Default),
        None,
        "an unverified RuntimeHello can never manufacture PolicyApplied"
    );
}

#[test]
fn receipt_is_sealed_by_the_digest_of_its_fields() {
    let receipt = RuntimeCapabilityReceipt::for_current_process("hermes", &"a".repeat(64), None);
    assert!(receipt.is_valid_for("hermes"));
    assert!(!receipt.is_valid_for("other"));
    assert_eq!(receipt.receipt_digest, receipt.expected_digest());
    assert!(is_digest(&receipt.receipt_digest));
    let again = RuntimeCapabilityReceipt::for_current_process("hermes", &"a".repeat(64), None);
    assert_ne!(receipt.instance_nonce, again.instance_nonce);
    assert_ne!(receipt.receipt_digest, again.receipt_digest);
}

#[test]
fn receipt_digest_is_that_of_its_sorted_payload() {
    let receipt = RuntimeCapabilityReceipt::test_receipt();
    let mut capabilities = serde_json::Map::new();
    capabilities.insert("trusted_classification".to_owned(), true.into());
    capabilities.insert("policy_handshake".to_owned(), true.into());
    capabilities.insert("guarded_auto".to_owned(), false.into());
    capabilities.insert("versioned_grant_store".to_owned(), false.into());
    capabilities.insert("revocation".to_owned(), true.into());
    let mut payload = serde_json::Map::new();
    payload.insert("protocol_version".to_owned(), receipt.protocol_version.into());
    payload.insert("runtime_name".to_owned(), receipt.runtime_name.clone().into());
    payload.insert("runtime_version".to_owned(), receipt.runtime_version.clone().into());
    payload.insert("source_commit".to_owned(), receipt.source_commit.clone().into());
    payload.insert("executable_sha256".to_owned(), receipt.executable_sha256.clone().into());
    payload.insert("backend_identity".to_owned(), receipt.backend_identity.clone().into());
    payload.insert("instance_nonce".to_owned(), receipt.instance_nonce.clone().into());
    payload.insert("capabilities".to_owned(), serde_json::Value::Object(capabilities));
    let bytes = serde_json::to_vec(&serde_json::Value::Object(payload)).unwrap();
    assert_eq!(
        receipt.receipt_digest,
        hex::encode(<sha2::Sha256 as sha2::Digest>::digest(bytes))
    );
}

#[test]
fn executable_digest_is_the_hexadecimal_sha_256() {
    assert_eq!(
        executable_digest(b"abc"),
        "ba7816bf8f01cfea414140de5dae2223b00361a396177a9cb410ff61f20015ad"
    );
    assert_eq!(
        executable_digest(b""),
        "e3b0c44298fc1c149afbf4c8996fb92427ae41e4649b934ca495991b7852b855"
    );
}

#[test]
fn digest_of_a_value_is_that_of_its_compact_text() {
    let value = json("{\"b\":[1,true,null,\"\\u00e9\\n\\\"\"],\"a\":{\"x\":-2.5}}");
    assert_eq!(
        json_to_string(&value),
        serde_json::to_string(&serde_json::from_str::<serde_json::Value>(
            "{\"b\":[1,true,null,\"\\u00e9\\n\\\"\"],\"a\":{\"x\":-2.5}}"
        ).unwrap()).unwrap()
    );
    assert_eq!(digest_json(&value), executable_digest(json_to_string(&value).as_bytes()));
}

#[test]
fn classifier_maps_known_terminal_authority_and_unknown_fail_closed() {
    let cases = [
        ("pwd", OperationClass::RoutineTerminal),
        ("cargo test -p aionui-ai-agent", OperationClass::Unknown),
        ("git push origin release", OperationClass::Hg35),
        ("xcrun notarytool submit app.zip", OperationClass::Hg4),
        ("python3 -c 'print(1)'", OperationClass::Unknown),
        ("rm -rf /", OperationClass::HardBlocked),
    ];
    for (command, expected) in cases {
        let classified = class_of(
            &request(ToolKind::Execute, json(&format!("{{\"command\":\"{command}\"}}"))),
            "/tmp",
        );
        assert_eq!(classified, expected, "{command}");
    }
}

#[test]
fn classifier_allows_only_exact_workspace_bound_mkdir_mutation() {
    let workspace = tempfile::tempdir().unwrap();
    let workspace_text = workspace.path().to_str().unwrap();
    let cases = [
        ("mkdir -- generated", OperationClass::RoutineTerminal),
        ("mkdir -- nested/generated", OperationClass::RoutineTerminal),
        ("mkdir generated", OperationClass::Unknown),
        ("mkdir -- one two", OperationClass::Unknown),
        ("mkdir -- 'quoted'", OperationClass::Unknown),
        ("mkdir -- generated; pwd", OperationClass::Unknown),
        ("mkdir -- ../escape", OperationClass::HardBlocked),
        ("mkdir -- /tmp/escape", OperationClass::HardBlocked),
        ("mkdir -- .git/generated", OperationClass::HardBlocked),
        ("ls /tmp", OperationClass::Unknown),
    ];
    for (command, expected) in cases {
        assert_eq!(
            class_of(
                &request(ToolKind::Execute, json(&format!("{{\"command\":\"{command}\"}}"))),
                workspace_text
            ),
            expected,
            "{command}"
        );
    }
}

#[test]
fn mode_names_are_read_back() {
    for mode in [
        PermissionMode::Default,
        PermissionMode::AcceptEdits,
        PermissionMode::DontAsk,
        PermissionMode::Guarded,
    ] {
        assert_eq!(PermissionMode::parse(mode.as_str()), Some(mode));
    }
    assert_eq!(PermissionMode::parse("bypass"), None);
    assert_eq!(command_eve_transport_mode("dontAsk"), "default");
}

#[test]
fn gate_errors_have_messages() {
    for error in [
        PolicyGateError::UnsupportedPermissionMode,
        PolicyGateError::PolicyPending,
        PolicyGateError::UnacknowledgedPolicy,
        PolicyGateError::GuardedAutoUnavailable,
        PolicyGateError::MissingTurnLease,
        PolicyGateError::StaleTurnPolicy,
        PolicyGateError::UnsafeTransportMode,
    ] {
        assert!(!error.message().is_empty());
    }
}

#[test]
fn spacing_and_capitals_do_not_lower_a_gate() {
    let class = |command: &str| {
        let input = JsonValue::Object(vec![(
            "command".to_owned(),
            JsonValue::Text(command.to_owned()),
        )]);
        classify_command(&Some(input), "/work/space", &PathRules::Posix, false)
    };
    for (plain, spread, expected) in [
        ("git push origin", "GIT \t\n Push   origin", OperationClass::Hg35),
        ("xcrun notarytool submit a.zip", "xcrun\nNotaryTool\u{3000}submit a.zip", OperationClass::Hg4),
        ("sudo ls", " SuDo\tls ", OperationClass::Sensitive),
        ("rm -rf /", "RM   -rf\n/", OperationClass::HardBlocked),
    ] {
        assert_eq!(class(plain).class, expected);
        assert_eq!(class(spread), class(plain));
    }
}

#[test]
fn guarded_receipt_differs_in_two_capabilities_and_its_digest() {
    let plain = RuntimeCapabilityReceipt::test_receipt();
    let guarded = RuntimeCapabilityReceipt::test_guarded_receipt();
    assert_eq!(guarded.source_commit.as_deref(), Some("test-source"));
    assert_eq!(guarded.executable_sha256, "a".repeat(64));
    assert_eq!(guarded.instance_nonce, plain.instance_nonce);
    assert_eq!(guarded.backend_identity, plain.backend_identity);
    assert!(guarded.capabilities.guarded_auto && guarded.capabilities.versioned_grant_store);
    assert!(!plain.capabilities.guarded_auto && !plain.capabilities.versioned_grant_store);
    assert_ne!(guarded.receipt_digest, plain.receipt_digest);
    assert!(guarded.is_valid_for("hermes"));
}

fn named(names: &[&str]) -> Vec<PathPart> {
    names.iter().map(|name| PathPart::Name((*name).to_owned())).collect()
}

/// A path on a drive, with the drive and the root before its names.
fn on_drive(names: &[&str]) -> Vec<PathPart> {
    let mut parts = vec![PathPart::Prefix("C:".to_owned()), PathPart::Root];
    parts.extend(named(names));
    parts
}

fn write_request(path: &str) -> RequestPermissionRequest {
    let arguments = JsonValue::Object(vec![("path".to_owned(), JsonValue::Text(path.to_owned()))]);
    request(
        ToolKind::Edit,
        JsonValue::Object(vec![
            ("arguments".to_owned(), arguments),
            ("tool".to_owned(), JsonValue::Text("write_file".to_owned())),
        ]),
    )
}

#[test]
fn path_is_read_by_the_rules_of_the_platform() {
    let request = write_request(r".git\config");
    assert_eq!(write_path(&request).as_deref(), Some(r".git\config"));
    let class = |own: Vec<PathPart>, joined: Vec<PathPart>| {
        let rules = PathRules::Native(TargetPath { absolute: false, own, joined });
        classify_request(&request, r"C:\work", &rules, true).class
    };
    assert_eq!(
        class(named(&[".git", "config"]), on_drive(&["work", ".git", "config"])),
        OperationClass::HardBlocked
    );
    assert_eq!(
        class(named(&["src", "a.rs"]), on_drive(&["work", "src", "a.rs"])),
        OperationClass::RoutineEdit
    );
    let mut up = on_drive(&["work"]);
    up.extend([PathPart::Parent, PathPart::Parent]);
    assert_eq!(class(named(&[]), up), OperationClass::HardBlocked);
    assert_eq!(
        classify_request(&request, "/work", &PathRules::Posix, true).class,
        OperationClass::RoutineEdit
    );
}

#[test]
fn drive_in_a_created_directory_is_blocked() {
    let command = JsonValue::Object(vec![(
        "command".to_owned(),
        JsonValue::Text("mkdir -- c:new".to_owned()),
    )]);
    let own = vec![PathPart::Prefix("C:".to_owned()), PathPart::Name("new".to_owned())];
    let joined = vec![PathPart::Prefix("C:".to_owned()), PathPart::Name("new".to_owned())];
    let rules = PathRules::Native(TargetPath { absolute: false, own, joined });
    assert_eq!(
        classify_command(&Some(command), r"C:\work", &rules, true).class,
        OperationClass::HardBlocked
    );
    let command = JsonValue::Object(vec![(
        "command".to_owned(),
        JsonValue::Text("mkdir -- new".to_owned()),
    )]);
    let rules = PathRules::Native(TargetPath {
        absolute: false,
        own: named(&["new"]),
        joined: on_drive(&["work", "new"]),
    });
    assert_eq!(
        classify_command(&Some(command), r"C:\work", &rules, true).class,
        OperationClass::RoutineTerminal
    );
}

#[test]
fn native_path_is_normalized_and_compared_part_by_part() {
    let mut joined = on_drive(&["work", "a"]);
    joined.extend([PathPart::Current, PathPart::Parent, PathPart::Name("b".to_owned())]);
    let target = TargetPath { absolute: false, own: Vec::new(), joined };
    let path = native_path_to_probe(&target).unwrap();
    assert_eq!(path.len(), 4);
    assert!(matches!(&path[3], PathPart::Name(name) if name == "b"));
    assert!(native_resolves_within(&path, 1, &on_drive(&["work"]), &on_drive(&["work"])));
    assert!(native_resolves_within(&path, 1, &on_drive(&["real"]), &on_drive(&["real", "b"])));
    assert!(!native_resolves_within(&path, 1, &on_drive(&["real"]), &on_drive(&["work"])));
    assert!(!native_resolves_within(&path, 5, &on_drive(&["work"]), &on_drive(&["work"])));

    let mut restarted = on_drive(&["work"]);
    restarted.extend([PathPart::Prefix("D:".to_owned()), PathPart::Name("x".to_owned())]);
    let target = TargetPath { absolute: false, own: Vec::new(), joined: restarted };
    let path = native_path_to_probe(&target).unwrap();
    assert_eq!(path.len(), 2);
    assert!(matches!(&path[0], PathPart::Prefix(prefix) if prefix == "D:"));
}
