use aionui_ai_agent::json::JsonValue;
use aionui_ai_agent::prompt_admission::{
    admit_command_eve_prompt_admission, claim_command_eve_prompt_admission,
    command_eve_prompt_admission_for_turn, complete_command_eve_prompt_admission,
    complete_command_eve_prompt_admission_commit, finalize_command_eve_prompt_admission,
    forget_command_eve_prompt_admission, register_command_eve_prompt_admission,
    register_with_request_id, reject_command_eve_prompt_admission, AdmissionRegistry,
    AdmissionWait, AdmissionWaiter, CommandEvePromptAdmissionClaim,
    CommandEvePromptAdmissionClaimResult, CommandEvePromptAdmissionDecision,
    CommandEvePromptAdmissionFinalizeClaim, COMMAND_EVE_PROMPT_ADMISSION_VERSION,
    MAX_ACTIVE_ADMISSIONS,
};
use aionui_ai_agent::prompt_route::CommandEvePromptAdmissionPhase;
use aionui_ai_agent::wire::parse_wire_request;

fn json_value(value: serde_json::Value) -> JsonValue {
    match value {
        serde_json::Value::Null => JsonValue::Null,
        serde_json::Value::Bool(b) => JsonValue::Bool(b),
        serde_json::Value::Number(n) => JsonValue::Number(n.to_string()),
        serde_json::Value::String(s) => JsonValue::Text(s),
        serde_json::Value::Array(items) => {
            JsonValue::Array(items.into_iter().map(json_value).collect())
        }
        serde_json::Value::Object(entries) => {
            JsonValue::Object(entries.into_iter().map(|(key, value)| (key, json_value(value))).collect())
        }
    }
}

fn json(text: &str) -> JsonValue {
    json_value(serde_json::from_str(text).unwrap())
}

#[test]
fn admission_claim_is_exactly_once_and_replay_is_idempotent() {
    let mut registry = AdmissionRegistry::new();
    let turn_id = "turn-once";
    let ticket =
        register_command_eve_prompt_admission(&mut registry, turn_id, &"a".repeat(64)).unwrap();
    let request = command_eve_prompt_admission_for_turn(&registry, turn_id).unwrap();
    admit_command_eve_prompt_admission(&mut registry, &request, "session-1").unwrap();
    assert_eq!(
        claim_command_eve_prompt_admission(&mut registry, &request, "session-1", true),
        Ok(CommandEvePromptAdmissionClaimResult::AwaitingDecision)
    );
    assert_eq!(
        claim_command_eve_prompt_admission(&mut registry, &request, "session-1", true),
        Err("request_in_progress")
    );
    let (claim, _) = ticket.wait(
        &mut registry,
        AdmissionWait::Delivered(CommandEvePromptAdmissionClaim {
            session_id: "session-1".to_owned(),
            turn_id: turn_id.to_owned(),
        }),
    );
    let claim = claim.unwrap();
    assert_eq!(claim.session_id, "session-1");
    let finalize_ticket = claim.accept(true).unwrap();
    complete_command_eve_prompt_admission_commit(&mut registry, &request.request_id, "session-1", true);
    assert_eq!(
        finalize_command_eve_prompt_admission(&mut registry, &request, "session-1", true),
        Ok(CommandEvePromptAdmissionClaimResult::AwaitingDecision)
    );
    let (finalize_claim, _) = finalize_ticket.wait(
        &mut registry,
        AdmissionWait::Delivered(CommandEvePromptAdmissionFinalizeClaim {
            turn_id: turn_id.to_owned(),
        }),
    );
    let delivery_ticket = finalize_claim.unwrap().accept(true).unwrap();
    complete_command_eve_prompt_admission(&mut registry, &request.request_id, "session-1", true);
    let (delivered, _) = delivery_ticket.wait(&mut registry, AdmissionWait::Delivered(()));
    delivered.unwrap();
    assert_eq!(
        claim_command_eve_prompt_admission(&mut registry, &request, "session-1", true),
        Ok(CommandEvePromptAdmissionClaimResult::AlreadyAccepted)
    );
    forget_command_eve_prompt_admission(&mut registry, turn_id);
    assert!(command_eve_prompt_admission_for_turn(&registry, turn_id).is_none());
}

#[test]
fn commit_is_rejected_until_acp_has_admitted_the_exact_prompt() {
    let mut registry = AdmissionRegistry::new();
    let turn_id = "turn-commit";
    let ticket =
        register_command_eve_prompt_admission(&mut registry, turn_id, &"b".repeat(64)).unwrap();
    let request = command_eve_prompt_admission_for_turn(&registry, turn_id).unwrap();

    assert_eq!(
        claim_command_eve_prompt_admission(&mut registry, &request, "session-2", true),
        Err("request_not_admitted"),
        "commit cannot precede ACP acceptance"
    );
    admit_command_eve_prompt_admission(&mut registry, &request, "session-2").unwrap();
    assert_eq!(
        claim_command_eve_prompt_admission(&mut registry, &request, "session-2", true),
        Ok(CommandEvePromptAdmissionClaimResult::AwaitingDecision)
    );
    let (claim, _) = ticket.wait(
        &mut registry,
        AdmissionWait::Delivered(CommandEvePromptAdmissionClaim {
            session_id: "session-2".to_owned(),
            turn_id: turn_id.to_owned(),
        }),
    );
    assert_eq!(
        claim.unwrap().reject(),
        CommandEvePromptAdmissionDecision::Rejected
    );
    forget_command_eve_prompt_admission(&mut registry, turn_id);
}

#[test]
fn mismatch_does_not_consume_the_registered_turn() {
    let mut registry = AdmissionRegistry::new();
    let turn_id = "turn-mismatch";
    let ticket =
        register_command_eve_prompt_admission(&mut registry, turn_id, &"b".repeat(64)).unwrap();
    let mut mismatched = command_eve_prompt_admission_for_turn(&registry, turn_id).unwrap();
    mismatched.receipt_sha256 = "c".repeat(64);
    assert_eq!(
        admit_command_eve_prompt_admission(&mut registry, &mismatched, "session-1"),
        Err("request_mismatch"),
        "mismatched receipt digest must be rejected"
    );
    assert!(command_eve_prompt_admission_for_turn(&registry, turn_id).is_some());
    let wake = reject_command_eve_prompt_admission(
        &mut registry,
        turn_id,
        "ATTACHMENT_PROMPT_ADMISSION_TEST_REJECTED",
    )
    .expect("rejected admission must wake the waiting service");
    assert_eq!(wake.waiter, AdmissionWaiter::Claim);
    let (error, _) = ticket.wait(&mut registry, AdmissionWait::Refused(wake.code));
    assert!(error.unwrap_err().message().contains("TEST_REJECTED"));
}

#[test]
fn wire_contract_requires_the_exact_accept_commit_or_finalize_phase() {
    fn wire(phase: &str, extra: &str) -> String {
        format!(
            "{{\"version\":\"{COMMAND_EVE_PROMPT_ADMISSION_VERSION}\",\"request_id\":\"request-1\",\"turn_id\":\"turn-1\",\"receipt_sha256\":\"{}\",\"session_id\":\"session-1\"{phase}{extra}}}",
            "d".repeat(64)
        )
    }
    let accept = parse_wire_request(&json(&wire(",\"phase\":\"accept\"", ""))).unwrap();
    assert_eq!(accept.phase, CommandEvePromptAdmissionPhase::Accept);
    assert_eq!(accept.request().request_id, "request-1");
    let commit = parse_wire_request(&json(&wire(",\"phase\":\"commit\"", ""))).unwrap();
    assert_eq!(commit.phase, CommandEvePromptAdmissionPhase::Commit);
    let finalize = parse_wire_request(&json(&wire(",\"phase\":\"finalize\"", ""))).unwrap();
    assert_eq!(finalize.phase, CommandEvePromptAdmissionPhase::Finalize);
    assert!(parse_wire_request(&json(&wire("", ""))).is_none());
    assert!(
        parse_wire_request(&json(&wire(",\"phase\":\"accept\"", ",\"unexpected\":true"))).is_none()
    );
}

#[test]
fn registration_is_checked_and_bounded() {
    let mut registry = AdmissionRegistry::new();
    let digest = "a".repeat(64);
    assert_eq!(
        register_command_eve_prompt_admission(&mut registry, "has space", &digest)
            .unwrap_err()
            .message(),
        "invalid_identifier"
    );
    assert_eq!(
        register_command_eve_prompt_admission(&mut registry, "turn", "short")
            .unwrap_err()
            .message(),
        "invalid_receipt_sha256"
    );
    for index in 0..MAX_ACTIVE_ADMISSIONS {
        register_command_eve_prompt_admission(&mut registry, &format!("turn-{index}"), &digest)
            .unwrap();
    }
    assert_eq!(
        register_command_eve_prompt_admission(&mut registry, "turn-0", &digest)
            .unwrap_err()
            .message(),
        "ATTACHMENT_PROMPT_ADMISSION_ALREADY_REGISTERED"
    );
    assert_eq!(
        register_command_eve_prompt_admission(&mut registry, "one-more", &digest)
            .unwrap_err()
            .message(),
        "ATTACHMENT_PROMPT_ADMISSION_SATURATED"
    );
}

#[test]
fn request_ids_are_fresh_uuids() {
    let mut registry = AdmissionRegistry::new();
    let digest = "a".repeat(64);
    register_command_eve_prompt_admission(&mut registry, "turn-1", &digest).unwrap();
    register_command_eve_prompt_admission(&mut registry, "turn-2", &digest).unwrap();
    let first = command_eve_prompt_admission_for_turn(&registry, "turn-1").unwrap();
    let second = command_eve_prompt_admission_for_turn(&registry, "turn-2").unwrap();
    assert_ne!(first.request_id, second.request_id);
    assert_eq!(first.request_id.len(), 36);
    assert_eq!(first.request_id.as_bytes()[14], b'4');
}

#[test]
fn turn_that_is_gone_takes_its_request_with_it() {
    let mut registry = AdmissionRegistry::new();
    let ticket =
        register_with_request_id(&mut registry, "turn-1", &"a".repeat(64), "request-1").unwrap();
    assert_eq!(ticket.turn_id, "turn-1");
    let request = command_eve_prompt_admission_for_turn(&registry, "turn-1").unwrap();
    admit_command_eve_prompt_admission(&mut registry, &request, "session-1").unwrap();
    assert_eq!(
        claim_command_eve_prompt_admission(&mut registry, &request, "session-1", false),
        Err("consumer_unavailable")
    );
    assert!(command_eve_prompt_admission_for_turn(&registry, "turn-1").is_none());
    assert_eq!(
        admit_command_eve_prompt_admission(&mut registry, &request, "session-1"),
        Err("unknown_request")
    );
}

#[test]
fn waiting_too_long_ends_the_admission() {
    let mut registry = AdmissionRegistry::new();
    let ticket =
        register_command_eve_prompt_admission(&mut registry, "turn-1", &"a".repeat(64)).unwrap();
    let (result, _) = ticket.wait(&mut registry, AdmissionWait::TimedOut);
    assert!(result.is_err());
    assert!(command_eve_prompt_admission_for_turn(&registry, "turn-1").is_none());
}
