use aionui_ai_agent::agent_reconcile::{
    PolicyPreparation, ReconcileAction, ReconcileCommand, ReconcileRun,
};
use aionui_ai_agent::identifiers::{ConfigKey, ConfigValue, ModeId, ModelId, SessionId};
use aionui_ai_agent::permission_authority::RuntimeCapabilityReceipt;
use aionui_ai_agent::permission_router::PermissionRouter;
use aionui_ai_agent::session::{AcpSession, CatalogEntry, SessionModeState};
use aionui_ai_agent::text_map::TextMap;

#[test]
fn reconcile_action_equality() {
    let a = ReconcileAction::SetMode {
        mode: ModeId::new("plan"),
    };
    let b = ReconcileAction::SetMode {
        mode: ModeId::new("plan"),
    };
    assert_eq!(a, b);
    assert!(a.same_as(&b));
}

#[test]
fn reconcile_set_config_option_ack_must_not_be_modeled_as_observed_event() {
    let mut wanted = TextMap::new();
    wanted.insert("reasoning_effort", "high".to_owned());
    let mut session = AcpSession::new(None, None, wanted);

    session.apply_observed_config(
        ConfigKey::new("reasoning_effort"),
        ConfigValue::new("medium"),
    );
    session.drain_events();

    let actions = session.plan_reconcile();
    assert_eq!(actions.len(), 1);
    assert!(matches!(actions[0], ReconcileAction::SetConfigOption { .. }));

    let events = session.drain_events();
    assert!(events.is_empty());
}

#[test]
fn session_in_its_wanted_state_is_left_alone() {
    let mut session = AcpSession::new(None, None, TextMap::new());
    let mut router = PermissionRouter::new();
    let (mut run, report, gate, notices) = ReconcileRun::begin(&mut session, &mut router, false);
    assert!(report.seed_results.is_empty());
    assert!(gate.is_none());
    assert!(notices.is_empty());
    assert!(matches!(run.next(), ReconcileCommand::Done));
}

#[test]
fn model_is_set_before_the_run_ends() {
    let mut session = AcpSession::new(None, Some(ModelId::new("wanted")), TextMap::new());
    session.apply_observed_model(ModelId::new("other"));
    let mut router = PermissionRouter::new();
    let (mut run, _, _, _) = ReconcileRun::begin(&mut session, &mut router, false);
    assert!(matches!(
        run.next(),
        ReconcileCommand::SetModel { model } if model.as_str() == "wanted"
    ));
    assert!(matches!(run.on_model_set(), ReconcileCommand::Done));
}

#[test]
fn vanished_session_ends_the_run() {
    let mut session = AcpSession::new(None, Some(ModelId::new("wanted")), TextMap::new());
    session.apply_observed_model(ModelId::new("other"));
    let mut router = PermissionRouter::new();
    let (mut run, _, _, _) = ReconcileRun::begin(&mut session, &mut router, false);
    run.next();
    assert!(matches!(run.on_failed(true), ReconcileCommand::Aborted));
}

#[test]
fn command_eve_mode_is_prepared_before_it_is_sent() {
    let mut session = AcpSession::new(Some(ModeId::new("dont_ask")), None, TextMap::new());
    assert!(session.apply_command_eve_runtime_hello(RuntimeCapabilityReceipt::test_receipt()));
    assert!(session.apply_command_eve_transport_modes(SessionModeState {
        current_mode_id: "default".to_owned(),
        available_modes: vec![CatalogEntry::new("default", "Ask")],
    }));
    session.set_session_id(SessionId::new("session-1"));
    let mut router = PermissionRouter::new();
    let (mut run, _, gate, _) = ReconcileRun::begin(&mut session, &mut router, true);
    assert!(gate.is_none());
    let mode = match run.next() {
        ReconcileCommand::NormalizeMode { mode } => mode,
        other => panic!("a mode is normalized first: {other:?}"),
    };
    assert_eq!(mode.as_str(), "dont_ask");
    let (command, preparation, _) =
        run.on_normalized(&mut session, &mut router, "session-1", "dont_ask");
    assert_eq!(preparation, Some(PolicyPreparation::Ready));
    assert!(matches!(
        command,
        ReconcileCommand::SetMode { transport_mode } if transport_mode == "default"
    ));
    let (_, acknowledged, _) = run.on_mode_set(&mut session, &mut router);
    assert!(acknowledged);
    assert!(session.command_eve_policy_acknowledged());
    assert!(router.current_policy().is_some());
}
