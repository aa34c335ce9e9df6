use aionui_ai_agent::identifiers::{ConfigKey, ConfigValue, ModeId, ModelId, SessionId};
use aionui_ai_agent::json::JsonValue;
use aionui_ai_agent::session::{
    AcpSession, AcpSessionEvent, CatalogEntry, CloseReason, PendingStartupConfigSeedResult,
    PersistedSessionState, SessionConfigKind, SessionConfigOption, SessionConfigOptionCategory,
    SessionConfigSelectOptions, SessionModeState, SessionModelState,
};
use aionui_ai_agent::text_map::TextMap;

fn modes(current: &str, ids: &[&str]) -> SessionModeState {
    SessionModeState {
        current_mode_id: current.to_owned(),
        available_modes: ids.iter().map(|id| CatalogEntry::new(id, id)).collect(),
    }
}

fn models(current: &str, ids: &[&str]) -> SessionModelState {
    SessionModelState {
        current_model_id: current.to_owned(),
        available_models: ids.iter().map(|id| CatalogEntry::new(id, id)).collect(),
    }
}

fn thought_option(current: &str) -> SessionConfigOption {
    SessionConfigOption {
        id: "reasoning_effort".to_owned(),
        category: Some(SessionConfigOptionCategory::ThoughtLevel),
        kind: SessionConfigKind::Select {
            current_value: current.to_owned(),
            options: SessionConfigSelectOptions::Ungrouped(vec![
                "low".to_owned(),
                "high".to_owned(),
            ]),
        },
    }
}

#[test]
fn session_is_assigned_and_opened_once() {
    let mut session = AcpSession::new(None, None, TextMap::new());
    session.set_session_id(SessionId::new("session-1"));
    session.mark_opened();
    session.mark_opened();
    assert_eq!(session.session_id(), Some("session-1"));
    assert!(session.is_opened());
    let events = session.drain_events();
    assert!(matches!(&events[0], AcpSessionEvent::SessionAssigned { session_id } if session_id.as_str() == "session-1"));
    assert_eq!(
        events
            .iter()
            .filter(|event| matches!(event, AcpSessionEvent::SessionOpened))
            .count(),
        1
    );
    session.clear_session_id();
    assert_eq!(session.session_id(), None);
    assert!(!session.is_opened());
}

#[test]
fn unavailable_wish_is_dropped_once_the_catalog_is_known() {
    let mut session =
        AcpSession::new(Some(ModeId::new("gone")), Some(ModelId::new("old")), TextMap::new());
    session.apply_advertised_modes(modes("default", &["default", "plan"]));
    session.apply_advertised_models(models("m1", &["m1"]));
    assert!(!session.can_select_mode("gone"));
    assert!(session.can_select_mode("plan"));
    assert_eq!(
        session.clear_invalid_desired_mode().map(|mode| mode.as_str().to_owned()),
        Some("gone".to_owned())
    );
    assert_eq!(
        session.clear_invalid_desired_model().map(|model| model.as_str().to_owned()),
        Some("old".to_owned())
    );
    assert!(session.plan_reconcile().is_empty());
}

#[test]
fn wish_is_reconciled_until_it_is_observed() {
    let mut session = AcpSession::new(None, None, TextMap::new());
    session.apply_advertised_modes(modes("default", &["default", "plan"]));
    assert!(session.set_desired_mode(ModeId::new("plan")));
    assert!(!session.set_desired_mode(ModeId::new("plan")));
    assert_eq!(session.plan_reconcile().len(), 1);
    session.apply_observed_mode(ModeId::new("plan"));
    assert!(session.plan_reconcile().is_empty());
    assert_eq!(session.current_mode_id().as_deref(), Some("plan"));
}

#[test]
fn startup_seed_waits_for_its_option() {
    let mut session = AcpSession::new(None, None, TextMap::new());
    session.seed_pending_startup_config(
        SessionConfigOptionCategory::ThoughtLevel,
        ConfigValue::new("high"),
    );
    session.apply_advertised_config_options(vec![thought_option("low")], None, None);
    let results = session.resolve_pending_startup_config_seeds();
    assert!(matches!(
        results.as_slice(),
        [PendingStartupConfigSeedResult::Applied { option_id, .. }]
            if option_id.as_str() == "reasoning_effort"
    ));
    assert_eq!(
        session.desired_config_selections().get("reasoning_effort"),
        Some(&"high".to_owned())
    );

    let mut other = AcpSession::new(None, None, TextMap::new());
    other.seed_pending_startup_config(
        SessionConfigOptionCategory::ThoughtLevel,
        ConfigValue::new("unheard-of"),
    );
    other.apply_advertised_config_options(vec![thought_option("low")], None, None);
    assert!(matches!(
        other.resolve_pending_startup_config_seeds().as_slice(),
        [PendingStartupConfigSeedResult::ValueNotSelectable { .. }]
    ));

    let mut none = AcpSession::new(None, None, TextMap::new());
    none.seed_pending_startup_config(SessionConfigOptionCategory::Mode, ConfigValue::new("plan"));
    none.apply_advertised_config_options(vec![thought_option("low")], None, None);
    assert!(matches!(
        none.resolve_pending_startup_config_seeds().as_slice(),
        [PendingStartupConfigSeedResult::OptionNotAdvertised { .. }]
    ));
}

#[test]
fn usage_is_told_when_it_changes() {
    let mut session = AcpSession::new(None, None, TextMap::new());
    session.apply_context_usage("{\"used\":1}");
    session.apply_context_usage("{\"used\":1}");
    session.apply_context_usage("{\"used\":2}");
    assert_eq!(session.drain_events().len(), 2);
    assert_eq!(session.context_usage(), Some("{\"used\":2}"));
}

#[test]
fn stored_state_is_taken_over_without_telling() {
    let mut config = TextMap::new();
    config.insert("k", "v".to_owned());
    let mut session = AcpSession::new(None, None, TextMap::new());
    session.preload_persisted(&PersistedSessionState {
        current_mode_id: Some(ModeId::new("plan")),
        current_model_id: Some(ModelId::new("m1")),
        config_selections: config,
        context_usage: None,
    });
    assert_eq!(session.observed_mode(), Some("plan"));
    assert_eq!(session.current_model_id().as_deref(), Some("m1"));
    assert!(session.drain_events().is_empty());
    assert!(!session.command_eve_policy_acknowledged());
}

#[test]
fn configuration_is_set_by_one_at_a_time() {
    let mut session = AcpSession::new(None, None, TextMap::new());
    let token = session.try_begin_config_set().unwrap();
    assert!(session.try_begin_config_set().is_none());
    session.end_config_set(token);
    assert!(session.try_begin_config_set().is_some());
    session.set_desired_config(ConfigKey::new("k"), ConfigValue::new("v"));
    assert_eq!(session.desired_config_selections().get("k"), Some(&"v".to_owned()));
}

#[test]
fn close_reason_and_prelude_are_taken_once() {
    let mut session = AcpSession::new(None, None, TextMap::new());
    session.record_close_reason(Some(CloseReason { code: "exit".to_owned(), detail: None }));
    assert_eq!(session.take_close_reason().unwrap().code, "exit");
    assert!(session.last_close_reason().is_none());
    session.mark_pending_session_new_prelude();
    assert!(session.take_pending_session_new_prelude());
    assert!(!session.take_pending_session_new_prelude());
}

#[test]
fn what_the_agent_advertises_is_kept_as_it_is() {
    let mut session = AcpSession::new(None, None, TextMap::new());
    assert!(session.agent_capabilities().is_none());
    session.apply_advertised_capabilities(JsonValue::Bool(true));
    session.apply_advertised_auth_methods(vec![JsonValue::Null]);
    session.apply_advertised_commands(vec![JsonValue::Null, JsonValue::Bool(false)]);
    assert!(matches!(session.agent_capabilities(), Some(JsonValue::Bool(true))));
    assert_eq!(session.auth_methods().unwrap().len(), 1);
    assert_eq!(session.available_commands().unwrap().len(), 2);
}
