use aionui_ai_agent::error::AgentError;
use aionui_ai_agent::project_runtime_fence::{
    ProjectRuntimeBuildGate, ProjectRuntimeContext, ProjectRuntimeEpochRegistry, ProjectRuntimeUse,
};

fn turn() -> ProjectRuntimeUse {
    ProjectRuntimeUse::Turn { turn_id: "turn-1".to_owned() }
}

#[test]
fn use_and_change_exclude_each_other() {
    let mut registry = ProjectRuntimeEpochRegistry::new();
    let gate = ProjectRuntimeBuildGate::new(&mut registry, "conv-1", 1);
    let permit = gate
        .acquire_and_revalidate(&mut registry, turn(), Ok(()))
        .unwrap()
        .unwrap();
    assert_eq!(permit.runtime_use(), &turn());
    assert!(registry.try_begin_mutation("conv-1").is_err());
    assert!(registry.try_begin_mutation("conv-2").is_ok());
    assert!(permit.release(&mut registry).is_empty());
    let change = registry.try_begin_mutation("conv-1").unwrap();
    assert!(gate
        .acquire_and_revalidate(&mut registry, turn(), Ok(()))
        .is_none());
    change.end(&mut registry);
    assert!(gate
        .acquire_and_revalidate(&mut registry, turn(), Ok(()))
        .unwrap()
        .is_ok());
}

#[test]
fn advanced_generation_invalidates_earlier_gates() {
    let mut registry = ProjectRuntimeEpochRegistry::new();
    let gate = ProjectRuntimeBuildGate::new(&mut registry, "conv-1", 1);
    let before = registry.runtime_generation("conv-1");
    assert_eq!(gate.process_runtime_generation(), before);
    let change = registry.try_begin_mutation("conv-1").unwrap();
    let after = change.commit_runtime_identity(&mut registry, 1, true).unwrap();
    change.end(&mut registry);
    assert_eq!(after, before + 1);
    assert!(gate
        .acquire_and_revalidate(&mut registry, turn(), Ok(()))
        .unwrap()
        .is_err());
    let fresh = ProjectRuntimeBuildGate::new(&mut registry, "conv-1", 1);
    assert!(fresh
        .acquire_and_revalidate(&mut registry, turn(), Ok(()))
        .unwrap()
        .is_ok());
}

#[test]
fn failed_revalidation_leaves_nothing_held() {
    let mut registry = ProjectRuntimeEpochRegistry::new();
    let gate = ProjectRuntimeBuildGate::new(&mut registry, "conv-1", 1);
    let result = gate.acquire_and_revalidate(
        &mut registry,
        ProjectRuntimeUse::Warmup,
        Err(AgentError::conflict("stale")),
    );
    assert_eq!(result.unwrap().unwrap_err().message(), "stale");
    assert!(registry.try_begin_mutation("conv-1").is_ok());
}

#[test]
fn permit_knows_its_context_and_its_callbacks() {
    let mut registry = ProjectRuntimeEpochRegistry::new();
    let gate = ProjectRuntimeBuildGate::new(&mut registry, "conv-1", 7);
    let mut permit = gate
        .acquire_and_revalidate(&mut registry, turn(), Ok(()))
        .unwrap()
        .unwrap();
    let context = ProjectRuntimeContext {
        project_binding_revision: 7,
        process_runtime_generation: gate.process_runtime_generation(),
    };
    assert!(permit.matches("conv-1", &context));
    assert!(!permit.matches("conv-2", &context));
    assert!(permit.register_release_callback(1));
    assert!(!permit.register_release_callback(1));
    assert!(permit.register_release_callback(2));
    assert_eq!(permit.release(&mut registry), vec![1, 2]);
}

#[test]
fn forgotten_conversation_starts_over() {
    let mut registry = ProjectRuntimeEpochRegistry::new();
    let first = registry.runtime_generation("conv-1");
    let change = registry.try_begin_mutation("conv-1").unwrap();
    change.commit_runtime_identity(&mut registry, 1, true).unwrap();
    change.end(&mut registry);
    assert_ne!(registry.runtime_generation("conv-1"), first);
    registry.forget("conv-1");
    assert_eq!(registry.runtime_generation("conv-1"), first);
}
