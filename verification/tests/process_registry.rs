use aionui_ai_agent::error::AgentError;
use aionui_ai_agent::process_registry::{
    agent_process_registry_external_fallback_dir, agent_process_registry_fallback_dir,
    agent_process_registry_path, capture_process_identity_or_unproven, check_parentage,
    darwin_process_identity, emergency_evidence, emergency_evidence_file_name, evidence_outcome,
    external_evidence_key, external_evidence_key_preimage, finish_process_registration,
    is_exact_lowercase_uuid, linux_process_identity, needs_emergency_evidence, new_registration,
    normalize_windows_canonical_path,
    parse_linux_proc_stat, plan_registration, platform_requires_proven_process_identity,
    refuse_under_supervision, same_signal_authority, windows_process_identity, DarwinProcessInfo,
    EvidenceErrorKind, EvidenceOutcome, LinuxProcStatIdentity, ProcessIdentity, ProcessRegistry,
    ProcessStartTime, RegisteredAgentProcess, RegisteredProcessLease, RegistrationPlan,
    TerminationCommand, TerminationRun, UnpersistedSupervision,
};

fn sample_identity() -> ProcessIdentity {
    ProcessIdentity {
        platform: "darwin".into(),
        start_time: ProcessStartTime {
            kind: "unix_epoch_us".into(),
            value: "1723728000123456".into(),
        },
        parent_pid: 7,
        executable_path: "/usr/bin/agent".into(),
    }
}

fn sample_entry(pid: u32) -> RegisteredAgentProcess {
    RegisteredAgentProcess {
        pid,
        process_group_id: Some(pid),
        conversation_id: format!("conv-{pid}"),
        agent_type: "acp".into(),
        backend: Some("codex".into()),
        command_preview: None,
        registered_at_ms: 123,
        process_identity: Some(sample_identity()),
    }
}

fn lease_of(entry: &RegisteredAgentProcess) -> RegisteredProcessLease {
    RegisteredProcessLease {
        data_dir: "/data".into(),
        pid: entry.pid,
        process_group_id: entry.process_group_id,
        registered_at_ms: entry.registered_at_ms,
        process_identity: Some(sample_identity()),
    }
}

#[test]
fn registry_path_is_scoped_under_runtime_dir() {
    let dir = tempfile::tempdir().unwrap();
    let path = agent_process_registry_path(dir.path().to_str().unwrap());
    assert_eq!(
        std::path::PathBuf::from(path),
        dir.path().join("runtime/agent-process-registry.json")
    );
}

#[test]
fn register_then_unregister_updates_registry_file() {
    let mut registry = ProcessRegistry::default();
    registry.register(sample_entry(42));
    assert_eq!(registry.version, 2);
    assert_eq!(registry.processes, vec![sample_entry(42)]);

    let removed = lease_of(&sample_entry(42)).unregister_after_absence_proof(&mut registry, Ok(()));
    assert!(removed.unwrap());
    assert!(registry.processes.is_empty());
}

#[test]
fn unproven_tree_absence_retains_exact_registry_evidence() {
    let mut registry = ProcessRegistry::default();
    registry.register(sample_entry(42));
    let lease = lease_of(&sample_entry(42));

    assert!(lease
        .unregister_after_absence_proof(
            &mut registry,
            Err(AgentError::internal("fixture keeps descendant alive"))
        )
        .is_err());
    assert_eq!(registry.processes, vec![sample_entry(42)]);
}

#[test]
fn registering_v2_preserves_unproven_v1_entries_for_fail_closed_cleanup() {
    let mut legacy = sample_entry(41);
    legacy.process_identity = None;
    legacy.registered_at_ms = 100;
    let mut registry = ProcessRegistry { version: 1, processes: vec![legacy] }
        .checked()
        .unwrap();

    registry.register(sample_entry(42));
    assert_eq!(registry.version, 2);
    assert_eq!(registry.processes.len(), 2);
    assert_eq!(registry.processes[0].pid, 41);
    assert_eq!(registry.processes[0].process_identity, None);
    assert_eq!(registry.processes[1].process_identity, Some(sample_identity()));
}

#[test]
fn registry_of_an_unknown_version_is_refused() {
    let registry = ProcessRegistry { version: 3, processes: vec![] };
    assert_eq!(registry.checked().unwrap_err(), 3);
}

#[test]
fn every_registry_rewrite_scrubs_legacy_raw_command_arguments() {
    let mut legacy = sample_entry(41);
    legacy.command_preview = Some("agent --api-key=secret-arg-value".into());
    let mut registry = ProcessRegistry { version: 1, processes: vec![legacy] }
        .checked()
        .unwrap();

    registry.register(sample_entry(42));
    let written = registry.scrubbed();
    assert_eq!(written.processes.len(), 2);
    assert!(written
        .processes
        .iter()
        .all(|process| process.command_preview.is_none()));
}

#[test]
fn delayed_unregister_cannot_remove_a_reused_pid_registration() {
    fn replacement() -> RegisteredAgentProcess {
        let mut replacement = sample_entry(42);
        replacement.registered_at_ms += 1;
        replacement.process_identity.as_mut().unwrap().start_time.value = "1723728001123456".into();
        replacement
    }
    let old_entry = sample_entry(42);
    let mut registry = ProcessRegistry::default();
    registry.register(sample_entry(42));
    registry.register(replacement());

    assert!(!registry.unregister_if_matching(
        old_entry.pid,
        old_entry.registered_at_ms,
        &old_entry.process_identity,
    ));
    assert_eq!(registry.processes, vec![replacement()]);

    let replacement = replacement();
    assert!(registry.unregister_if_matching(
        replacement.pid,
        replacement.registered_at_ms,
        &replacement.process_identity,
    ));
    assert!(registry.processes.is_empty());
}

#[test]
fn capture_failure_degrades_to_an_explicitly_unproven_identity() {
    let denied = check_parentage(7, 8, None, 42);
    let identity = capture_process_identity_or_unproven(match denied {
        Ok(()) => Ok(Some(sample_identity())),
        Err(error) => Err(error),
    });
    assert_eq!(identity, None);
    assert_eq!(
        capture_process_identity_or_unproven(Ok(Some(sample_identity()))),
        Some(sample_identity())
    );
}

#[test]
fn failed_registry_write_cleans_up_the_spawned_process_tree() {
    let result = finish_process_registration(
        42,
        Err("fixture denies registry write".to_owned()),
        true,
        EvidenceOutcome::Lost,
    );
    assert!(result
        .unwrap_err()
        .message()
        .contains("fixture denies registry write"));
    assert!(!needs_emergency_evidence(false, true));
}

#[test]
fn failed_registry_write_with_unproven_cleanup_persists_emergency_evidence() {
    assert!(needs_emergency_evidence(false, false));
    let result = finish_process_registration(
        42,
        Err("fixture denies registry write".to_owned()),
        false,
        evidence_outcome(true, false),
    );
    assert!(result
        .unwrap_err()
        .message()
        .contains("emergency evidence retained"));
    let evidence = emergency_evidence(&sample_entry(42));
    assert_eq!(evidence.version, 1);
    assert_eq!(evidence.reason, "registry_write_failed_cleanup_unproven");
    assert_eq!(evidence.process, sample_entry(42));
    assert_eq!(
        emergency_evidence_file_name(&sample_entry(42)),
        "agent-process-123-42.json"
    );
}

#[test]
fn evidence_that_cannot_be_stored_is_never_claimed_to_be() {
    for (held, outcome) in [
        (true, EvidenceOutcome::Supervised),
        (false, EvidenceOutcome::Lost),
    ] {
        assert_eq!(evidence_outcome(false, held), outcome);
        let error =
            finish_process_registration(42, Err("denied".to_owned()), false, outcome).unwrap_err();
        assert!(!error.message().contains("evidence retained"));
    }
}

#[test]
fn external_evidence_key_preimage_is_cross_language_stable_for_windows_drive_and_unc_paths() {
    let drive = external_evidence_key_preimage(
        "windows",
        r"\\?\C:\Users\Mathias\AppData\Roaming\Command EVE",
    )
    .unwrap();
    assert_eq!(
        String::from_utf8(drive).unwrap(),
        "command-eve-agent-process-registry-external-key/v1\0windows\0c:/users/mathias/appdata/roaming/command eve"
    );
    let unc =
        external_evidence_key_preimage("win32", r"\\?\UNC\Server\Share\Command EVE").unwrap();
    assert_eq!(
        String::from_utf8(unc).unwrap(),
        "command-eve-agent-process-registry-external-key/v1\0windows\0//server/share/command eve"
    );
}

#[test]
fn external_evidence_goes_below_the_key_of_the_data_folder() {
    let key = external_evidence_key("linux", "/home/user/data").unwrap();
    assert_eq!(key.len(), 64);
    assert_ne!(key, external_evidence_key("linux", "/home/user/other").unwrap());
    let directory =
        agent_process_registry_external_fallback_dir("/tmp", "linux", "/home/user/data").unwrap();
    assert!(directory.starts_with("/tmp/"));
    assert!(directory.contains(&key));
    assert!(agent_process_registry_fallback_dir("/data").starts_with("/data/"));
}

#[test]
fn emergency_evidence_rescrubs_a_legacy_command_preview() {
    let mut entry = sample_entry(42);
    entry.command_preview = Some("agent --api-key=secret-arg-value".into());
    assert_eq!(emergency_evidence(&entry).process.command_preview, None);
}

#[test]
fn recycled_birth_identity_never_matches_signal_authority() {
    let expected = sample_identity();
    let mut recycled = sample_identity();
    recycled.start_time.value = "1723728000123457".into();
    assert!(!same_signal_authority(&expected, &recycled));
    assert!(same_signal_authority(&expected, &sample_identity()));
}

#[test]
fn windows_requires_proven_identity_before_registry_publication() {
    assert!(platform_requires_proven_process_identity("windows"));
    assert!(!platform_requires_proven_process_identity("macos"));
    assert!(!platform_requires_proven_process_identity("linux"));
    assert_eq!(
        plan_registration(false, false, "windows"),
        RegistrationPlan::RefuseUnproven
    );
    assert_eq!(plan_registration(false, false, "linux"), RegistrationPlan::Register);
    assert_eq!(
        plan_registration(true, true, "linux"),
        RegistrationPlan::RefuseUnderSupervision
    );
    let (watched, error) = refuse_under_supervision(false);
    assert!(watched);
    assert!(error.message().contains("fail-closed"));
}

#[test]
fn parses_linux_proc_stat_with_parenthesis_in_command() {
    let mut fields = vec!["S", "42", "123"];
    fields.extend(vec!["0"; 16]);
    fields.push("98765");
    let stat = format!("123 (agent ) helper) {}", fields.join(" "));

    assert_eq!(
        parse_linux_proc_stat(&stat).unwrap(),
        LinuxProcStatIdentity {
            parent_pid: 42,
            process_group_id: 123,
            start_time_ticks: 98765,
        }
    );
    assert!(parse_linux_proc_stat("no command").is_err());
    assert!(parse_linux_proc_stat("123 (agent) S 42").is_err());
}

#[test]
fn accepts_only_exact_lowercase_linux_boot_uuid() {
    assert!(is_exact_lowercase_uuid("11111111-2222-3333-4444-555555555555"));
    assert!(!is_exact_lowercase_uuid("11111111-2222-3333-4444-55555555555A"));
    assert!(!is_exact_lowercase_uuid("111111112222-3333-4444-555555555555"));
}

#[test]
fn identity_of_a_linux_process_names_its_boot_and_its_ticks() {
    let fields = LinuxProcStatIdentity {
        parent_pid: 42,
        process_group_id: 123,
        start_time_ticks: 98765,
    };
    let identity = linux_process_identity(
        fields,
        "11111111-2222-3333-4444-555555555555",
        "/usr/bin/agent",
    )
    .unwrap();
    assert_eq!(identity.platform, "linux");
    assert_eq!(identity.parent_pid, 42);
    assert!(identity.start_time.value.contains("98765"));
    let error = linux_process_identity(fields, "not-a-boot-id", "/usr/bin/agent").unwrap_err();
    assert_eq!(error.kind(), EvidenceErrorKind::InvalidData);
}

#[test]
fn identity_of_a_darwin_process_is_bound_to_its_parent_and_group() {
    let info = DarwinProcessInfo {
        pid: 42,
        parent_pid: 7,
        process_group_id: 42,
        start_seconds: 1_723_728_000,
        start_microseconds: 123_456,
    };
    let identity = darwin_process_identity(42, info, "/usr/bin/agent", Some(42), 7).unwrap();
    assert_eq!(identity, sample_identity());
    let mismatch = darwin_process_identity(42, info, "/usr/bin/agent", Some(43), 7).unwrap_err();
    assert_eq!(mismatch.kind(), EvidenceErrorKind::InvalidData);
    assert!(darwin_process_identity(42, info, "/usr/bin/agent", Some(42), 8).is_err());
}

#[test]
fn identity_of_a_windows_process_needs_an_absolute_path() {
    let identity = windows_process_identity(1, 2, r"C:\agent.exe", true, 7).unwrap();
    assert_eq!(identity.platform, "win32");
    assert_eq!(identity.start_time.value, "4294967298");
    assert!(windows_process_identity(1, 2, "agent.exe", false, 7).is_err());
}

#[test]
fn registration_carries_no_command() {
    let (entry, lease) = new_registration(
        "/data",
        42,
        Some(42),
        "conv-42",
        "acp",
        Some("codex".to_owned()),
        123,
        Some(sample_identity()),
    );
    assert_eq!(entry, sample_entry(42));
    assert_eq!(lease.data_dir, "/data");
    assert_eq!(lease.pid, 42);
}

#[test]
fn only_the_same_birth_may_be_signalled() {
    let lease = lease_of(&sample_entry(42));
    assert!(lease
        .revalidate_signal_authority(Ok(Some(sample_identity())))
        .is_ok());
    let mut recycled = sample_identity();
    recycled.start_time.value = "1".into();
    assert!(lease.revalidate_signal_authority(Ok(Some(recycled))).is_err());
    assert!(lease.revalidate_signal_authority(Ok(None)).is_err());
    assert!(lease
        .revalidate_signal_authority(Err("unreadable".to_owned()))
        .is_err());
}

#[test]
fn termination_kills_only_after_a_fresh_look() {
    let lease = lease_of(&sample_entry(42));
    let (mut run, first) = TerminationRun::new();
    assert_eq!(first, TerminationCommand::CloseInput);
    assert_eq!(run.after_grace(true), TerminationCommand::Observe);
    assert_eq!(
        run.after_observation(&lease, Ok(Some(sample_identity()))).unwrap(),
        TerminationCommand::Kill
    );
    assert_eq!(run.after_kill(42, true).unwrap(), TerminationCommand::ProveAbsence);

    let (mut gone, _) = TerminationRun::new();
    assert_eq!(gone.after_grace(false), TerminationCommand::ProveAbsence);

    let (mut stuck, _) = TerminationRun::new();
    stuck.after_grace(true);
    let mut recycled = sample_identity();
    recycled.start_time.value = "1".into();
    assert!(stuck.after_observation(&lease, Ok(Some(recycled))).is_err());
}

#[test]
fn supervision_lasts_until_every_process_is_retired() {
    let mut supervision = UnpersistedSupervision::new();
    assert!(!supervision.is_active("/data"));
    supervision.retain("/data", 42, 123);
    supervision.retain("/data", 43, 124);
    assert!(supervision.is_active("/data"));
    assert!(!supervision.is_active("/other"));
    supervision.retire("/data", 42, 123);
    assert!(supervision.is_active("/data"));
    supervision.retire("/data", 43, 124);
    assert!(!supervision.is_active("/data"));
}

#[test]
fn windows_path_is_normal_after_one_pass() {
    let domain = "command-eve-agent-process-registry-external-key/v1\0windows\0";
    let normal = |path: &str| {
        let bytes = external_evidence_key_preimage("windows", path).unwrap();
        String::from_utf8(bytes).unwrap()[domain.len()..].to_owned()
    };
    assert_eq!(normal(r"C:\Data\Eve\\"), "c:/data/eve");
    assert_eq!(normal("c:/data/eve"), "c:/data/eve");
    assert_eq!(normal(r"\\?\C:\Data\Eve\\"), normal(r"C:\Data\Eve"));
    assert_eq!(normal(r"\\Server\Share\\"), "//server/share");
    assert_eq!(normal("//server/share"), "//server/share");
    let once = normalize_windows_canonical_path(r"\\?\UNC\Server\Share\").unwrap();
    assert_eq!(once, "//server/share");
    assert_eq!(normalize_windows_canonical_path(&once).unwrap(), once);
    for path in ["data", r"C:\a\..\b", r"C:\a\..", r"\\server", r"1:\a"] {
        assert!(external_evidence_key_preimage("windows", path).is_err(), "{path}");
    }
}
