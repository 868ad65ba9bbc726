//! The node agent and its movers, and backup runs on the exec plane.
use proteus::agent_work::{
    agent_node, existing_mover_name, fail_backup, fail_restore, is_assigned_backup,
    mover_selector, mover_timed_out, poll_backups, poll_restores, resolve_mover_image,
    run_backup_mover_pod, run_restore_mover_pod, sanitize, uuid_short, wait_mover, WaitStep,
};
use proteus::clock::Timestamp;
use proteus::crd::{
    BackupPhase, DataPlane, ProteusBackup, ProteusBackupSpec, ProteusBackupStatus, ProteusRestore,
    ProteusRestoreSpec, ProteusRestoreStatus, RestorePhase, RetentionPolicy,
};
use proteus::data_plane::PodInfo;
use proteus::error::CoreError;
use proteus::identity::{ensure_mover_identity, IdentityAction, LookupEvent};
use proteus::mover::{
    backup_message_status, backup_started_at, moved_backup_status, moved_restore_status,
    mover_manifest, mover_snapshot_id, parse_mover_args, restore_started_at, run_backup_mover,
    run_restore_mover, BackupMover, BackupMoverAction, BackupMoverEvent, MoverKind, RestoreMover,
    RestoreMoverAction, RestoreMoverEvent, TarExit,
};
use proteus::progress::{
    map_range, mount_stage_report, pvc_range, run_backup, stream_message, stream_percent,
    BackupRun, MountStage, RunAction, RunEvent,
};
use proteus::recipe::BackupRecipe;
use proteus::snapshot::{SnapshotManifest, VolumeSnapshot};

const AT: Timestamp = Timestamp { secs: 1_785_722_400, nanos: 0 };

fn strings(list: &[&str]) -> Vec<String> {
    list.iter().map(|s| s.to_string()).collect()
}

fn backup(name: &str, node: Option<&str>) -> ProteusBackup {
    let mut b = ProteusBackup::new(
        name,
        ProteusBackupSpec {
            policy_ref: None,
            policy_namespace: None,
            repository_ref: "repo".into(),
            repository_namespace: None,
            target_namespace: "workloads".into(),
            pvc_names: strings(&["data", "my.logs"]),
            label_selector: None,
            schedule: None,
            retention: RetentionPolicy::default(),
            include_volumes: true,
            include_cluster_resources: false,
        },
    );
    b.status = Some(ProteusBackupStatus {
        phase: Some(BackupPhase::Running),
        data_plane: Some(DataPlane::Agent),
        assigned_node: node.map(str::to_string),
        ..Default::default()
    });
    b
}

fn restore(name: &str, node: Option<&str>) -> ProteusRestore {
    let mut r = ProteusRestore::new(
        name,
        ProteusRestoreSpec {
            backup_ref: "b".into(),
            backup_namespace: None,
            snapshot_id: None,
            target_namespace: "target".into(),
            overwrite: false,
            include_resources: None,
        },
    );
    r.status = Some(ProteusRestoreStatus {
        phase: Some(RestorePhase::Running),
        data_plane: Some(DataPlane::Agent),
        assigned_node: node.map(str::to_string),
        ..Default::default()
    });
    r
}

#[test]
fn poll_starts_assigned_work_once() {
    let backups = vec![backup("a", Some("n1")), backup("b", Some("n2")), backup("c", Some("n1"))];
    assert!(is_assigned_backup(&backups[0], "n1"));
    assert!(!is_assigned_backup(&backups[0], "n2"));
    let mut inflight = vec!["backup:default/c".to_string()];
    let started = poll_backups(&backups, "n1", &mut inflight);
    assert_eq!(started.len(), 1);
    assert_eq!(started[0].index, 0);
    assert_eq!(started[0].key, "backup:default/a");
    assert_eq!(inflight, strings(&["backup:default/c", "backup:default/a"]));
    assert!(poll_backups(&backups, "n1", &mut inflight).is_empty());
    let restores = vec![restore("r", Some("n1"))];
    let started = poll_restores(&restores, "n1", &mut inflight);
    assert_eq!(started[0].key, "restore:default/r");
}

#[test]
fn mover_pods_mount_the_claims() {
    let b = backup("run", Some("n1"));
    let recipe = BackupRecipe::from_inline(&b.spec);
    let pod = run_backup_mover_pod("ns", &b, &recipe, "img", "abcd1234");
    assert_eq!(pod.name, "proteus-bmv-abcd1234");
    assert_eq!(pod.namespace, "workloads");
    assert_eq!(pod.node_name.as_deref(), Some("n1"));
    assert_eq!(pod.args, strings(&["mover", "backup", "--namespace", "ns", "--name", "run"]));
    assert_eq!(pod.volumes[1].name, "pvc-my-logs");
    assert_eq!(pod.mounts[1].mount_path, "/volumes/my.logs");
    assert!(pod.volumes.iter().all(|v| v.read_only));
    assert_eq!(
        mover_selector(&pod.labels).as_deref(),
        Some(
            "proteus.io/purpose=backup-mover,proteus.io/owner=run,proteus.io/owner-namespace=ns"
        )
    );
    assert_eq!(mover_selector(&vec![]), None);
    let r = restore("back", Some("n1"));
    let pod = run_restore_mover_pod("ns", &r, &recipe, "img", "abcd1234");
    assert_eq!(pod.name, "proteus-rmv-abcd1234");
    assert_eq!(pod.namespace, "target");
    assert!(pod.mounts.iter().all(|m| !m.read_only));
}

#[test]
fn uuids_are_short_hexadecimal_and_random() {
    let a = uuid_short();
    assert_eq!(a.len(), 8);
    assert!(a.chars().all(|c| c.is_ascii_hexdigit() && !c.is_ascii_uppercase()));
    assert_ne!(a, uuid_short());
}

#[test]
fn names_are_sanitized() {
    assert_eq!(sanitize("a.b_c-1é"), "a-b-c-1-");
    assert_eq!(sanitize(&sanitize("a.b")), sanitize("a.b"));
}

#[test]
fn running_mover_is_reused() {
    let pod = |name: Option<&str>, phase: &str| PodInfo {
        name: name.map(str::to_string),
        phase: Some(phase.into()),
        node_name: None,
        claims: vec![],
    };
    let pods = vec![pod(Some("old"), "Succeeded"), pod(None, "Running"), pod(Some("p"), "Pending")];
    assert_eq!(existing_mover_name(&pods).as_deref(), Some("p"));
    assert_eq!(existing_mover_name(&vec![pod(Some("old"), "Failed")]), None);
}

#[test]
fn movers_are_waited_for() {
    assert!(matches!(wait_mover("p", &Some("Succeeded".into())), WaitStep::Succeeded));
    assert!(matches!(wait_mover("p", &Some("Running".into())), WaitStep::Sleep { secs: 2 }));
    assert!(matches!(wait_mover("p", &None), WaitStep::Sleep { secs: 2 }));
    match wait_mover("p", &Some("Failed".into())) {
        WaitStep::Failed { message } => assert_eq!(message, "mover pod p failed"),
        _ => panic!("failure expected"),
    }
    match mover_timed_out("p") {
        WaitStep::Failed { message } => assert_eq!(message, "mover pod p timed out"),
        _ => panic!("failure expected"),
    }
    let failed = fail_backup("boom".into(), AT);
    assert_eq!(failed.phase, Some(BackupPhase::Failed));
    assert_eq!(failed.last_failure_at.as_deref(), Some("2026-08-03T02:00:00+00:00"));
    assert_eq!(fail_restore("boom".into(), AT).phase, Some(RestorePhase::Failed));
}

#[test]
fn mover_image_and_node_are_checked() {
    assert_eq!(resolve_mover_image(Some("a".into()), Some("b".into())), "a");
    assert_eq!(resolve_mover_image(Some("".into()), Some("b".into())), "b");
    assert_eq!(
        resolve_mover_image(None, None),
        "ghcr.io/craftingtech/proteus-controller:main"
    );
    assert_eq!(agent_node("n1".into()), Ok("n1".to_string()));
    assert!(agent_node("".into()).is_err());
}

#[test]
fn identity_creates_only_what_is_missing() {
    assert!(matches!(
        ensure_mover_identity("ns", LookupEvent::Start),
        IdentityAction::GetAccount { .. }
    ));
    assert!(matches!(
        ensure_mover_identity("ns", LookupEvent::AccountLookup(Err(Some(404)))),
        IdentityAction::CreateAccount(_)
    ));
    match ensure_mover_identity("ns", LookupEvent::AccountLookup(Err(Some(403)))) {
        IdentityAction::Fail { context } => {
            assert_eq!(context, "get ServiceAccount ns/proteus-mover");
        }
        _ => panic!("failure expected"),
    }
    match ensure_mover_identity("ns", LookupEvent::AccountLookup(Ok(()))) {
        IdentityAction::GetBinding { name } => assert_eq!(name, "proteus-mover-ns"),
        _ => panic!("binding expected"),
    }
    assert!(matches!(
        ensure_mover_identity("ns", LookupEvent::BindingLookup(Err(Some(404)))),
        IdentityAction::CreateBinding(_)
    ));
    assert!(matches!(
        ensure_mover_identity("ns", LookupEvent::BindingLookup(Ok(()))),
        IdentityAction::Done
    ));
}

#[test]
fn mover_arguments_are_read() {
    let args = |list: &[&str]| parse_mover_args(&strings(list));
    let command = args(&["backup", "-n", "ns", "--name", "run"]).expect("command");
    assert_eq!(command.kind, MoverKind::Backup);
    assert_eq!(command.namespace, "ns");
    assert_eq!(command.name, "run");
    assert!(args(&[]).expect_err("usage").starts_with("usage: "));
    assert_eq!(args(&["backup"]), Err("--namespace is required".to_string()));
    assert_eq!(args(&["backup", "-n", "ns"]), Err("--name is required".to_string()));
    assert_eq!(args(&["backup", "--x"]), Err("unknown mover flag --x".to_string()));
    assert_eq!(
        args(&["a\"b", "-n", "ns", "--name", "run"]),
        Err("unknown mover kind \"a\\\"b\"; expected backup or restore".to_string())
    );
}

#[test]
fn moved_backup_is_recorded() {
    let b = backup("run", Some("n1"));
    assert_eq!(backup_started_at(&b, AT), "2026-08-03T02:00:00+00:00");
    let status = moved_backup_status(&b, "2026-08-03T01:59:50Z".into(), "abc".into(), 1_000, AT);
    assert_eq!(status.phase, Some(BackupPhase::Succeeded));
    assert_eq!(status.last_snapshot_id.as_deref(), Some("abc"));
    assert_eq!(status.duration_seconds, Some(10));
    assert_eq!(status.throughput_bytes_per_sec, Some(100));
    let running = backup_message_status(&b, "moving".into(), 20);
    assert_eq!(running.progress_percent, Some(20));
    let r = restore("back", Some("n1"));
    assert_eq!(restore_started_at(&r, AT), "2026-08-03T02:00:00+00:00");
    let status = moved_restore_status(&r, "2026-08-03T01:59:50Z".into(), "abc".into(), 1_000, AT);
    assert_eq!(status.phase, Some(RestorePhase::Succeeded));
    assert_eq!(status.restored_snapshot_id.as_deref(), Some("abc"));
}

#[test]
fn mover_restores_succeeded_backups_only() {
    let r = restore("back", Some("n1"));
    let mut b = backup("b", Some("n1"));
    b.status = Some(ProteusBackupStatus {
        phase: Some(BackupPhase::Failed),
        last_snapshot_id: Some("half".into()),
        ..Default::default()
    });
    assert_eq!(
        mover_snapshot_id(&r, &b),
        Err("backup 'b' is not Succeeded (phase=Some(Failed))".to_string())
    );
    b.status = Some(ProteusBackupStatus {
        phase: Some(BackupPhase::Succeeded),
        last_snapshot_id: Some("whole".into()),
        ..Default::default()
    });
    assert_eq!(mover_snapshot_id(&r, &b), Ok("whole".to_string()));
    b.status =
        Some(ProteusBackupStatus { phase: Some(BackupPhase::Succeeded), ..Default::default() });
    assert_eq!(
        mover_snapshot_id(&r, &b),
        Err("no snapshot id on restore or backup".to_string())
    );
}

#[test]
fn mover_applies_the_key_as_the_manifest_says() {
    assert_eq!(
        mover_manifest("id", Err(CoreError::NotFound("x".into()))).err(),
        Some("load snapshot: not found: x".to_string())
    );
    for encrypted in [true, false] {
        let manifest = SnapshotManifest {
            version: 1,
            created_at: "t".into(),
            encrypted,
            volumes: vec![volume("a", 1)],
            total_bytes: 1,
        };
        let plan = mover_manifest("id", Ok(manifest)).expect("plan");
        assert_eq!(plan.snapshot_id, "id");
        assert_eq!(plan.decrypt, encrypted);
    }
}

fn volume(name: &str, bytes: u64) -> VolumeSnapshot {
    VolumeSnapshot { pvc_name: name.into(), bytes, chunk_ids: vec![] }
}

#[test]
fn backup_mover_streams_every_volume_then_seals() {
    let mut m = BackupMover::new(strings(&["a", "b"]));
    let mut action = run_backup_mover(&mut m, BackupMoverEvent::Begin { encrypted: true }, AT);
    for (name, bytes) in [("a", 10u64), ("b", 20u64)] {
        match action {
            BackupMoverAction::CheckMount { path } => assert_eq!(path, format!("/volumes/{name}")),
            _ => panic!("mount expected"),
        }
        match run_backup_mover(&mut m, BackupMoverEvent::Mount { is_dir: true }, AT) {
            BackupMoverAction::Report { progress, .. } => assert_eq!(progress, 20),
            _ => panic!("report expected"),
        }
        assert!(matches!(
            run_backup_mover(&mut m, BackupMoverEvent::Reported, AT),
            BackupMoverAction::Ingest { .. }
        ));
        let ingested = BackupMoverEvent::Ingested(Ok(volume(name, bytes)));
        assert!(matches!(run_backup_mover(&mut m, ingested, AT), BackupMoverAction::WaitTar));
        let exit = TarExit { success: true, status: "0".into(), stderr: "".into() };
        action = run_backup_mover(&mut m, BackupMoverEvent::Exited(exit), AT);
    }
    match action {
        BackupMoverAction::SealManifest(manifest) => {
            let names: Vec<&str> =
                manifest.volumes.iter().map(|v| v.pvc_name.as_str()).collect();
            assert_eq!(names, vec!["a", "b"]);
            assert_eq!(manifest.total_bytes, 30);
            assert!(manifest.encrypted);
        }
        _ => panic!("seal expected"),
    }
    match run_backup_mover(&mut m, BackupMoverEvent::Sealed(Ok("id".into())), AT) {
        BackupMoverAction::Finish { snapshot_id, total_bytes } => {
            assert_eq!(snapshot_id, "id");
            assert_eq!(total_bytes, 30);
        }
        _ => panic!("finish expected"),
    }
}

#[test]
fn restore_mover_does_not_overwrite_unasked() {
    let mut m = RestoreMover::new(vec![volume("a", 10)], false);
    run_restore_mover(&mut m, RestoreMoverEvent::Begin);
    assert!(matches!(
        run_restore_mover(&mut m, RestoreMoverEvent::Mount { is_dir: true }),
        RestoreMoverAction::CheckEmpty { .. }
    ));
    match run_restore_mover(&mut m, RestoreMoverEvent::Prepared { is_empty: false }) {
        RestoreMoverAction::Fail { message } => {
            assert_eq!(message, "target PVC 'a' already has data (set overwrite: true)");
        }
        _ => panic!("refusal expected"),
    }
    let mut m = RestoreMover::new(vec![volume("a", 10)], true);
    run_restore_mover(&mut m, RestoreMoverEvent::Begin);
    assert!(matches!(
        run_restore_mover(&mut m, RestoreMoverEvent::Mount { is_dir: true }),
        RestoreMoverAction::ClearMount { .. }
    ));
    assert!(matches!(
        run_restore_mover(&mut m, RestoreMoverEvent::Prepared { is_empty: true }),
        RestoreMoverAction::Extract { index: 0, .. }
    ));
    run_restore_mover(&mut m, RestoreMoverEvent::Extracted(Ok(10)));
    match run_restore_mover(&mut m, RestoreMoverEvent::Exited { success: true }) {
        RestoreMoverAction::Finish { total_bytes } => assert_eq!(total_bytes, 10),
        _ => panic!("finish expected"),
    }
}

#[test]
fn volumes_share_the_progress_range() {
    assert_eq!(pvc_range(0, 1), (10, 98));
    assert_eq!(pvc_range(0, 2), (10, 54));
    assert_eq!(pvc_range(1, 2), (54, 98));
    assert_eq!(map_range(10, 98, 50, 100), 54);
    assert_eq!(map_range(10, 98, 500, 100), 98);
    assert_eq!(stream_percent(10, 98, 50, Some(100)), 54);
    assert_eq!(stream_percent(10, 98, 8 * 1024 * 1024, None), 12);
    assert_eq!(stream_percent(10, 11, u64::MAX, None), 10);
    assert_eq!(stream_percent(10, 98, 2 * 1024 * 1024 * 1024, None), 97);
    assert_eq!(stream_percent(10, 98, u64::MAX, None), 97);
}

#[test]
fn stages_are_reported() {
    assert_eq!(
        mount_stage_report(MountStage::CreatingPod, "data"),
        (6, "PVC 'data': creating mount pod".to_string())
    );
    assert_eq!(
        stream_message("data", "1 MiB", Some("2 MiB")),
        "PVC 'data': 1 MiB / 2 MiB \u{2192} repository"
    );
    assert_eq!(stream_message("data", "1 MiB", None), "PVC 'data': 1 MiB \u{2192} repository");
}

#[test]
fn exec_run_goes_from_open_to_seal() {
    let mut run = BackupRun::new(strings(&["data"]));
    let report = |a: RunAction| match a {
        RunAction::Report { percent, message } => (percent, message),
        _ => panic!("report expected"),
    };
    let go = RunEvent::Reported { cancelled: false };
    assert_eq!(
        report(run_backup(&mut run, RunEvent::Begin, AT)),
        (1, "opening repository".to_string())
    );
    assert!(matches!(run_backup(&mut run, go, AT), RunAction::OpenRepository));
    assert_eq!(
        report(run_backup(&mut run, RunEvent::Opened { encrypted: false }, AT)),
        (5, "repository ready".to_string())
    );
    let go = RunEvent::Reported { cancelled: false };
    assert!(matches!(run_backup(&mut run, go, AT), RunAction::CleanupLeftovers));
    assert!(matches!(
        run_backup(&mut run, RunEvent::Cleaned, AT),
        RunAction::StreamVolume { range_start: 10, range_end: 98, .. }
    ));
    let streamed = RunEvent::Streamed { volume: volume("data", 42), size: "42 B".into() };
    assert_eq!(
        report(run_backup(&mut run, streamed, AT)),
        (98, "PVC 'data': stored (42 B)".to_string())
    );
    let go = RunEvent::Reported { cancelled: false };
    assert_eq!(report(run_backup(&mut run, go, AT)), (99, "sealing snapshot".to_string()));
    let go = RunEvent::Reported { cancelled: false };
    match run_backup(&mut run, go, AT) {
        RunAction::SealManifest(m) => {
            assert_eq!(m.total_bytes, 42);
            assert_eq!(m.volumes[0].pvc_name, "data");
        }
        _ => panic!("manifest expected"),
    }
    match run_backup(&mut run, RunEvent::Sealed { id: "abc".into() }, AT) {
        RunAction::Done { snapshot_id, total_bytes } => {
            assert_eq!(snapshot_id, "abc");
            assert_eq!(total_bytes, 42);
        }
        _ => panic!("done expected"),
    }
}

#[test]
fn deleted_backup_is_cancelled_between_volumes() {
    let mut run = BackupRun::new(strings(&["data"]));
    run_backup(&mut run, RunEvent::Begin, AT);
    run_backup(&mut run, RunEvent::Reported { cancelled: false }, AT);
    run_backup(&mut run, RunEvent::Opened { encrypted: false }, AT);
    run_backup(&mut run, RunEvent::Reported { cancelled: false }, AT);
    run_backup(&mut run, RunEvent::Cleaned, AT);
    let streamed = RunEvent::Streamed { volume: volume("data", 42), size: "42 B".into() };
    run_backup(&mut run, streamed, AT);
    match run_backup(&mut run, RunEvent::Reported { cancelled: true }, AT) {
        RunAction::Fail { message } => assert_eq!(message, "backup deleted; cancelling"),
        _ => panic!("cancel expected"),
    }
}

#[test]
fn identity_objects_are_complete() {
    let labels = vec![
        ("app.kubernetes.io/component".to_string(), "mover".to_string()),
        ("app.kubernetes.io/name".to_string(), "proteus".to_string()),
    ];
    match ensure_mover_identity("ns", LookupEvent::AccountLookup(Err(Some(404)))) {
        IdentityAction::CreateAccount(account) => {
            assert_eq!(account.name, "proteus-mover");
            assert_eq!(account.namespace, "ns");
            assert_eq!(account.labels, labels);
        }
        _ => panic!("account expected"),
    }
    match ensure_mover_identity("ns", LookupEvent::BindingLookup(Err(Some(404)))) {
        IdentityAction::CreateBinding(binding) => {
            assert_eq!(binding.name, "proteus-mover-ns");
            assert_eq!(binding.labels, labels);
            assert_eq!(binding.role_api_group, "rbac.authorization.k8s.io");
            assert_eq!(binding.role_kind, "ClusterRole");
            assert_eq!(binding.role_name, "proteus-mover");
            assert_eq!(binding.account_kind, "ServiceAccount");
            assert_eq!(binding.account_name, "proteus-mover");
            assert_eq!(binding.account_namespace, "ns");
        }
        _ => panic!("binding expected"),
    }
}
