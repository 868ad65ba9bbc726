//! Restores: their spec, status and the snapshot they take.
use proteus::clock::Timestamp;
use proteus::crd::{
    BackupPhase, ProteusBackup, ProteusBackupSpec, ProteusBackupStatus, ProteusRestore, ProteusRestoreSpec,
    ProteusRestoreStatus, RestorePhase, RetentionPolicy,
};
use proteus::data_plane::{PlaneChoice, RepositoryKind};
use proteus::error::CoreError;
use proteus::recipe::BackupRecipe;
use proteus::restore_run::{
    current_phase, plan_restore, reconcile_restore, resolve_backup, resolve_snapshot_id,
    run_restore, source_namespace, status_changed, terminal_status, terminal_status_at,
    validate_spec, RestoreAction, RestoreEvent, RestoreInputs, VolumeAction, VolumeEvent,
};
use proteus::snapshot::{SnapshotManifest, VolumeSnapshot};

const AT: Timestamp = Timestamp { secs: 1_785_722_400, nanos: 0 };

fn restore_with(backup_ref: &str, target_namespace: &str) -> ProteusRestore {
    ProteusRestore::new(
        "test",
        ProteusRestoreSpec {
            backup_ref: backup_ref.to_string(),
            backup_namespace: None,
            snapshot_id: None,
            target_namespace: target_namespace.to_string(),
            overwrite: false,
            include_resources: None,
        },
    )
}

#[test]
fn validate_spec_rejects_empty_backup_ref() {
    let obj = restore_with("", "workloads");
    let err = validate_spec(&obj).expect_err("empty backupRef");
    assert!(err.contains("backupRef"));
}

#[test]
fn validate_spec_rejects_empty_target_namespace() {
    let obj = restore_with("backup-1", "");
    let err = validate_spec(&obj).expect_err("empty targetNamespace");
    assert!(err.contains("targetNamespace"));
}

#[test]
fn validate_spec_accepts_minimal_valid_spec() {
    let obj = restore_with("backup-1", "workloads");
    assert!(validate_spec(&obj).is_ok());
}

#[test]
fn succeeded_restore_is_treated_as_terminal() {
    let mut obj = restore_with("backup-1", "workloads");
    obj.status = Some(ProteusRestoreStatus {
        phase: Some(RestorePhase::Succeeded),
        ..Default::default()
    });
    assert!(matches!(current_phase(&obj), Some(RestorePhase::Succeeded)));
}

#[test]
fn terminal_status_on_success_sets_snapshot_and_completion() {
    let obj = restore_with("backup-1", "workloads");
    let status = terminal_status(&obj, Ok("deadbeef".to_string()), None, Some(42));
    assert_eq!(status.phase, Some(RestorePhase::Succeeded));
    assert_eq!(status.restored_snapshot_id.as_deref(), Some("deadbeef"));
    assert_eq!(status.progress_percent, Some(100));
}

#[test]
fn terminal_status_on_failure_preserves_previous_snapshot_id() {
    let mut obj = restore_with("backup-1", "workloads");
    obj.status = Some(ProteusRestoreStatus {
        restored_snapshot_id: Some("previous".to_string()),
        ..Default::default()
    });
    let status = terminal_status(&obj, Err("target PVC missing".to_string()), None, None);
    assert_eq!(status.phase, Some(RestorePhase::Failed));
    assert_eq!(status.restored_snapshot_id.as_deref(), Some("previous"));
    assert_eq!(status.message.as_deref(), Some("target PVC missing"));
}

#[test]
fn terminal_status_stamps_completion() {
    let obj = restore_with("backup-1", "workloads");
    let status =
        terminal_status_at(&obj, Ok("abc".into()), Some("2026-08-03T01:59:50Z"), Some(1_000), AT);
    assert_eq!(status.completed_at.as_deref(), Some("2026-08-03T02:00:00+00:00"));
    assert_eq!(status.duration_seconds, Some(10));
    assert_eq!(status.throughput_bytes_per_sec, Some(100));
}

#[test]
fn status_changed_ignores_timestamp_only_on_same_failure() {
    let cur = ProteusRestoreStatus {
        phase: Some(RestorePhase::Failed),
        message: Some("pvc not empty".into()),
        completed_at: Some("t1".into()),
        ..Default::default()
    };
    let next = ProteusRestoreStatus {
        phase: Some(RestorePhase::Failed),
        message: Some("pvc not empty".into()),
        completed_at: Some("t2".into()),
        ..Default::default()
    };
    assert!(!status_changed(Some(&cur), &next));
}

#[test]
fn status_changed_detects_phase_transition() {
    let cur =
        ProteusRestoreStatus { phase: Some(RestorePhase::Running), ..Default::default() };
    let next = ProteusRestoreStatus {
        phase: Some(RestorePhase::Failed),
        message: Some("boom".into()),
        ..Default::default()
    };
    assert!(status_changed(Some(&cur), &next));
}

fn restore_of_snapshot(snapshot_id: Option<&str>) -> ProteusRestore {
    ProteusRestore::new(
        "test-restore",
        ProteusRestoreSpec {
            backup_ref: "backup-1".to_string(),
            backup_namespace: None,
            snapshot_id: snapshot_id.map(str::to_string),
            target_namespace: "workloads".to_string(),
            overwrite: false,
            include_resources: None,
        },
    )
}

fn backup_with_snapshot(snapshot_id: Option<&str>) -> ProteusBackup {
    let mut backup = ProteusBackup::new(
        "backup-1",
        ProteusBackupSpec {
            policy_ref: None,
            policy_namespace: None,
            repository_ref: "repo".to_string(),
            repository_namespace: None,
            target_namespace: "workloads".to_string(),
            pvc_names: vec!["data".to_string()],
            label_selector: None,
            schedule: None,
            retention: RetentionPolicy::default(),
            include_volumes: true,
            include_cluster_resources: false,
        },
    );
    backup.status = Some(ProteusBackupStatus {
        last_snapshot_id: snapshot_id.map(str::to_string),
        ..Default::default()
    });
    backup
}

#[test]
fn resolve_snapshot_id_prefers_spec_over_backup_status() {
    let restore = restore_of_snapshot(Some("from-spec"));
    let backup = backup_with_snapshot(Some("from-backup"));
    assert_eq!(resolve_snapshot_id(&restore, &backup).expect("resolved"), "from-spec");
}

#[test]
fn resolve_snapshot_id_falls_back_to_backup_last_snapshot() {
    let restore = restore_of_snapshot(None);
    let backup = backup_with_snapshot(Some("from-backup"));
    assert_eq!(resolve_snapshot_id(&restore, &backup).expect("resolved"), "from-backup");
}

#[test]
fn resolve_snapshot_id_rejects_missing_snapshot() {
    let restore = restore_of_snapshot(None);
    let backup = backup_with_snapshot(None);
    let err = resolve_snapshot_id(&restore, &backup).expect_err("no snapshot id anywhere");
    assert!(err.contains("snapshot id"));
}

#[test]
fn resolve_snapshot_id_ignores_blank_spec_value() {
    let restore = restore_of_snapshot(Some("   "));
    let backup = backup_with_snapshot(Some("from-backup"));
    assert_eq!(resolve_snapshot_id(&restore, &backup).expect("resolved"), "from-backup");
}

#[test]
fn source_backup_is_looked_up_beside_the_restore_unless_named() {
    let mut restore = restore_with("backup-1", "workloads");
    assert_eq!(source_namespace(&restore, "ns"), "ns");
    restore.spec.backup_namespace = Some("other".into());
    assert_eq!(source_namespace(&restore, "ns"), "other");
    assert_eq!(
        resolve_backup(&restore, "other", Err("gone".into())),
        Err("backup 'backup-1' not found in namespace 'other': gone".to_string())
    );
    let mut backup = backup_with_snapshot(Some("s"));
    assert_eq!(
        resolve_backup(&restore, "other", Ok(backup.clone())),
        Err("backup 'backup-1' in namespace 'other' is not Succeeded (phase=None)".to_string())
    );
    backup.status = Some(ProteusBackupStatus {
        phase: Some(BackupPhase::Succeeded),
        ..Default::default()
    });
    assert_eq!(resolve_backup(&restore, "other", Ok(backup.clone())), Ok(backup));
}

fn manifest(encrypted: bool, volumes: Vec<VolumeSnapshot>) -> SnapshotManifest {
    SnapshotManifest { version: 1, created_at: "t".into(), encrypted, volumes, total_bytes: 0 }
}

fn volume(name: &str) -> VolumeSnapshot {
    VolumeSnapshot { pvc_name: name.into(), bytes: 0, chunk_ids: vec![] }
}

#[test]
fn later_key_is_not_applied_to_plaintext_snapshot() {
    let plan =
        plan_restore("id", "repo", true, Ok(manifest(false, vec![volume("a")]))).expect("plan");
    assert!(!plan.decrypt);
    let plan =
        plan_restore("id", "repo", true, Ok(manifest(true, vec![volume("a")]))).expect("plan");
    assert!(plan.decrypt);
}

#[test]
fn unusable_snapshots_are_refused() {
    let refusal = |r: Result<proteus::restore_run::RestorePlan, String>| match r {
        Ok(_) => panic!("refusal expected"),
        Err(m) => m,
    };
    assert_eq!(
        refusal(plan_restore("id", "repo", false, Ok(manifest(true, vec![volume("a")])))),
        "snapshot 'id' is encrypted but repository 'repo' has no key configured"
    );
    assert_eq!(
        refusal(plan_restore("id", "repo", false, Ok(manifest(false, vec![])))),
        "snapshot 'id' contains no volumes to restore"
    );
    assert!(refusal(plan_restore("id", "repo", false, Err(CoreError::NotFound("id".into()))))
        .starts_with("failed to load snapshot 'id': "));
}

#[test]
fn volumes_are_restored_one_after_the_other() {
    let mut restore = restore_with("backup-1", "workloads");
    restore.spec.overwrite = true;
    let loaded = manifest(true, vec![volume("a"), volume("b")]);
    let plan = plan_restore("snap", "repo", true, Ok(loaded)).expect("plan");
    assert!(matches!(
        run_restore(&restore, &plan, 0, VolumeEvent::Begin),
        VolumeAction::Read { index: 0, decrypt: true }
    ));
    match run_restore(&restore, &plan, 0, VolumeEvent::Read(Ok(()))) {
        VolumeAction::Write { index, pvc_name, namespace, overwrite } => {
            assert_eq!((index, pvc_name.as_str()), (0, "a"));
            assert_eq!(namespace, "workloads");
            assert!(overwrite);
        }
        _ => panic!("write expected"),
    }
    assert!(matches!(
        run_restore(&restore, &plan, 0, VolumeEvent::Written(Ok(()))),
        VolumeAction::Read { index: 1, decrypt: true }
    ));
    match run_restore(&restore, &plan, 1, VolumeEvent::Written(Ok(()))) {
        VolumeAction::Done { snapshot_id } => assert_eq!(snapshot_id, "snap"),
        _ => panic!("end expected"),
    }
    match run_restore(&restore, &plan, 1, VolumeEvent::Written(Err("full".into()))) {
        VolumeAction::Fail(m) => assert_eq!(m, "PVC 'b': full"),
        _ => panic!("failure expected"),
    }
}

#[test]
fn restore_goes_through_inputs_and_plane() {
    let obj = restore_with("backup-1", "workloads");
    assert!(matches!(reconcile_restore(&obj, RestoreEvent::Start, AT), RestoreAction::LoadInputs));
    let recipe = BackupRecipe {
        repository_ref: "repo".into(),
        repository_namespace: None,
        target_namespace: "source".into(),
        pvc_names: vec!["data".into(), "logs".into()],
        retention: RetentionPolicy::default(),
        include_volumes: true,
        include_cluster_resources: false,
    };
    let inputs = RestoreInputs { kind: RepositoryKind::Remote, recipe };
    match reconcile_restore(&obj, RestoreEvent::Inputs(Ok(inputs)), AT) {
        RestoreAction::SelectPlane { kind, namespace, pvc_names } => {
            assert_eq!(kind, RepositoryKind::Remote);
            assert_eq!(namespace, "workloads");
            assert_eq!(pvc_names, vec!["data".to_string(), "logs".to_string()]);
        }
        _ => panic!("plane expected"),
    }
    match reconcile_restore(
        &obj,
        RestoreEvent::Plane(Ok(PlaneChoice::Agent { node: "node-a".into() })),
        AT,
    ) {
        RestoreAction::ProvisionIdentity { node, namespace } => {
            assert_eq!((node.as_str(), namespace.as_str()), ("node-a", "workloads"));
        }
        _ => panic!("identity expected"),
    }
    let exec = PlaneChoice::Exec { reason: "local".into() };
    assert!(matches!(
        reconcile_restore(&obj, RestoreEvent::Plane(Ok(exec)), AT),
        RestoreAction::Run { .. }
    ));
    let mut over = restore_with("backup-1", "workloads");
    over.status = Some(ProteusRestoreStatus {
        phase: Some(RestorePhase::Succeeded),
        ..Default::default()
    });
    assert!(matches!(
        reconcile_restore(&over, RestoreEvent::Start, AT),
        RestoreAction::Requeue { .. }
    ));
}
