//! Backup runs: recipes, status, retention and what a reconcile does.
use proteus::backup_run::{
    carry_forward, current_phase, reconcile_backup, running_status, running_status_at,
    status_changed, terminal_status, terminal_status_at, waiting_policy_status, BackupAction,
    BackupEvent,
};
use proteus::clock::Timestamp;
use proteus::crd::{
    BackupPhase, BackupPolicyPhase, DataPlane, ProteusBackup, ProteusBackupPolicy,
    ProteusBackupPolicySpec, ProteusBackupPolicyStatus, ProteusBackupSpec, ProteusBackupStatus,
    RetentionPolicy,
};
use proteus::fingerprint::message_fingerprint;
use proteus::policy_run::{policy_status, reconcile_backup_policy};
use proteus::recipe::{
    load_recipe, policy_namespace, recipe_source, resolve_recipe, validate_policy_spec,
    BackupRecipe, RecipeSource, ResolveRecipeError,
};
use proteus::retention::{select_prunable, SucceededRunRef};
use proteus::timing::{compute_throughput, timing_of};

fn stamp(at: chrono::DateTime<chrono::Utc>) -> Timestamp {
    Timestamp { secs: at.timestamp(), nanos: at.timestamp_subsec_nanos() }
}

fn backup_with(pvc_names: Vec<String>) -> ProteusBackup {
    ProteusBackup::new(
        "test",
        ProteusBackupSpec {
            policy_ref: None,
            policy_namespace: None,
            repository_ref: "repo".to_string(),
            repository_namespace: None,
            target_namespace: "default".to_string(),
            pvc_names,
            label_selector: None,
            schedule: None,
            retention: RetentionPolicy::default(),
            include_volumes: true,
            include_cluster_resources: false,
        },
    )
}

fn inline_backup(pvc_names: Vec<String>) -> ProteusBackup {
    ProteusBackup::new(
        "run",
        ProteusBackupSpec {
            policy_ref: None,
            policy_namespace: None,
            repository_ref: "repo".into(),
            repository_namespace: None,
            target_namespace: "default".into(),
            pvc_names,
            label_selector: None,
            schedule: None,
            retention: RetentionPolicy::default(),
            include_volumes: true,
            include_cluster_resources: false,
        },
    )
}

fn policy(pvc_names: Vec<String>) -> ProteusBackupPolicy {
    ProteusBackupPolicy::new(
        "nightly",
        ProteusBackupPolicySpec {
            repository_ref: "repo".into(),
            repository_namespace: None,
            target_namespace: "workloads".into(),
            pvc_names,
            label_selector: None,
            schedule: None,
            paused: false,
            retention: RetentionPolicy { keep_last: 3, max_age_days: None },
            include_volumes: true,
            include_cluster_resources: false,
        },
    )
}

#[test]
fn recipe_inline_recipe_validates() {
    let recipe = BackupRecipe::from_inline(&inline_backup(vec!["data".into()]).spec);
    assert!(recipe.validate().is_ok());
}

#[test]
fn recipe_inline_recipe_rejects_empty_pvcs() {
    let recipe = BackupRecipe::from_inline(&inline_backup(vec![]).spec);
    assert!(recipe.validate().is_err());
}

#[test]
fn policy_recipe_maps_fields() {
    let recipe = BackupRecipe::from_policy(&policy(vec!["pvc-a".into()]));
    assert_eq!(recipe.target_namespace, "workloads");
    assert_eq!(recipe.pvc_names, vec!["pvc-a".to_string()]);
    assert_eq!(recipe.retention.keep_last, 3);
}

#[test]
fn validate_policy_spec_rejects_empty_repo() {
    let mut p = policy(vec!["data".into()]);
    p.spec.repository_ref.clear();
    assert!(validate_policy_spec(&p).is_err());
}

#[test]
fn recipe_faults_are_named() {
    let ok = BackupRecipe::from_inline(&inline_backup(vec!["data".into()]).spec);
    let fault = |r: &BackupRecipe| r.validate().expect_err("fault");
    let mut r = ok.clone();
    r.repository_ref.clear();
    assert_eq!(fault(&r), "repositoryRef must not be empty");
    let mut r = ok.clone();
    r.target_namespace.clear();
    assert_eq!(fault(&r), "targetNamespace must not be empty");
    let mut r = ok.clone();
    r.pvc_names.clear();
    assert_eq!(fault(&r), "pvcNames must contain at least one PVC name");
    let mut r = ok.clone();
    r.retention.keep_last = 0;
    assert_eq!(fault(&r), "retention.keepLast must be >= 1");
}

#[test]
fn policy_schedule_is_validated_when_set() {
    let mut p = policy(vec!["data".into()]);
    p.spec.schedule = Some("   ".into());
    assert!(validate_policy_spec(&p).is_ok());
    p.spec.schedule = Some("0 2 * * *".into());
    assert!(validate_policy_spec(&p).is_ok());
    p.spec.schedule = Some("not a cron".into());
    assert!(validate_policy_spec(&p).is_err());
}

#[test]
fn recipe_comes_from_ready_policy_only() {
    let mut run = inline_backup(vec!["inline".into()]);
    run.spec.policy_ref = Some(" nightly ".into());
    assert_eq!(policy_namespace(&run, "ns"), "ns");
    run.spec.policy_namespace = Some(" other ".into());
    assert_eq!(policy_namespace(&run, "ns"), "other");
    match recipe_source(&run, "ns") {
        RecipeSource::Policy { name, namespace } => {
            assert_eq!(name, "nightly");
            assert_eq!(namespace, "other");
        }
        RecipeSource::Inline => panic!("policy expected"),
    }
    let mut p = policy(vec!["data".into()]);
    assert_eq!(
        resolve_recipe(&run, "ns", Some(Ok(p.clone()))),
        Err(ResolveRecipeError::NotReady(
            "waiting for policyRef 'nightly' in namespace 'other' to become Ready".into()
        ))
    );
    p.status = Some(ProteusBackupPolicyStatus {
        phase: Some(BackupPolicyPhase::Invalid),
        message: None,
    });
    assert_eq!(
        resolve_recipe(&run, "ns", Some(Ok(p.clone()))),
        Err(ResolveRecipeError::Failed(
            "policyRef 'nightly' in namespace 'other' is Invalid: policy is Invalid".into()
        ))
    );
    p.status = Some(ProteusBackupPolicyStatus {
        phase: Some(BackupPolicyPhase::Ready),
        message: None,
    });
    let recipe = resolve_recipe(&run, "ns", Some(Ok(p))).expect("ready");
    assert_eq!(recipe.pvc_names, vec!["data".to_string()]);
    assert_eq!(
        resolve_recipe(&run, "ns", Some(Err("gone".into()))),
        Err(ResolveRecipeError::Failed("policyRef 'nightly' in namespace 'other': gone".into()))
    );
}

#[test]
fn restore_recipe_falls_back_to_stamped_fields() {
    let mut run = inline_backup(vec!["stamped".into()]);
    run.spec.policy_ref = Some("nightly".into());
    let recipe = load_recipe(&run, "ns", Some(Err("gone".into()))).expect("stamped");
    assert_eq!(recipe.pvc_names, vec!["stamped".to_string()]);
    let live = load_recipe(&run, "ns", Some(Ok(policy(vec!["live".into()])))).expect("live");
    assert_eq!(live.pvc_names, vec!["live".to_string()]);
    run.spec.pvc_names.clear();
    assert_eq!(
        load_recipe(&run, "ns", Some(Err("gone".into()))),
        Err("policyRef 'nightly' in namespace 'ns': gone".to_string())
    );
}

#[test]
fn waiting_policy_keeps_pending_not_failed() {
    let b = backup_with(vec!["data".into()]);
    let status = waiting_policy_status(&b, "waiting for policy");
    assert_eq!(status.phase, Some(BackupPhase::Pending));
    assert_eq!(status.message.as_deref(), Some("waiting for policy"));
}

#[test]
fn backup_inline_recipe_validates() {
    let b = backup_with(vec!["data".into()]);
    assert!(BackupRecipe::from_inline(&b.spec).validate().is_ok());
}

#[test]
fn backup_inline_recipe_rejects_empty_pvcs() {
    let b = backup_with(vec![]);
    assert!(BackupRecipe::from_inline(&b.spec).validate().is_err());
}

#[test]
fn terminal_success_sets_snapshot() {
    let b = backup_with(vec!["data".into()]);
    let started = (chrono::Utc::now() - chrono::Duration::seconds(10)).to_rfc3339();
    let status = terminal_status(&b, Ok(("deadbeef".into(), 42)), Some(&started));
    assert_eq!(status.phase, Some(BackupPhase::Succeeded));
    assert_eq!(status.last_snapshot_id.as_deref(), Some("deadbeef"));
    assert_eq!(status.last_bytes, Some(42));
    assert_eq!(status.progress_percent, Some(100));
    assert_eq!(status.started_at.as_deref(), Some(started.as_str()));
    assert!(status.duration_seconds.is_some_and(|d| d >= 10));
    assert!(status.throughput_bytes_per_sec.is_some());
}

#[test]
fn terminal_success_records_throughput_from_run_start_not_stale_status() {
    let b = backup_with(vec!["data".into()]);
    let started = (chrono::Utc::now() - chrono::Duration::seconds(5)).to_rfc3339();
    let status = terminal_status(&b, Ok(("abc".into(), 50_000)), Some(&started));
    assert_eq!(status.duration_seconds, Some(5));
    assert_eq!(status.throughput_bytes_per_sec, Some(10_000));
}

#[test]
fn compute_throughput_clamps_subsecond_duration() {
    let started = chrono::Utc::now().to_rfc3339();
    let finished = chrono::Utc::now();
    let (secs, bps) = compute_throughput(Some(&started), 4_096, stamp(finished));
    assert_eq!(secs, Some(1));
    assert_eq!(bps, Some(4_096));
}

#[test]
fn compute_throughput_none_without_started_at() {
    let (secs, bps) = compute_throughput(None, 100, stamp(chrono::Utc::now()));
    assert_eq!(secs, None);
    assert_eq!(bps, None);
}

#[test]
fn throughput_divides_bytes_by_whole_seconds() {
    assert_eq!(timing_of(Some(7), 100), (Some(7), Some(14)));
    assert_eq!(timing_of(Some(0), 100), (Some(1), Some(100)));
    assert_eq!(timing_of(Some(-3), 100), (Some(1), Some(100)));
    assert_eq!(timing_of(None, 100), (None, None));
    let finished = Timestamp { secs: 1_785_722_400, nanos: 0 };
    assert_eq!(
        compute_throughput(Some("2026-08-03T01:59:50Z"), 1_000, finished),
        (Some(10), Some(100))
    );
    assert_eq!(compute_throughput(Some("yesterday"), 1_000, finished), (None, None));
}

#[test]
fn running_status_preserves_started_at_when_already_running() {
    let mut b = backup_with(vec!["data".into()]);
    let prior = "2026-07-01T12:00:00Z".to_string();
    b.status = Some(ProteusBackupStatus {
        phase: Some(BackupPhase::Running),
        started_at: Some(prior.clone()),
        duration_seconds: Some(99),
        throughput_bytes_per_sec: Some(1),
        ..Default::default()
    });
    let running = running_status(&b);
    assert_eq!(running.started_at.as_deref(), Some(prior.as_str()));
    assert_eq!(running.duration_seconds, None);
    assert_eq!(running.throughput_bytes_per_sec, None);
}

#[test]
fn running_status_stamps_the_time_of_a_new_run() {
    let b = backup_with(vec!["data".into()]);
    let running = running_status_at(&b, Timestamp { secs: 1_785_722_400, nanos: 0 });
    assert_eq!(running.phase, Some(BackupPhase::Running));
    assert_eq!(running.started_at.as_deref(), Some("2026-08-03T02:00:00+00:00"));
}

#[test]
fn terminal_failure_keeps_prior_snapshot() {
    let mut b = backup_with(vec!["data".into()]);
    b.status = Some(ProteusBackupStatus {
        last_snapshot_id: Some("previous".to_string()),
        progress_percent: Some(40),
        ..Default::default()
    });
    let status = terminal_status(&b, Err("boom".into()), None);
    assert_eq!(status.phase, Some(BackupPhase::Failed));
    assert_eq!(status.last_snapshot_id.as_deref(), Some("previous"));
    assert_eq!(status.progress_percent, Some(40));
}

#[test]
fn status_changed_detects_progress_bump() {
    let a = ProteusBackupStatus {
        phase: Some(BackupPhase::Running),
        progress_percent: Some(10),
        message: Some("reading".into()),
        ..Default::default()
    };
    let b = ProteusBackupStatus {
        phase: Some(BackupPhase::Running),
        progress_percent: Some(25),
        message: Some("reading".into()),
        ..Default::default()
    };
    assert!(status_changed(Some(&a), &b));
    assert!(!status_changed(Some(&a), &a));
    assert!(status_changed(None, &a));
}

#[test]
fn message_fingerprint_collapses_digits() {
    assert_eq!(
        message_fingerprint(Some("read 12 MiB / 100 MiB")),
        message_fingerprint(Some("read 99 MiB / 100 MiB"))
    );
}

#[test]
fn message_fingerprint_keeps_words_apart() {
    assert_ne!(message_fingerprint(Some("read 12 MiB")), message_fingerprint(Some("wrote 12 MiB")));
    let once = message_fingerprint(Some("read 12 MiB"));
    assert_eq!(message_fingerprint(Some(once.as_str())), once);
}

#[test]
fn status_written_once_is_not_written_again() {
    let at = Timestamp { secs: 1_785_722_400, nanos: 0 };
    let later = Timestamp { secs: 1_785_722_460, nanos: 0 };
    let mut b = backup_with(vec!["data".into()]);
    let failed = terminal_status_at(&b, Err("boom".into()), None, at);
    assert_eq!(failed.last_failure_at.as_deref(), Some("2026-08-03T02:00:00+00:00"));
    b.status = Some(failed);
    let again = terminal_status_at(&b, Err("boom".into()), None, later);
    assert!(!status_changed(b.status.as_ref(), &again));
}

#[test]
fn finished_run_is_never_run_again() {
    let at = Timestamp { secs: 1_785_722_400, nanos: 0 };
    let mut b = backup_with(vec!["data".into()]);
    assert_eq!(current_phase(&b), None);
    assert!(matches!(
        reconcile_backup(&b, BackupEvent::Start { active: false }, at),
        BackupAction::ResolveRecipe
    ));
    assert!(matches!(
        reconcile_backup(&b, BackupEvent::Start { active: true }, at),
        BackupAction::Requeue { requeue_secs: 5 }
    ));
    b.status = Some(ProteusBackupStatus {
        phase: Some(BackupPhase::Failed),
        ..Default::default()
    });
    assert!(matches!(
        reconcile_backup(&b, BackupEvent::Start { active: false }, at),
        BackupAction::Reap { requeue_secs: 3600 }
    ));
}

#[test]
fn reconcile_marks_runs_running_then_succeeded() {
    let at = Timestamp { secs: 1_785_722_400, nanos: 0 };
    let b = backup_with(vec!["data".into()]);
    let recipe = BackupRecipe::from_inline(&b.spec);
    match reconcile_backup(&b, BackupEvent::Resolved(Ok(recipe.clone())), at) {
        BackupAction::Run { recipe: r, patch, run_started_at } => {
            assert_eq!(r, recipe);
            assert_eq!(patch.expect("patch").phase, Some(BackupPhase::Running));
            assert_eq!(run_started_at.as_deref(), Some("2026-08-03T02:00:00+00:00"));
        }
        _ => panic!("run expected"),
    }
    let waiting =
        BackupEvent::Resolved(Err(ResolveRecipeError::NotReady("waiting for policy".into())));
    match reconcile_backup(&b, waiting, at) {
        BackupAction::Finish { patch, requeue_secs } => {
            assert_eq!(patch.expect("patch").phase, Some(BackupPhase::Pending));
            assert_eq!(requeue_secs, 5);
        }
        _ => panic!("finish expected"),
    }
    let done = BackupEvent::Finished {
        outcome: Ok(("abc".into(), 1_000)),
        run_started_at: Some("2026-08-03T01:59:50Z".into()),
    };
    match reconcile_backup(&b, done, at) {
        BackupAction::Finish { patch, requeue_secs } => {
            let status = patch.expect("patch");
            assert_eq!(status.phase, Some(BackupPhase::Succeeded));
            assert_eq!(status.duration_seconds, Some(10));
            assert_eq!(status.throughput_bytes_per_sec, Some(100));
            assert_eq!(requeue_secs, 3600);
        }
        _ => panic!("finish expected"),
    }
}

#[test]
fn history_is_carried_into_the_next_status() {
    let mut b = backup_with(vec!["data".into()]);
    b.status = Some(ProteusBackupStatus {
        phase: Some(BackupPhase::Failed),
        message: Some("boom".into()),
        last_snapshot_id: Some("abc".into()),
        last_success_at: Some("t".into()),
        data_plane: Some(DataPlane::Exec),
        ..Default::default()
    });
    let next = carry_forward(&b);
    assert_eq!(next.last_snapshot_id.as_deref(), Some("abc"));
    assert_eq!(next.last_success_at.as_deref(), Some("t"));
    assert_eq!(next.phase, None);
    assert_eq!(next.message, None);
}

fn run(name: &str, key: &str) -> SucceededRunRef {
    SucceededRunRef { namespace: "ns".into(), name: name.into(), sort_key: key.into() }
}

#[test]
fn keep_last_two_drops_oldest() {
    let prunable = select_prunable(
        vec![
            run("a", "2026-01-01T00:00:00Z"),
            run("b", "2026-01-02T00:00:00Z"),
            run("c", "2026-01-03T00:00:00Z"),
        ],
        2,
    );
    assert_eq!(prunable.len(), 1);
    assert_eq!(prunable[0].name, "a");
}

#[test]
fn nothing_to_prune_when_within_limit() {
    assert!(select_prunable(vec![run("a", "2026-01-01T00:00:00Z")], 2).is_empty());
}

#[test]
fn status_changed_on_phase() {
    let a = ProteusBackupPolicyStatus {
        phase: Some(BackupPolicyPhase::Invalid),
        message: Some("x".into()),
    };
    let b = ProteusBackupPolicyStatus {
        phase: Some(BackupPolicyPhase::Ready),
        message: Some("x".into()),
    };
    assert!(proteus::policy_run::status_changed(Some(&a), &b));
}

#[test]
fn validate_accepts_ready_recipe() {
    let mut p = policy(vec!["data".into()]);
    p.spec.target_namespace = "default".into();
    p.spec.retention = RetentionPolicy::default();
    assert!(validate_policy_spec(&p).is_ok());
}

#[test]
fn reconciled_policy_is_left_alone() {
    let mut p = policy(vec!["data".into()]);
    let patch = reconcile_backup_policy(&p).patch.expect("first status");
    assert_eq!(patch.phase, Some(BackupPolicyPhase::Ready));
    p.status = Some(patch);
    assert!(reconcile_backup_policy(&p).patch.is_none());
    p.spec.pvc_names.clear();
    let status = policy_status(&p);
    assert_eq!(status.phase, Some(BackupPolicyPhase::Invalid));
    assert_eq!(status.message.as_deref(), Some("pvcNames must contain at least one PVC name"));
}
