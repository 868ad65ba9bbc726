//! The API: requests to objects, objects to list items, deletion and readiness.
use proteus::api::backup_policies::{
    build_backup_policy, list_backup_policies, policy_list_item, CreateBackupPolicyRequest,
};
use proteus::api::backups::{
    backup_list_item, build_inline_backup, build_run_from_policy, build_run_from_policy_at,
    create_backup, create_backup_from_policy, create_backup_from_policy_at, delete_backup,
    generate_run_name, list_backups, resolve_backup_repository, CreateBackupRequest, CreateStep,
    DeleteAction, DeleteEvent,
};
use proteus::api::common::{require_non_empty, ApiError};
use proteus::api::repo_store::{gc_repository_after_backup_delete, snapshot_id, ListedBackup};
use proteus::api::restores::{build_restore, list_restores, restore_list_item, CreateRestoreRequest};
use proteus::api::state::{metrics_placeholder, readyz, ClusterSnapshot, Readiness};
use proteus::clock::Timestamp;
use proteus::crd::{
    BackupPhase, BackupPolicyPhase, DataPlane, ProteusBackup, ProteusBackupPolicy,
    ProteusBackupPolicySpec, ProteusBackupPolicyStatus, ProteusBackupStatus, ProteusRepository,
    ProteusRepositorySpec, ProteusRepositoryStatus, ProteusRestoreStatus, RepositoryBackend,
    RepositoryPhase, RestorePhase, RetentionPolicy, ObjectMeta,
};
use proteus::data_plane::RepositoryKind;
use proteus::repository::{
    decode_secret_raw_data, encryption_key_from_secret_data, key_from_stored, load_encryption_key,
    open_repository, repo_hint, repository_kind, repository_namespace, OpenAction, OpenEvent,
    SecretData, StoreFault,
};

const AT: Timestamp = Timestamp { secs: 1_785_722_400, nanos: 0 };

#[test]
fn readiness_requires_kube_and_crds() {
    assert!(!Readiness { kube_reachable: false, crds_ready: true }.is_ready());
    assert!(!Readiness { kube_reachable: true, crds_ready: false }.is_ready());
    assert!(Readiness { kube_reachable: true, crds_ready: true }.is_ready());
}

#[test]
fn readiness_probe_is_answered() {
    assert_eq!(readyz(true), (200, "ready".to_string()));
    assert_eq!(readyz(false), (503, "not ready".to_string()));
}

#[test]
fn metrics_hold_one_gauge_per_kind() {
    let snap = ClusterSnapshot {
        version: "1".into(),
        repositories: 2,
        backups: 30,
        restores: 0,
        last_reconcile_at: None,
    };
    assert_eq!(
        metrics_placeholder(&snap),
        "# HELP proteus_repositories Number of ProteusRepository objects\n\
         # TYPE proteus_repositories gauge\n\
         proteus_repositories 2\n\
         # HELP proteus_backups Number of ProteusBackup objects\n\
         # TYPE proteus_backups gauge\n\
         proteus_backups 30\n\
         # HELP proteus_restores Number of ProteusRestore objects\n\
         # TYPE proteus_restores gauge\n\
         proteus_restores 0\n"
    );
}

#[test]
fn required_fields_are_trimmed_or_refused() {
    assert_eq!(require_non_empty("name", Some(" a ")), Ok("a".to_string()));
    for value in [None, Some(""), Some("  ")] {
        let err = require_non_empty("name", value).expect_err("required");
        assert_eq!(err.message(), "bad request: name must not be empty");
        assert_eq!(err.status(), 400);
    }
    assert_eq!(ApiError::Internal("x".into()).status(), 500);
}

fn policy_request() -> CreateBackupPolicyRequest {
    CreateBackupPolicyRequest {
        name: "nightly".into(),
        namespace: None,
        repository_ref: "repo".into(),
        repository_namespace: None,
        target_namespace: "workloads".into(),
        pvc_names: vec!["data".into()],
        schedule: None,
        keep_last: Some(3),
        max_age_days: None,
    }
}

#[test]
fn build_policy_rejects_empty_pvcs() {
    let req = CreateBackupPolicyRequest {
        name: "nightly".into(),
        namespace: Some("proteus-system".into()),
        repository_ref: "repo".into(),
        repository_namespace: None,
        target_namespace: "workloads".into(),
        pvc_names: vec![],
        schedule: None,
        keep_last: None,
        max_age_days: None,
    };
    assert!(build_backup_policy(&req).is_err());
}

#[test]
fn build_policy_defaults_namespace() {
    let req = policy_request();
    let (ns, policy) = build_backup_policy(&req).expect("valid");
    assert_eq!(ns, "proteus-system");
    assert_eq!(policy.spec.retention.keep_last, 3);
    assert_eq!(policy.spec.pvc_names, vec!["data".to_string()]);
}

#[test]
fn policy_refusals_are_named() {
    let refusal = |req: &CreateBackupPolicyRequest| {
        build_backup_policy(req).expect_err("refused").message()
    };
    let mut req = policy_request();
    req.name = " ".into();
    assert_eq!(refusal(&req), "bad request: name must not be empty");
    let mut req = policy_request();
    req.target_namespace = "".into();
    assert_eq!(refusal(&req), "bad request: targetNamespace must not be empty");
    let mut req = policy_request();
    req.repository_ref = "".into();
    assert_eq!(refusal(&req), "bad request: repositoryRef must not be empty");
    let mut req = policy_request();
    req.pvc_names = vec![" ".into()];
    assert_eq!(refusal(&req), "bad request: pvcNames must contain at least one PVC name");
    let mut req = policy_request();
    req.keep_last = Some(0);
    assert_eq!(refusal(&req), "bad request: keepLast must be >= 1");
    let mut req = policy_request();
    req.keep_last = None;
    req.pvc_names = vec![" a ".into(), "".into(), "b".into()];
    let (_, policy) = build_backup_policy(&req).expect("valid");
    assert_eq!(policy.spec.retention.keep_last, 7);
    assert_eq!(policy.spec.pvc_names, vec!["a".to_string(), "b".to_string()]);
    let item = policy_list_item(&policy);
    assert_eq!(item.name, "nightly");
    assert_eq!(item.namespace, "proteus-system");
    assert_eq!(item.phase, None);
    assert_eq!(list_backup_policies(&vec![policy]), vec![item]);
}

fn inline_request() -> CreateBackupRequest {
    CreateBackupRequest {
        name: Some("b1".into()),
        namespace: None,
        policy_ref: None,
        policy_namespace: None,
        repository_ref: Some("repo-1".into()),
        repository_namespace: None,
        target_namespace: Some("workloads".into()),
        pvc_names: vec!["data-pvc".into()],
    }
}

#[test]
fn build_inline_rejects_empty_pvc_names() {
    let mut req = inline_request();
    req.pvc_names = vec![];
    let err = build_inline_backup(&req).expect_err("pvcNames required");
    assert!(err.message().contains("pvcNames"));
}

#[test]
fn build_inline_defaults_namespace_to_target_namespace() {
    let req = inline_request();
    let (namespace, backup) = build_inline_backup(&req).expect("valid");
    assert_eq!(namespace, "workloads");
    assert_eq!(backup.metadata.namespace.as_deref(), Some("workloads"));
    assert_eq!(backup.spec.pvc_names, vec!["data-pvc".to_string()]);
}

fn nightly() -> ProteusBackupPolicy {
    ProteusBackupPolicy::new(
        "nightly",
        ProteusBackupPolicySpec {
            repository_ref: "repo".into(),
            repository_namespace: Some("proteus-system".into()),
            target_namespace: "workloads".into(),
            pvc_names: vec!["data".into()],
            label_selector: None,
            schedule: None,
            paused: false,
            retention: RetentionPolicy { keep_last: 3, max_age_days: None },
            include_volumes: true,
            include_cluster_resources: false,
        },
    )
}

fn policy_run_request(name: Option<&str>) -> CreateBackupRequest {
    CreateBackupRequest {
        name: name.map(str::to_string),
        namespace: None,
        policy_ref: Some("nightly".into()),
        policy_namespace: Some("proteus-system".into()),
        repository_ref: None,
        repository_namespace: None,
        target_namespace: None,
        pvc_names: vec![],
    }
}

#[test]
fn build_run_from_policy_stamps_recipe_and_policy_ref() {
    let policy = nightly();
    let req = policy_run_request(Some("nightly-1"));
    let (ns, backup) = build_run_from_policy(&req, &policy, "proteus-system").expect("valid");
    assert_eq!(ns, "proteus-system");
    assert_eq!(backup.spec.policy_ref.as_deref(), Some("nightly"));
    assert_eq!(backup.spec.repository_ref, "repo");
    assert_eq!(backup.spec.pvc_names, vec!["data".to_string()]);
}

#[test]
fn unnamed_run_is_named_after_policy_and_time() {
    let (_, backup) =
        build_run_from_policy_at(&policy_run_request(None), &nightly(), "proteus-system", AT);
    assert_eq!(backup.metadata.name.as_deref(), Some("nightly-20260803020000"));
}

#[test]
fn generate_run_name_includes_policy() {
    let name = generate_run_name("nightly");
    assert!(name.starts_with("nightly-"));
    assert!(name.len() <= 63);
}

#[test]
fn create_backup_asks_for_the_policy_it_names() {
    match create_backup(&policy_run_request(None)) {
        Ok(CreateStep::FetchPolicy { name, namespace }) => {
            assert_eq!(name, "nightly");
            assert_eq!(namespace, "proteus-system");
        }
        _ => panic!("policy expected"),
    }
    let mut req = policy_run_request(None);
    req.policy_namespace = None;
    match create_backup(&req) {
        Err(e) => assert_eq!(
            e.message(),
            "bad request: policyNamespace (or namespace) is required when policyRef is set"
        ),
        Ok(_) => panic!("refusal expected"),
    }
    assert!(matches!(create_backup(&inline_request()), Ok(CreateStep::Create { .. })));
    let refusal = |fetched| {
        create_backup_from_policy_at(&policy_run_request(None), "nightly", "ns", fetched, AT)
            .expect_err("refused")
            .message()
    };
    assert_eq!(refusal(Err("gone".into())), "bad request: policyRef 'nightly' in 'ns': gone");
    assert_eq!(
        refusal(Ok(nightly())),
        "bad request: policyRef 'nightly' in 'ns' is not Ready yet"
    );
    let mut invalid = nightly();
    invalid.status = Some(ProteusBackupPolicyStatus {
        phase: Some(BackupPolicyPhase::Invalid),
        message: Some("no repo".into()),
    });
    assert_eq!(
        refusal(Ok(invalid)),
        "bad request: policyRef 'nightly' in 'ns' is Invalid: no repo"
    );
    let mut ready = nightly();
    ready.status = Some(ProteusBackupPolicyStatus {
        phase: Some(BackupPolicyPhase::Ready),
        message: None,
    });
    let created =
        create_backup_from_policy(&policy_run_request(None), "nightly", "ns", Ok(ready));
    assert_eq!(created.expect("created").0, "ns");
}

#[test]
fn backups_are_listed_with_status_and_times() {
    let (_, mut backup) = build_inline_backup(&inline_request()).expect("valid");
    backup.metadata.creation_timestamp = Some(AT);
    backup.status = Some(ProteusBackupStatus {
        phase: Some(BackupPhase::Running),
        progress_percent: Some(40),
        ..Default::default()
    });
    let item = backup_list_item(&backup);
    assert_eq!(item.phase.as_deref(), Some("Running"));
    assert_eq!(item.progress_percent, Some(40));
    assert_eq!(item.created_at.as_deref(), Some("2026-08-03T02:00:00+00:00"));
    assert_eq!(list_backups(&vec![backup]), vec![item]);
}

fn restore_request(backup_ref: &str, target: &str) -> CreateRestoreRequest {
    CreateRestoreRequest {
        name: "r1".into(),
        namespace: None,
        backup_ref: backup_ref.into(),
        backup_namespace: None,
        snapshot_id: None,
        target_namespace: target.into(),
        overwrite: false,
    }
}

#[test]
fn build_restore_rejects_empty_backup_ref() {
    let err = build_restore(&restore_request("  ", "workloads")).expect_err("backupRef required");
    assert!(err.message().contains("backupRef"));
}

#[test]
fn build_restore_rejects_empty_target_namespace() {
    let err =
        build_restore(&restore_request("backup-1", "")).expect_err("targetNamespace required");
    assert!(err.message().contains("targetNamespace"));
}

#[test]
fn build_restore_defaults_namespace_to_target_namespace() {
    let mut req = restore_request("backup-1", "workloads");
    req.overwrite = true;
    let (namespace, restore) = build_restore(&req).expect("valid");
    assert_eq!(namespace, "workloads");
    assert_eq!(restore.metadata.namespace.as_deref(), Some("workloads"));
    assert!(restore.spec.overwrite);
    assert!(restore.spec.snapshot_id.is_none());
}

#[test]
fn build_restore_honours_cross_namespace_backup_ref() {
    let req = CreateRestoreRequest {
        name: "r1".into(),
        namespace: Some("proteus-system".into()),
        backup_ref: "backup-1".into(),
        backup_namespace: Some("proteus-system".into()),
        snapshot_id: Some("deadbeef".into()),
        target_namespace: "workloads".into(),
        overwrite: false,
    };
    let (namespace, restore) = build_restore(&req).expect("valid");
    assert_eq!(namespace, "proteus-system");
    assert_eq!(restore.spec.backup_namespace.as_deref(), Some("proteus-system"));
    assert_eq!(restore.spec.snapshot_id.as_deref(), Some("deadbeef"));
    assert_eq!(restore.spec.target_namespace, "workloads");
}

#[test]
fn restores_are_listed_with_their_plane() {
    let (_, mut restore) = build_restore(&restore_request("b", "workloads")).expect("valid");
    restore.status = Some(ProteusRestoreStatus {
        phase: Some(RestorePhase::Running),
        data_plane: Some(DataPlane::Agent),
        assigned_node: Some("node-a".into()),
        ..Default::default()
    });
    let item = restore_list_item(&restore);
    assert_eq!(item.phase.as_deref(), Some("Running"));
    assert_eq!(item.data_plane.as_deref(), Some("agent"));
    assert_eq!(item.assigned_node.as_deref(), Some("node-a"));
    assert_eq!(list_restores(&vec![restore]), vec![item]);
}

#[test]
fn repository_of_a_backup_prefers_the_live_policy() {
    let (_, mut backup) = build_inline_backup(&inline_request()).expect("valid");
    assert_eq!(
        resolve_backup_repository(&backup, "ns", None),
        Ok(("ns".to_string(), "repo-1".to_string()))
    );
    backup.spec.policy_ref = Some("nightly".into());
    assert_eq!(
        resolve_backup_repository(&backup, "ns", Some(Ok(nightly()))),
        Ok(("proteus-system".to_string(), "repo".to_string()))
    );
    assert_eq!(
        resolve_backup_repository(&backup, "ns", Some(Err("gone".into()))),
        Ok(("ns".to_string(), "repo-1".to_string()))
    );
    let mut empty = nightly();
    empty.spec.repository_ref = " ".into();
    assert_eq!(
        resolve_backup_repository(&backup, "ns", Some(Ok(empty))),
        Err("policy 'nightly' in 'ns' has empty repositoryRef".to_string())
    );
    backup.spec.repository_ref = "".into();
    assert_eq!(
        resolve_backup_repository(&backup, "ns", Some(Err("gone".into()))),
        Err("failed to load policy 'nightly' for repository GC: gone".to_string())
    );
    backup.spec.policy_ref = None;
    assert_eq!(
        resolve_backup_repository(&backup, "ns", None),
        Err("backup has neither repositoryRef nor policyRef; cannot purge repository".to_string())
    );
}

#[test]
fn backup_is_deleted_only_after_its_data() {
    match delete_backup(DeleteEvent::Repository(Ok(("ns".into(), "repo".into())))) {
        DeleteAction::Purge { repository_namespace, repository_ref } => {
            assert_eq!(repository_namespace, "ns");
            assert_eq!(repository_ref, "repo");
        }
        _ => panic!("purge expected"),
    }
    assert!(matches!(delete_backup(DeleteEvent::Purged(Ok(3))), DeleteAction::Delete));
    match delete_backup(DeleteEvent::Purged(Err("offline".into()))) {
        DeleteAction::Refuse(e) => assert_eq!(
            e,
            ApiError::Internal("could not remove backup data from repository: offline".into())
        ),
        _ => panic!("refusal expected"),
    }
    assert!(matches!(
        delete_backup(DeleteEvent::Repository(Err("x".into()))),
        DeleteAction::Refuse(ApiError::Internal(_))
    ));
}

fn listed(name: &str, repo: &str, snapshot: Option<&str>) -> ListedBackup {
    let (_, mut backup) = build_inline_backup(&inline_request()).expect("valid");
    backup.metadata.name = Some(name.into());
    backup.metadata.namespace = Some("ns".into());
    backup.spec.repository_ref = repo.into();
    backup.status = Some(ProteusBackupStatus {
        last_snapshot_id: snapshot.map(str::to_string),
        ..Default::default()
    });
    ListedBackup { backup, policy: None }
}

#[test]
fn other_backups_keep_their_snapshots() {
    let all = vec![
        listed("deleted", "repo", Some("s0")),
        listed("same", "repo", Some(" s1 ")),
        listed("elsewhere", "other", Some("s2")),
        listed("unknown", "", Some("s3")),
        listed("empty", "repo", None),
    ];
    assert_eq!(snapshot_id(&all[1].backup).as_deref(), Some("s1"));
    let kept = gc_repository_after_backup_delete(all, "ns", "deleted", "ns", "repo");
    assert_eq!(kept, vec!["s1".to_string(), "s3".to_string()]);
}

#[test]
fn decode_prefers_string_data_over_data() {
    let string_data = vec![("encryptionKey".to_string(), "from-string".to_string())];
    let decoded = decode_secret_raw_data(None, Some(&string_data));
    let value = |d: &Vec<(String, Vec<u8>)>, k: &str| {
        d.iter().find(|(key, _)| key == k).map(|(_, v)| v.clone())
    };
    assert_eq!(value(&decoded, "encryptionKey"), Some(b"from-string".to_vec()));
    let data = vec![
        ("encryptionKey".to_string(), b"from-data".to_vec()),
        ("other".to_string(), vec![0xff, 0x00]),
    ];
    let both = decode_secret_raw_data(Some(&data), Some(&string_data));
    assert_eq!(both.len(), 2);
    assert_eq!(value(&both, "encryptionKey"), Some(b"from-string".to_vec()));
    assert_eq!(value(&both, "other"), Some(vec![0xff, 0x00]));
}

#[test]
fn encryption_keys_are_read_raw_or_in_base64() {
    let raw = vec![("encryptionKey".to_string(), vec![7u8; 32])];
    assert_eq!(encryption_key_from_secret_data(&raw).expect("raw").bytes, [7; 32]);
    let text = b"BwcHBwcHBwcHBwcHBwcHBwcHBwcHBwcHBwcHBwcHBwc=".to_vec();
    let encoded = vec![("ENCRYPTION_KEY".to_string(), text)];
    assert_eq!(encryption_key_from_secret_data(&encoded).expect("base64").bytes, [7; 32]);
    let short = vec![("encryptionKey".to_string(), b"c2hvcnQ=".to_vec())];
    match encryption_key_from_secret_data(&short) {
        Err(e) => assert_eq!(e.message(), "invalid argument: encryption key must be 32 bytes"),
        Ok(_) => panic!("refusal expected"),
    }
    match encryption_key_from_secret_data(&vec![]) {
        Err(e) => assert_eq!(e.message(), "not found: encryptionKey"),
        Ok(_) => panic!("refusal expected"),
    }
    assert!(key_from_stored(&vec![1; 10], Some(vec![2; 32])).is_ok());
    assert!(key_from_stored(&vec![1; 10], None).is_err());
}

#[test]
fn unusable_secrets_are_explained() {
    assert_eq!(
        repo_hint("s"),
        "expected a 32-byte or base64-encoded 'encryptionKey' in Secret 's'"
    );
    match load_encryption_key("ns", "s", Err("404".into())) {
        Err(m) => assert_eq!(m, "encryption Secret 's' not found in namespace 'ns': 404"),
        Ok(_) => panic!("refusal expected"),
    }
    let empty = SecretData { data: None, string_data: None };
    match load_encryption_key("ns", "s", Ok(empty)) {
        Err(m) => assert_eq!(
            m,
            "encryption Secret 's' is invalid: not found: encryptionKey. expected a 32-byte or \
             base64-encoded 'encryptionKey' in Secret 's'"
        ),
        Ok(_) => panic!("refusal expected"),
    }
}

fn repository(encrypted: bool, secret: Option<&str>, phase: Option<RepositoryPhase>) -> ProteusRepository {
    ProteusRepository {
        metadata: ObjectMeta::named("repo"),
        spec: ProteusRepositorySpec {
            backend: RepositoryBackend::Local { path: "/data".into() },
            encryption_enabled: encrypted,
            encryption_secret_ref: secret.map(str::to_string),
        },
        status: Some(ProteusRepositoryStatus { phase, message: None }),
    }
}

#[test]
fn only_ready_repositories_are_opened() {
    let fail = |a: OpenAction| match a {
        OpenAction::Fail(m) => m,
        _ => panic!("failure expected"),
    };
    assert_eq!(repository_namespace(None, "ns"), "ns");
    assert_eq!(repository_namespace(Some("other"), "ns"), "other");
    let ready = Some(RepositoryPhase::Ready);
    assert_eq!(
        fail(open_repository("repo", "ns", OpenEvent::Fetched(Err("gone".into())))),
        "repository 'repo' not found in namespace 'ns': gone"
    );
    let pending = repository(false, None, Some(RepositoryPhase::Pending));
    assert_eq!(
        fail(open_repository("repo", "ns", OpenEvent::Fetched(Ok(pending)))),
        "repository 'repo' is not Ready (phase=Some(Pending))"
    );
    assert_eq!(
        fail(open_repository("repo", "ns", OpenEvent::Fetched(Ok(repository(false, None, None))))),
        "repository 'repo' is not Ready (phase=None)"
    );
    assert!(matches!(
        open_repository("repo", "ns", OpenEvent::Fetched(Ok(repository(false, None, ready)))),
        OpenAction::OpenStore(_)
    ));
    let broken = Err(StoreFault::Backend("denied".into()));
    assert_eq!(
        fail(open_repository(
            "repo",
            "ns",
            OpenEvent::Store(repository(false, None, ready), broken)
        )),
        "failed to open local repository: denied"
    );
    match open_repository("repo", "ns", OpenEvent::Store(repository(false, None, ready), Ok(()))) {
        OpenAction::Done(o) => assert!(o.encryption_key.is_none()),
        _ => panic!("open expected"),
    }
    assert_eq!(
        fail(open_repository(
            "repo",
            "ns",
            OpenEvent::Store(repository(true, None, ready), Ok(()))
        )),
        "repository 'repo' has encryptionEnabled but no encryptionSecretRef"
    );
    let encrypted = repository(true, Some("s"), ready);
    match open_repository("repo", "ns", OpenEvent::Store(encrypted, Ok(()))) {
        OpenAction::FetchSecret(backend, name) => {
            assert_eq!(name, "s");
            let secret = SecretData {
                data: Some(vec![("encryptionKey".to_string(), vec![9; 32])]),
                string_data: None,
            };
            match open_repository("repo", "ns", OpenEvent::Secret(backend, name, Ok(secret))) {
                OpenAction::Done(o) => {
                    assert_eq!(o.encryption_key.map(|k| k.bytes), Some([9; 32]));
                }
                _ => panic!("open expected"),
            }
        }
        _ => panic!("secret expected"),
    }
}

#[test]
fn repositories_are_local_or_remote() {
    assert_eq!(
        repository_kind("repo", "ns", Ok(repository(false, None, None))),
        Ok(RepositoryKind::Local)
    );
    let mut s3 = repository(false, None, None);
    s3.spec.backend = RepositoryBackend::S3 {
        bucket: "b".into(),
        credentials_secret_ref: "c".into(),
    };
    assert_eq!(repository_kind("repo", "ns", Ok(s3)), Ok(RepositoryKind::Remote));
    assert_eq!(
        repository_kind("repo", "ns", Err("gone".into())),
        Err("repository 'repo' not found in namespace 'ns': gone".to_string())
    );
}

#[test]
fn unnamed_objects_are_listed_under_their_prefix() {
    let (_, mut backup): (String, ProteusBackup) =
        build_inline_backup(&inline_request()).expect("valid");
    backup.metadata = ObjectMeta { generate_name: Some("run-".into()), ..ObjectMeta::default() };
    let item = backup_list_item(&backup);
    assert_eq!(item.name, "run-");
    assert_eq!(item.namespace, "default");
}
