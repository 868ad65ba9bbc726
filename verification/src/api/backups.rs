//! Backup runs over the API.
use super::common::{
    as_str_option, bad_request, is_unset, named_list, named_of, refuses, require_non_empty,
    required_text, ApiError, ApiResult,
};
use crate::clock::{compact_text, now, rfc3339, rfc3339_text, Timestamp};
use crate::crd::{
    BackupPolicyPhase, ObjectMeta, ProteusBackup, ProteusBackupPolicy, ProteusBackupSpec,
    RetentionPolicy,
};
use crate::recipe::{policy_message, policy_namespace, policy_namespace_of, policy_phase};
use crate::schedule::{backup_run_name, run_name, RUN_NAME_LIMIT};
use crate::text::{blank, copy_list, copy_option, is_blank, named, opt_view, optional_trimmed, trim};
use vstd::prelude::*;

verus! {

/// A backup run as it is listed.
#[derive(Debug, Clone, PartialEq, Eq)]
pub struct BackupListItem {
    pub name: String,
    pub namespace: String,
    pub policy_ref: Option<String>,
    pub repository_ref: String,
    pub target_namespace: String,
    pub pvc_names: Vec<String>,
    pub schedule: Option<String>,
    pub phase: Option<String>,
    pub message: Option<String>,
    pub last_snapshot_id: Option<String>,
    pub progress_percent: Option<u8>,
    pub duration_seconds: Option<u64>,
    pub throughput_bytes_per_sec: Option<u64>,
    /// When the run started (RFC 3339).
    pub started_at: Option<String>,
    /// When the object was created (RFC 3339).
    pub created_at: Option<String>,
}

/// A backup run to create.
#[derive(Debug, Clone, PartialEq, Eq)]
pub struct CreateBackupRequest {
    /// Run name; made up for a run of a policy where unset.
    pub name: Option<String>,
    /// Namespace of the run; the policy's or the target namespace where unset.
    pub namespace: Option<String>,
    /// The policy to run.
    pub policy_ref: Option<String>,
    pub policy_namespace: Option<String>,
    /// Inline recipe, ignored when `policy_ref` is set.
    pub repository_ref: Option<String>,
    pub repository_namespace: Option<String>,
    pub target_namespace: Option<String>,
    pub pvc_names: Vec<String>,
}

/// Whether the object's times are points in time.
pub open spec fn has_valid_times(metadata: ObjectMeta) -> bool {
    metadata.creation_timestamp matches Some(t) ==> t.valid()
}

/// Whether `item` lists the run.
pub open spec fn lists_backup(obj: ProteusBackup, item: BackupListItem) -> bool {
    let s = obj.status_view();
    &&& item.name@ == obj.metadata.any_name()
    &&& item.namespace@ == obj.metadata.namespace_or("default"@)
    &&& opt_view(item.policy_ref) == opt_view(obj.spec.policy_ref)
    &&& item.repository_ref@ == obj.spec.repository_ref@
    &&& item.target_namespace@ == obj.spec.target_namespace@
    &&& item.pvc_names.deep_view() == obj.spec.pvc_names.deep_view()
    &&& opt_view(item.schedule) == opt_view(obj.spec.schedule)
    &&& opt_view(item.phase) == (match s.phase {
        Some(p) => Some(p.text()),
        None => None,
    })
    &&& opt_view(item.message) == s.message
    &&& opt_view(item.last_snapshot_id) == s.last_snapshot_id
    &&& item.progress_percent == s.progress_percent
    &&& item.duration_seconds == s.duration_seconds
    &&& item.throughput_bytes_per_sec == s.throughput_bytes_per_sec
    &&& opt_view(item.started_at) == s.started_at
    &&& opt_view(item.created_at) == (match obj.metadata.creation_timestamp {
        Some(t) => Some(rfc3339_text(t.secs, t.nanos)),
        None => None,
    })
}

/// A backup run as it is listed.
pub fn backup_list_item(obj: &ProteusBackup) -> (res: BackupListItem)
    requires
        has_valid_times(obj.metadata),
    ensures
        lists_backup(*obj, res),
{
    let created_at: Option<String> = match obj.metadata.creation_timestamp {
        Some(t) => Some(rfc3339(t)),
        None => None,
    };
    let mut res = BackupListItem {
        name: obj.metadata.name_any(),
        namespace: obj.metadata.namespace_or_else("default"),
        policy_ref: copy_option(&obj.spec.policy_ref),
        repository_ref: obj.spec.repository_ref.clone(),
        target_namespace: obj.spec.target_namespace.clone(),
        pvc_names: copy_list(&obj.spec.pvc_names),
        schedule: copy_option(&obj.spec.schedule),
        phase: None,
        message: None,
        last_snapshot_id: None,
        progress_percent: None,
        duration_seconds: None,
        throughput_bytes_per_sec: None,
        started_at: None,
        created_at,
    };
    if let Some(s) = &obj.status {
        res.phase = match s.phase {
            Some(p) => Some(p.label()),
            None => None,
        };
        res.message = copy_option(&s.message);
        res.last_snapshot_id = copy_option(&s.last_snapshot_id);
        res.progress_percent = s.progress_percent;
        res.duration_seconds = s.duration_seconds;
        res.throughput_bytes_per_sec = s.throughput_bytes_per_sec;
        res.started_at = copy_option(&s.started_at);
    }
    assert(res.pvc_names.deep_view() =~= obj.spec.pvc_names.deep_view());
    res
}

/// The backup runs as they are listed, in order.
pub fn list_backups(objs: &Vec<ProteusBackup>) -> (res: Vec<BackupListItem>)
    requires
        forall|i: int| 0 <= i < objs@.len() ==> has_valid_times((#[trigger] objs@[i]).metadata),
    ensures
        res@.len() == objs@.len(),
        forall|i: int| 0 <= i < res@.len() ==> lists_backup(objs@[i], #[trigger] res@[i]),
{
    let mut out: Vec<BackupListItem> = Vec::new();
    let mut i: usize = 0;
    while i < objs.len()
        invariant
            i <= objs@.len(),
            out@.len() == i,
            forall|k: int|
                0 <= k < objs@.len() ==> has_valid_times((#[trigger] objs@[k]).metadata),
            forall|k: int| 0 <= k < i ==> lists_backup(objs@[k], #[trigger] out@[k]),
        decreases objs@.len() - i,
    {
        out.push(backup_list_item(&objs[i]));
        i += 1;
    }
    out
}

/// Whether `name` is the name of a run of the policy that is made at `at`.
pub open spec fn is_run_name_at(policy_name: Seq<char>, at: Timestamp, name: Seq<char>) -> bool {
    at.valid() && name == run_name(policy_name, compact_text(at.secs, at.nanos))
}

/// A name for a run of a policy that is made now.
pub fn generate_run_name(policy_name: &str) -> (res: String)
    ensures
        exists|at: Timestamp| #[trigger] is_run_name_at(policy_name@, at, res@),
        res@.len() <= RUN_NAME_LIMIT,
{
    let at = now();
    let name = backup_run_name(policy_name, at);
    assert(is_run_name_at(policy_name@, at, name@));
    name
}

/// Why a request for a run with an inline recipe is refused, if it is.
pub open spec fn inline_refusal(req: CreateBackupRequest) -> Option<Seq<char>> {
    if is_unset(opt_view(req.name)) {
        Some(required_text("name"@))
    } else if is_unset(opt_view(req.target_namespace)) {
        Some(required_text("targetNamespace"@))
    } else if is_unset(opt_view(req.repository_ref)) {
        Some(required_text("repositoryRef"@))
    } else if named_of(req.pvc_names.deep_view()).len() == 0 {
        Some("pvcNames must contain at least one PVC name"@)
    } else {
        None
    }
}

/// Whether `metadata` is that of a new object with this name and namespace.
pub open spec fn is_new_metadata(metadata: ObjectMeta, name: Seq<char>, ns: Seq<char>) -> bool {
    &&& opt_view(metadata.name) == Some(name)
    &&& opt_view(metadata.namespace) == Some(ns)
    &&& metadata.generate_name is None
    &&& metadata.uid is None
    &&& metadata.creation_timestamp is None
}

/// Whether `ns` and `backup` are the run with an inline recipe that the request asks for.
pub open spec fn is_inline_backup_of(
    req: CreateBackupRequest,
    ns: Seq<char>,
    backup: ProteusBackup,
) -> bool {
    &&& ns == (match named(opt_view(req.namespace)) {
        Some(n) => n,
        None => trim(opt_view(req.target_namespace)->0),
    })
    &&& is_new_metadata(backup.metadata, trim(opt_view(req.name)->0), ns)
    &&& backup.spec.policy_ref is None
    &&& backup.spec.policy_namespace is None
    &&& backup.spec.repository_ref@ == trim(opt_view(req.repository_ref)->0)
    &&& opt_view(backup.spec.repository_namespace) == named(opt_view(req.repository_namespace))
    &&& backup.spec.target_namespace@ == trim(opt_view(req.target_namespace)->0)
    &&& backup.spec.pvc_names.deep_view() == named_of(req.pvc_names.deep_view())
    &&& backup.spec.label_selector is None
    &&& backup.spec.schedule is None
    &&& backup.spec.retention.keep_last == 7
    &&& backup.spec.retention.max_age_days is None
    &&& backup.spec.include_volumes
    &&& !backup.spec.include_cluster_resources
    &&& backup.status is None
}

/// The run with an inline recipe that a request asks for, and its namespace.
pub fn build_inline_backup(req: &CreateBackupRequest) -> (res: ApiResult<(String, ProteusBackup)>)
    ensures
        match res {
            Ok((ns, backup)) => inline_refusal(*req) is None && is_inline_backup_of(
                *req,
                ns@,
                backup,
            ),
            Err(e) => inline_refusal(*req) is Some && refuses(e, inline_refusal(*req)->0),
        },
{
    let name = match require_non_empty("name", as_str_option(&req.name)) {
        Ok(s) => s,
        Err(e) => {
            return Err(e);
        },
    };
    let target_namespace = match require_non_empty(
        "targetNamespace",
        as_str_option(&req.target_namespace),
    ) {
        Ok(s) => s,
        Err(e) => {
            return Err(e);
        },
    };
    let repository_ref = match require_non_empty(
        "repositoryRef",
        as_str_option(&req.repository_ref),
    ) {
        Ok(s) => s,
        Err(e) => {
            return Err(e);
        },
    };
    let namespace = match optional_trimmed(&req.namespace) {
        Some(ns) => ns,
        None => target_namespace.clone(),
    };
    let pvc_names = named_list(&req.pvc_names);
    if pvc_names.len() == 0 {
        return Err(bad_request("pvcNames must contain at least one PVC name"));
    }
    let backup = ProteusBackup {
        metadata: ObjectMeta {
            name: Some(name),
            namespace: Some(namespace.clone()),
            ..ObjectMeta::default()
        },
        spec: ProteusBackupSpec {
            policy_ref: None,
            policy_namespace: None,
            repository_ref,
            repository_namespace: optional_trimmed(&req.repository_namespace),
            target_namespace,
            pvc_names,
            label_selector: None,
            schedule: None,
            retention: RetentionPolicy::default(),
            include_volumes: true,
            include_cluster_resources: false,
        },
        status: None,
    };
    Ok((namespace, backup))
}

/// Whether `ns` and `backup` are the run of the policy that the request asks for at `at`, with the
/// policy's recipe stamped on it.
pub open spec fn is_policy_run_of(
    req: CreateBackupRequest,
    policy: ProteusBackupPolicy,
    policy_namespace: Seq<char>,
    at: Timestamp,
    ns: Seq<char>,
    backup: ProteusBackup,
) -> bool {
    let policy_name = policy.metadata.any_name();
    &&& ns == (match named(opt_view(req.namespace)) {
        Some(n) => n,
        None => policy_namespace,
    })
    &&& is_new_metadata(
        backup.metadata,
        match named(opt_view(req.name)) {
            Some(n) => n,
            None => run_name(policy_name, compact_text(at.secs, at.nanos)),
        },
        ns,
    )
    &&& opt_view(backup.spec.policy_ref) == Some(policy_name)
    &&& opt_view(backup.spec.policy_namespace) == Some(policy_namespace)
    &&& backup.spec.repository_ref@ == policy.spec.repository_ref@
    &&& opt_view(backup.spec.repository_namespace) == opt_view(policy.spec.repository_namespace)
    &&& backup.spec.target_namespace@ == policy.spec.target_namespace@
    &&& backup.spec.pvc_names.deep_view() == policy.spec.pvc_names.deep_view()
    &&& backup.spec.label_selector is None
    &&& backup.spec.schedule is None
    &&& backup.spec.retention == policy.spec.retention
    &&& backup.spec.include_volumes == policy.spec.include_volumes
    &&& backup.spec.include_cluster_resources == policy.spec.include_cluster_resources
    &&& backup.status is None
}

/// The run of a policy that a request asks for at `at`, and its namespace.
pub fn build_run_from_policy_at(
    req: &CreateBackupRequest,
    policy: &ProteusBackupPolicy,
    policy_namespace: &str,
    at: Timestamp,
) -> (res: (String, ProteusBackup))
    requires
        at.valid(),
    ensures
        is_policy_run_of(*req, *policy, policy_namespace@, at, res.0@, res.1),
{
    let policy_name = policy.metadata.name_any();
    let name = match optional_trimmed(&req.name) {
        Some(n) => n,
        None => backup_run_name(policy_name.as_str(), at),
    };
    let namespace = match optional_trimmed(&req.namespace) {
        Some(ns) => ns,
        None => policy_namespace.to_owned(),
    };
    let backup = ProteusBackup {
        metadata: ObjectMeta {
            name: Some(name),
            namespace: Some(namespace.clone()),
            ..ObjectMeta::default()
        },
        spec: ProteusBackupSpec {
            policy_ref: Some(policy_name),
            policy_namespace: Some(policy_namespace.to_owned()),
            repository_ref: policy.spec.repository_ref.clone(),
            repository_namespace: copy_option(&policy.spec.repository_namespace),
            target_namespace: policy.spec.target_namespace.clone(),
            pvc_names: copy_list(&policy.spec.pvc_names),
            label_selector: None,
            schedule: None,
            retention: policy.spec.retention,
            include_volumes: policy.spec.include_volumes,
            include_cluster_resources: policy.spec.include_cluster_resources,
        },
        status: None,
    };
    assert(backup.spec.pvc_names.deep_view() =~= policy.spec.pvc_names.deep_view());
    (namespace, backup)
}

/// The run of a policy that a request asks for now, and its namespace.
pub fn build_run_from_policy(
    req: &CreateBackupRequest,
    policy: &ProteusBackupPolicy,
    policy_namespace: &str,
) -> (res: ApiResult<(String, ProteusBackup)>)
    ensures
        res matches Ok((ns, backup)) && exists|at: Timestamp|
            at.valid() && #[trigger] is_policy_run_of(
                *req,
                *policy,
                policy_namespace@,
                at,
                ns@,
                backup,
            ),
{
    let at = now();
    Ok(build_run_from_policy_at(req, policy, policy_namespace, at))
}

/// What creating a run does first.
pub enum CreateStep {
    /// Fetch the policy to run.
    FetchPolicy { name: String, namespace: String },
    /// Create this run in this namespace.
    Create { namespace: String, backup: ProteusBackup },
}

/// The namespace in which the policy of a request is looked up, if one is named.
pub open spec fn requested_policy_namespace(req: CreateBackupRequest) -> Option<Seq<char>> {
    match named(opt_view(req.policy_namespace)) {
        Some(n) => Some(n),
        None => named(opt_view(req.namespace)),
    }
}

/// What a request for a run leads to: the policy that it names, or else its inline recipe.
pub open spec fn starts_creating(req: CreateBackupRequest, res: ApiResult<CreateStep>) -> bool {
    match named(opt_view(req.policy_ref)) {
        Some(policy_ref) => match requested_policy_namespace(req) {
            Some(ns) => res matches Ok(CreateStep::FetchPolicy { name, namespace }) && name@
                == policy_ref && namespace@ == ns,
            None => res matches Err(e) && refuses(
                e,
                "policyNamespace (or namespace) is required when policyRef is set"@,
            ),
        },
        None => match res {
            Ok(CreateStep::Create { namespace, backup }) => inline_refusal(req) is None
                && is_inline_backup_of(req, namespace@, backup),
            Ok(_) => false,
            Err(e) => inline_refusal(req) is Some && refuses(e, inline_refusal(req)->0),
        },
    }
}

/// What a request for a run leads to.
pub fn create_backup(req: &CreateBackupRequest) -> (res: ApiResult<CreateStep>)
    ensures
        starts_creating(*req, res),
{
    match optional_trimmed(&req.policy_ref) {
        Some(name) => {
            let ns = match optional_trimmed(&req.policy_namespace) {
                Some(n) => Some(n),
                None => optional_trimmed(&req.namespace),
            };
            match ns {
                Some(namespace) => Ok(CreateStep::FetchPolicy { name, namespace }),
                None => Err(
                    bad_request("policyNamespace (or namespace) is required when policyRef is set"),
                ),
            }
        },
        None => match build_inline_backup(req) {
            Ok((namespace, backup)) => Ok(CreateStep::Create { namespace, backup }),
            Err(e) => Err(e),
        },
    }
}

/// A policy as messages name it.
pub open spec fn policy_label(policy_ref: Seq<char>, ns: Seq<char>) -> Seq<char> {
    "policyRef '"@ + policy_ref + "' in '"@ + ns
}

fn policy_name_text(policy_ref: &str, ns: &str) -> (res: String)
    ensures
        res@ == policy_label(policy_ref@, ns@),
{
    String::from_str("policyRef '").concat(policy_ref).concat("' in '").concat(ns)
}

/// What a request for a run of a policy is answered once the policy was fetched, or could not be:
/// only a ready policy is run.
pub open spec fn creates_from_policy(
    req: CreateBackupRequest,
    policy_ref: Seq<char>,
    ns: Seq<char>,
    fetched: Result<ProteusBackupPolicy, String>,
    at: Timestamp,
    res: ApiResult<(String, ProteusBackup)>,
) -> bool {
    match fetched {
        Err(err) => res matches Err(e) && refuses(e, policy_label(policy_ref, ns) + "': "@ + err@),
        Ok(policy) => match policy_phase(policy) {
            Some(BackupPolicyPhase::Ready) => res matches Ok((run_ns, backup)) && is_policy_run_of(
                req,
                policy,
                ns,
                at,
                run_ns@,
                backup,
            ),
            Some(BackupPolicyPhase::Invalid) => res matches Err(e) && refuses(
                e,
                policy_label(policy_ref, ns) + "' is Invalid: "@ + policy_message(
                    policy,
                    "policy is Invalid"@,
                ),
            ),
            None => res matches Err(e) && refuses(
                e,
                policy_label(policy_ref, ns) + "' is not Ready yet"@,
            ),
        },
    }
}

/// What a request for a run of a policy is answered at `at`, once the policy was fetched or could
/// not be.
pub fn create_backup_from_policy_at(
    req: &CreateBackupRequest,
    policy_ref: &str,
    ns: &str,
    fetched: Result<ProteusBackupPolicy, String>,
    at: Timestamp,
) -> (res: ApiResult<(String, ProteusBackup)>)
    requires
        at.valid(),
    ensures
        creates_from_policy(*req, policy_ref@, ns@, fetched, at, res),
{
    let policy = match fetched {
        Ok(p) => p,
        Err(err) => {
            return Err(
                ApiError::BadRequest(
                    policy_name_text(policy_ref, ns).concat("': ").concat(err.as_str()),
                ),
            );
        },
    };
    let phase: Option<BackupPolicyPhase> = match &policy.status {
        Some(s) => s.phase,
        None => None,
    };
    match phase {
        Some(BackupPolicyPhase::Ready) => Ok(build_run_from_policy_at(req, &policy, ns, at)),
        Some(BackupPolicyPhase::Invalid) => {
            let message: String = match &policy.status {
                Some(s) => match &s.message {
                    Some(m) => m.clone(),
                    None => String::from_str("policy is Invalid"),
                },
                None => String::from_str("policy is Invalid"),
            };
            Err(
                ApiError::BadRequest(
                    policy_name_text(policy_ref, ns).concat("' is Invalid: ").concat(
                        message.as_str(),
                    ),
                ),
            )
        },
        None => Err(
            ApiError::BadRequest(policy_name_text(policy_ref, ns).concat("' is not Ready yet")),
        ),
    }
}

/// What a request for a run of a policy is answered now, once the policy was fetched or could not
/// be.
pub fn create_backup_from_policy(
    req: &CreateBackupRequest,
    policy_ref: &str,
    ns: &str,
    fetched: Result<ProteusBackupPolicy, String>,
) -> (res: ApiResult<(String, ProteusBackup)>)
    ensures
        exists|at: Timestamp|
            at.valid() && #[trigger] creates_from_policy(
                *req,
                policy_ref@,
                ns@,
                fetched,
                at,
                res,
            ),
{
    let at = now();
    create_backup_from_policy_at(req, policy_ref, ns, fetched, at)
}

/// The namespace and name of the repository that a run wrote to: its live policy's, else the one
/// stamped on the run; or why it is not known.
pub open spec fn backup_repository(
    backup: ProteusBackup,
    backup_namespace: Seq<char>,
    fetched: Option<Result<ProteusBackupPolicy, String>>,
) -> Result<(Seq<char>, Seq<char>), Seq<char>> {
    let policy_ref = named(opt_view(backup.spec.policy_ref));
    let policy_ns = policy_namespace_of(backup.spec, backup_namespace);
    let stamped = (
        match backup.spec.repository_namespace {
            Some(n) => n@,
            None => backup_namespace,
        },
        backup.spec.repository_ref@,
    );
    match (policy_ref, fetched) {
        (Some(p), Some(Ok(policy))) => if blank(policy.spec.repository_ref@) {
            Err("policy '"@ + p + "' in '"@ + policy_ns + "' has empty repositoryRef"@)
        } else {
            Ok(
                (
                    match policy.spec.repository_namespace {
                        Some(n) => n@,
                        None => policy_ns,
                    },
                    policy.spec.repository_ref@,
                ),
            )
        },
        (Some(p), Some(Err(err))) => if blank(backup.spec.repository_ref@) {
            Err("failed to load policy '"@ + p + "' for repository GC: "@ + err@)
        } else {
            Ok(stamped)
        },
        _ => if blank(backup.spec.repository_ref@) {
            Err("backup has neither repositoryRef nor policyRef; cannot purge repository"@)
        } else {
            Ok(stamped)
        },
    }
}

fn stamped_repository(backup: &ProteusBackup, backup_namespace: &str) -> (res: (String, String))
    ensures
        res.0@ == (match backup.spec.repository_namespace {
            Some(n) => n@,
            None => backup_namespace@,
        }),
        res.1@ == backup.spec.repository_ref@,
{
    let ns = match &backup.spec.repository_namespace {
        Some(n) => n.clone(),
        None => backup_namespace.to_owned(),
    };
    (ns, backup.spec.repository_ref.clone())
}

/// The namespace and name of the repository that a run wrote to, given what came back for its
/// policy where it names one.
pub fn resolve_backup_repository(
    backup: &ProteusBackup,
    backup_namespace: &str,
    fetched: Option<Result<ProteusBackupPolicy, String>>,
) -> (res: Result<(String, String), String>)
    ensures
        match (res, backup_repository(*backup, backup_namespace@, fetched)) {
            (Ok((ns, name)), Ok((n, r))) => ns@ == n && name@ == r,
            (Err(m), Err(t)) => m@ == t,
            _ => false,
        },
{
    if let Some(policy_ref) = optional_trimmed(&backup.spec.policy_ref) {
        let policy_ns = policy_namespace(backup, backup_namespace);
        match fetched {
            Some(Ok(policy)) => {
                if is_blank(policy.spec.repository_ref.as_str()) {
                    return Err(
                        String::from_str("policy '").concat(policy_ref.as_str()).concat(
                            "' in '",
                        ).concat(policy_ns.as_str()).concat("' has empty repositoryRef"),
                    );
                }
                let ns = match &policy.spec.repository_namespace {
                    Some(n) => n.clone(),
                    None => policy_ns,
                };
                return Ok((ns, policy.spec.repository_ref.clone()));
            },
            Some(Err(err)) => {
                if is_blank(backup.spec.repository_ref.as_str()) {
                    return Err(
                        String::from_str("failed to load policy '").concat(
                            policy_ref.as_str(),
                        ).concat("' for repository GC: ").concat(err.as_str()),
                    );
                }
                return Ok(stamped_repository(backup, backup_namespace));
            },
            None => {},
        }
    }
    if is_blank(backup.spec.repository_ref.as_str()) {
        return Err(
            String::from_str(
                "backup has neither repositoryRef nor policyRef; cannot purge repository",
            ),
        );
    }
    Ok(stamped_repository(backup, backup_namespace))
}

/// What deleting a backup hears of.
pub enum DeleteEvent {
    /// The backup was fetched, and its repository is known or not.
    Repository(Result<(String, String), String>),
    /// The repository was purged of what only this backup referenced, or could not be.
    Purged(Result<u64, String>),
}

/// What deleting a backup does next.
pub enum DeleteAction {
    /// Purge this repository of what only this backup references.
    Purge { repository_namespace: String, repository_ref: String },
    /// Delete the backup.
    Delete,
    /// Leave the backup in place.
    Refuse(ApiError),
}

/// What deleting a backup does on each event: its data first, the backup itself only after that.
pub open spec fn deletes(event: DeleteEvent, action: DeleteAction) -> bool {
    match event {
        DeleteEvent::Repository(Ok((ns, name))) => action matches DeleteAction::Purge {
            repository_namespace,
            repository_ref,
        } && repository_namespace == ns && repository_ref == name,
        DeleteEvent::Repository(Err(m)) => action matches DeleteAction::Refuse(ApiError::Internal(t))
            && t@ == m@,
        DeleteEvent::Purged(Ok(_)) => action is Delete,
        DeleteEvent::Purged(Err(err)) => action matches DeleteAction::Refuse(ApiError::Internal(t))
            && t@ == "could not remove backup data from repository: "@ + err@,
    }
}

/// What deleting a backup does next.
pub fn delete_backup(event: DeleteEvent) -> (res: DeleteAction)
    ensures
        deletes(event, res),
{
    match event {
        DeleteEvent::Repository(Ok((repository_namespace, repository_ref))) => {
            DeleteAction::Purge { repository_namespace, repository_ref }
        },
        DeleteEvent::Repository(Err(m)) => DeleteAction::Refuse(ApiError::Internal(m)),
        DeleteEvent::Purged(Ok(_)) => DeleteAction::Delete,
        DeleteEvent::Purged(Err(err)) => DeleteAction::Refuse(
            ApiError::Internal(
                String::from_str("could not remove backup data from repository: ").concat(
                    err.as_str(),
                ),
            ),
        ),
    }
}

/// A backup is deleted only after its data was purged: on any failure it stays in place.
pub proof fn law_backup_outlives_its_data(event: DeleteEvent, action: DeleteAction)
    requires
        deletes(event, action),
    ensures
        action is Delete <==> (event matches DeleteEvent::Purged(r) && r is Ok),
{
}

/// A run without a policy is refused exactly where a name is blank or no claim is named.
pub proof fn law_complete_inline_runs_are_taken(req: CreateBackupRequest)
    ensures
        inline_refusal(req) is None <==> named(opt_view(req.name)) is Some && named(
            opt_view(req.target_namespace),
        ) is Some && named(opt_view(req.repository_ref)) is Some && (exists|i: int|
            0 <= i < req.pvc_names@.len() && !blank(#[trigger] req.pvc_names@[i]@)),
{
    let list = req.pvc_names.deep_view();
    super::common::law_list_names_nothing_where_all_is_blank(list);
    super::common::law_unset_values_name_nothing(opt_view(req.name));
    super::common::law_unset_values_name_nothing(opt_view(req.target_namespace));
    super::common::law_unset_values_name_nothing(opt_view(req.repository_ref));
    if forall|i: int| 0 <= i < list.len() ==> blank(#[trigger] list[i]) {
        assert forall|i: int| 0 <= i < req.pvc_names@.len() implies blank(
            #[trigger] req.pvc_names@[i]@,
        ) by {
            assert(list[i] == req.pvc_names@[i]@);
        }
    } else {
        let i = choose|i: int| 0 <= i < list.len() && !blank(#[trigger] list[i]);
        assert(list[i] == req.pvc_names@[i]@);
    }
}

/// A run without a policy that was created is listed with what the request asked for, without the
/// white space round it, and with nothing said of its state.
pub proof fn law_created_inline_run_is_listed(
    req: CreateBackupRequest,
    ns: Seq<char>,
    backup: ProteusBackup,
    item: BackupListItem,
)
    requires
        inline_refusal(req) is None,
        is_inline_backup_of(req, ns, backup),
        lists_backup(backup, item),
    ensures
        Some(item.name@) == named(opt_view(req.name)),
        item.namespace@ == ns,
        Some(item.repository_ref@) == named(opt_view(req.repository_ref)),
        Some(item.target_namespace@) == named(opt_view(req.target_namespace)),
        item.pvc_names.deep_view() == named_of(req.pvc_names.deep_view()),
        item.policy_ref is None,
        item.schedule is None,
        item.phase is None,
        item.message is None,
        item.last_snapshot_id is None,
        item.progress_percent is None,
        item.started_at is None,
        item.created_at is None,
        named(opt_view(req.namespace)) is Some ==> ns == named(opt_view(req.namespace))->0,
        named(opt_view(req.namespace)) is None ==> ns == item.target_namespace@,
{
    super::common::law_unset_values_name_nothing(opt_view(req.name));
    super::common::law_unset_values_name_nothing(opt_view(req.target_namespace));
    super::common::law_unset_values_name_nothing(opt_view(req.repository_ref));
}

/// A run without a policy that was created has all that it needs to be run.
pub proof fn law_created_inline_run_can_be_run(
    req: CreateBackupRequest,
    ns: Seq<char>,
    backup: ProteusBackup,
)
    requires
        inline_refusal(req) is None,
        is_inline_backup_of(req, ns, backup),
    ensures
        crate::recipe::inline_recipe(backup.spec).fault() is None,
        backup.spec.include_volumes,
        backup.spec.policy_ref is None,
{
    super::common::law_unset_values_name_nothing(opt_view(req.target_namespace));
    super::common::law_unset_values_name_nothing(opt_view(req.repository_ref));
}

/// A run of a policy is to be run as the policy says, and names the policy; without a name of its
/// own it gets that of the policy and the time.
pub proof fn law_policy_run_follows_the_policy(
    req: CreateBackupRequest,
    policy: ProteusBackupPolicy,
    policy_namespace: Seq<char>,
    at: Timestamp,
    ns: Seq<char>,
    backup: ProteusBackup,
)
    requires
        is_policy_run_of(req, policy, policy_namespace, at, ns, backup),
    ensures
        crate::recipe::inline_recipe(backup.spec) == crate::recipe::policy_recipe(policy),
        opt_view(backup.spec.policy_ref) == Some(policy.metadata.any_name()),
        opt_view(backup.spec.policy_namespace) == Some(policy_namespace),
        opt_view(backup.metadata.namespace) == Some(ns),
        named(opt_view(req.name)) is Some ==> opt_view(backup.metadata.name) == named(
            opt_view(req.name),
        ),
        named(opt_view(req.name)) is None ==> is_run_name_at(
            policy.metadata.any_name(),
            at,
            opt_view(backup.metadata.name)->0,
        ) || !at.valid(),
        named(opt_view(req.namespace)) is Some ==> ns == named(opt_view(req.namespace))->0,
        named(opt_view(req.namespace)) is None ==> ns == policy_namespace,
        backup.spec.schedule is None,
        backup.status is None,
{
}

/// A request is for a run of a policy exactly where it names one; the policy is then looked for
/// where the request says, and nothing is created before.
pub proof fn law_named_policy_is_looked_for(req: CreateBackupRequest, res: ApiResult<CreateStep>)
    requires
        starts_creating(req, res),
    ensures
        (res matches Ok(CreateStep::FetchPolicy { .. })) <==> named(opt_view(req.policy_ref)) is Some
            && (named(opt_view(req.policy_namespace)) is Some || named(
            opt_view(req.namespace),
        ) is Some),
        (res matches Ok(CreateStep::Create { .. })) <==> named(opt_view(req.policy_ref)) is None
            && inline_refusal(req) is None,
        res matches Err(e) ==> e is BadRequest,
        res matches Ok(CreateStep::FetchPolicy { name, namespace }) ==> Some(name@) == named(
            opt_view(req.policy_ref),
        ) && (named(opt_view(req.policy_namespace)) is Some ==> Some(namespace@) == named(
            opt_view(req.policy_namespace),
        )) && (named(opt_view(req.policy_namespace)) is None ==> Some(namespace@) == named(
            opt_view(req.namespace),
        )),
{
}

/// A run of a policy is created exactly where the policy was found and is ready; else the request
/// is refused, for the reason at hand.
pub proof fn law_only_ready_policies_start_runs(
    req: CreateBackupRequest,
    policy_ref: Seq<char>,
    ns: Seq<char>,
    fetched: Result<ProteusBackupPolicy, String>,
    at: Timestamp,
    res: ApiResult<(String, ProteusBackup)>,
)
    requires
        creates_from_policy(req, policy_ref, ns, fetched, at, res),
    ensures
        res is Ok <==> (fetched matches Ok(p) && p.status is Some && p.status->0.phase == Some(
            BackupPolicyPhase::Ready,
        )),
        res matches Ok((run_ns, backup)) ==> is_policy_run_of(
            req,
            fetched->Ok_0,
            ns,
            at,
            run_ns@,
            backup,
        ),
        res matches Err(e) ==> e is BadRequest && ("policyRef '"@ + policy_ref + "' in '"@
            + ns).is_prefix_of(e->BadRequest_0@),
        fetched matches Err(err) ==> err@.is_suffix_of(res->Err_0->BadRequest_0@),
        (fetched matches Ok(p) && p.status is Some && p.status->0.phase == Some(
            BackupPolicyPhase::Invalid,
        ) && p.status->0.message is Some) ==> fetched->Ok_0.status->0.message->0@.is_suffix_of(
            res->Err_0->BadRequest_0@,
        ),
{
    if let Err(e) = res {
        let m = e->BadRequest_0@;
        let head = "policyRef '"@ + policy_ref + "' in '"@ + ns;
        assert(m.subrange(0, head.len() as int) =~= head);
        match fetched {
            Err(err) => {
                assert(m.subrange(m.len() - err@.len(), m.len() as int) =~= err@);
            },
            Ok(p) => {
                if p.status is Some && p.status->0.phase == Some(BackupPolicyPhase::Invalid)
                    && p.status->0.message is Some {
                    let t = p.status->0.message->0@;
                    assert(m.subrange(m.len() - t.len(), m.len() as int) =~= t);
                }
            },
        }
    }
}

/// The repository of a run is that of its policy where the policy can be had, else the one that the
/// run itself names; without either there is none.
pub proof fn law_repository_is_the_policys_else_the_runs(
    backup: ProteusBackup,
    backup_namespace: Seq<char>,
    fetched: Option<Result<ProteusBackupPolicy, String>>,
)
    ensures
        ({
            let res = backup_repository(backup, backup_namespace, fetched);
            let from_policy = named(opt_view(backup.spec.policy_ref)) is Some && (
            fetched matches Some(Ok(_)));
            let policy = fetched->0->Ok_0;
            &&& from_policy ==> (res is Ok <==> !blank(policy.spec.repository_ref@)) && (res is Ok
                ==> res->Ok_0.1 == policy.spec.repository_ref@ && (
            match policy.spec.repository_namespace {
                Some(n) => res->Ok_0.0 == n@,
                None => res->Ok_0.0 == policy_namespace_of(backup.spec, backup_namespace),
            }))
            &&& !from_policy ==> (res is Ok <==> !blank(backup.spec.repository_ref@)) && (res is Ok
                ==> res->Ok_0.1 == backup.spec.repository_ref@ && (
            match backup.spec.repository_namespace {
                Some(n) => res->Ok_0.0 == n@,
                None => res->Ok_0.0 == backup_namespace,
            }))
        }),
{
}

/// A deletion goes from the repository to its data and only then to the run: what is purged is the
/// repository that was found, and whatever went wrong is said and stops it.
pub proof fn law_deletion_stops_where_it_fails(event: DeleteEvent, action: DeleteAction)
    requires
        deletes(event, action),
    ensures
        action is Purge <==> (event matches DeleteEvent::Repository(Ok(_))),
        event matches DeleteEvent::Repository(Ok((ns, name))) ==> action->repository_namespace == ns
            && action->repository_ref == name,
        action is Refuse <==> (event matches DeleteEvent::Repository(Err(_))) || (
        event matches DeleteEvent::Purged(Err(_))),
        event matches DeleteEvent::Repository(Err(m)) ==> action->Refuse_0 is Internal
            && m@.is_suffix_of(action->Refuse_0->Internal_0@),
        event matches DeleteEvent::Purged(Err(m)) ==> action->Refuse_0 is Internal && m@.is_suffix_of(
            action->Refuse_0->Internal_0@,
        ),
{
    match event {
        DeleteEvent::Repository(Err(m)) => {
            let t = action->Refuse_0->Internal_0@;
            assert(t.subrange(t.len() - m@.len(), t.len() as int) =~= m@);
        },
        DeleteEvent::Purged(Err(m)) => {
            let t = action->Refuse_0->Internal_0@;
            assert(t.subrange(t.len() - m@.len(), t.len() as int) =~= m@);
        },
        _ => {},
    }
}

/// A listed run tells its state as its status has it.
pub proof fn law_listed_run_tells_its_state(obj: ProteusBackup, item: BackupListItem)
    requires
        lists_backup(obj, item),
        obj.status is Some,
    ensures
        ({
            let s = obj.status->0;
            &&& opt_view(item.message) == opt_view(s.message)
            &&& opt_view(item.last_snapshot_id) == opt_view(s.last_snapshot_id)
            &&& item.progress_percent == s.progress_percent
            &&& item.duration_seconds == s.duration_seconds
            &&& item.throughput_bytes_per_sec == s.throughput_bytes_per_sec
            &&& opt_view(item.started_at) == opt_view(s.started_at)
            &&& item.phase is None <==> s.phase is None
            &&& opt_view(item.phase) == Some("Succeeded"@) <==> s.phase == Some(
                crate::crd::BackupPhase::Succeeded,
            )
            &&& opt_view(item.phase) == Some("Failed"@) <==> s.phase == Some(
                crate::crd::BackupPhase::Failed,
            )
            &&& opt_view(item.phase) == Some("Running"@) <==> s.phase == Some(
                crate::crd::BackupPhase::Running,
            )
            &&& opt_view(item.phase) == Some("Pending"@) <==> s.phase == Some(
                crate::crd::BackupPhase::Pending,
            )
        }),
        opt_view(item.policy_ref) == opt_view(obj.spec.policy_ref),
        opt_view(obj.metadata.namespace) == Some(item.namespace@) || (obj.metadata.namespace is None
            && item.namespace@ == "default"@),
        obj.metadata.creation_timestamp is Some <==> item.created_at is Some,
        obj.metadata.creation_timestamp matches Some(t) ==> item.created_at->0@ == rfc3339_text(
            t.secs,
            t.nanos,
        ),
{
    reveal_strlit("Pending");
    reveal_strlit("Running");
    reveal_strlit("Succeeded");
    reveal_strlit("Failed");
    assert("Pending"@[0] == 'P' && "Running"@[0] == 'R' && "Succeeded"@[0] == 'S' && "Failed"@[0]
        == 'F');
}

} // verus!
