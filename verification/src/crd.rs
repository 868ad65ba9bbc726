//! The custom resources of `proteus.io/v1alpha1`, as plain values.
use crate::clock::Timestamp;
use crate::text::opt_view;
use vstd::prelude::*;

verus! {

/// What a Kubernetes object says of itself.
#[derive(Debug, Clone, PartialEq, Eq)]
pub struct ObjectMeta {
    pub name: Option<String>,
    pub generate_name: Option<String>,
    pub namespace: Option<String>,
    pub uid: Option<String>,
    pub creation_timestamp: Option<Timestamp>,
}

impl Default for ObjectMeta {
    fn default() -> (res: Self)
        ensures
            res.name is None,
            res.generate_name is None,
            res.namespace is None,
            res.uid is None,
            res.creation_timestamp is None,
    {
        ObjectMeta {
            name: None,
            generate_name: None,
            namespace: None,
            uid: None,
            creation_timestamp: None,
        }
    }
}

impl ObjectMeta {
    /// The object's name, else the prefix it is named after, else nothing.
    pub open spec fn any_name(&self) -> Seq<char> {
        match (self.name, self.generate_name) {
            (Some(n), _) => n@,
            (None, Some(g)) => g@,
            (None, None) => seq![],
        }
    }

    /// The object's name, else the prefix it is named after, else nothing.
    pub fn name_any(&self) -> (res: String)
        ensures
            res@ == self.any_name(),
    {
        match (&self.name, &self.generate_name) {
            (Some(n), _) => n.clone(),
            (None, Some(g)) => g.clone(),
            (None, None) => String::new(),
        }
    }

    /// The object's namespace, else `fallback`.
    pub open spec fn namespace_or(&self, fallback: Seq<char>) -> Seq<char> {
        match self.namespace {
            Some(n) => n@,
            None => fallback,
        }
    }

    /// The object's namespace, else `default_namespace`.
    pub fn namespace_or_else(&self, default_namespace: &str) -> (res: String)
        ensures
            res@ == self.namespace_or(default_namespace@),
    {
        match &self.namespace {
            Some(n) => n.clone(),
            None => default_namespace.to_owned(),
        }
    }

    /// Metadata of an object with the given name and nothing else.
    pub fn named(name: &str) -> (res: Self)
        ensures
            opt_view(res.name) == Some(name@),
            res.generate_name is None,
            res.namespace is None,
            res.uid is None,
            res.creation_timestamp is None,
    {
        ObjectMeta { name: Some(name.to_owned()), ..ObjectMeta::default() }
    }
}

/// Which bulk I/O path executed a backup or restore.
#[derive(Debug, Clone, Copy, PartialEq, Eq, Structural)]
pub enum DataPlane {
    /// Mount pod and exec into the controller.
    Exec,
    /// Node agent and mover pod on the volume's node.
    Agent,
}

impl DataPlane {
    /// The label in status and listings.
    pub open spec fn text(self) -> Seq<char> {
        match self {
            DataPlane::Exec => "exec"@,
            DataPlane::Agent => "agent"@,
        }
    }

    /// The label in status and listings.
    pub fn label(self) -> (res: String)
        ensures
            res@ == self.text(),
    {
        match self {
            DataPlane::Exec => String::from_str("exec"),
            DataPlane::Agent => String::from_str("agent"),
        }
    }
}

/// How many succeeded runs of a policy are kept.
#[derive(Debug, Clone, Copy, PartialEq, Eq)]
pub struct RetentionPolicy {
    pub keep_last: u32,
    pub max_age_days: Option<u32>,
}

/// Runs kept where nothing else is said.
pub fn default_keep_last() -> (res: u32)
    ensures
        res == 7,
{
    7
}

/// Volumes are included where nothing else is said.
pub fn default_true() -> (res: bool)
    ensures
        res,
{
    true
}

impl Default for RetentionPolicy {
    fn default() -> (res: Self)
        ensures
            res.keep_last == 7,
            res.max_age_days is None,
    {
        RetentionPolicy { keep_last: default_keep_last(), max_age_days: None }
    }
}

/// One backup execution (run). The recipe comes from `policy_ref` or inline.
#[derive(Debug, Clone, PartialEq, Eq)]
pub struct ProteusBackupSpec {
    /// When set, the recipe is that of this policy.
    pub policy_ref: Option<String>,
    pub policy_namespace: Option<String>,
    /// Inline recipe, ignored when `policy_ref` is set.
    pub repository_ref: String,
    pub repository_namespace: Option<String>,
    pub target_namespace: String,
    pub pvc_names: Vec<String>,
    pub label_selector: Option<String>,
    pub schedule: Option<String>,
    pub retention: RetentionPolicy,
    pub include_volumes: bool,
    pub include_cluster_resources: bool,
}

/// Where a backup run stands.
#[derive(Debug, Clone, Copy, PartialEq, Eq, Structural)]
pub enum BackupPhase {
    Pending,
    Running,
    Succeeded,
    Failed,
}

impl BackupPhase {
    /// The label in status and listings.
    pub open spec fn text(self) -> Seq<char> {
        match self {
            BackupPhase::Pending => "Pending"@,
            BackupPhase::Running => "Running"@,
            BackupPhase::Succeeded => "Succeeded"@,
            BackupPhase::Failed => "Failed"@,
        }
    }

    /// The label in status and listings.
    pub fn label(self) -> (res: String)
        ensures
            res@ == self.text(),
    {
        match self {
            BackupPhase::Pending => String::from_str("Pending"),
            BackupPhase::Running => String::from_str("Running"),
            BackupPhase::Succeeded => String::from_str("Succeeded"),
            BackupPhase::Failed => String::from_str("Failed"),
        }
    }

    /// Whether a run in this phase is over.
    pub open spec fn terminal(self) -> bool {
        self is Succeeded || self is Failed
    }

    /// Whether a run in this phase is over.
    pub fn is_terminal(self) -> (res: bool)
        ensures
            res == self.terminal(),
    {
        matches!(self, BackupPhase::Succeeded | BackupPhase::Failed)
    }
}

/// What is known of a backup run.
#[derive(Debug, Clone, PartialEq, Eq)]
pub struct ProteusBackupStatus {
    pub phase: Option<BackupPhase>,
    pub message: Option<String>,
    pub last_snapshot_id: Option<String>,
    pub last_success_at: Option<String>,
    pub last_failure_at: Option<String>,
    pub last_bytes: Option<u64>,
    pub retained_snapshots: Option<u32>,
    /// 0 to 100 while running; 100 once succeeded.
    pub progress_percent: Option<u8>,
    /// When the current or last run started (RFC 3339).
    pub started_at: Option<String>,
    /// Wall-clock seconds of a successful run.
    pub duration_seconds: Option<u64>,
    /// Bytes per second of a successful run.
    pub throughput_bytes_per_sec: Option<u64>,
    pub data_plane: Option<DataPlane>,
    /// Node that runs (or ran) a backup on the agent plane.
    pub assigned_node: Option<String>,
}

impl Default for ProteusBackupStatus {
    fn default() -> (res: Self)
        ensures
            res.deep_view() == BackupStatusView::empty(),
    {
        ProteusBackupStatus {
            phase: None,
            message: None,
            last_snapshot_id: None,
            last_success_at: None,
            last_failure_at: None,
            last_bytes: None,
            retained_snapshots: None,
            progress_percent: None,
            started_at: None,
            duration_seconds: None,
            throughput_bytes_per_sec: None,
            data_plane: None,
            assigned_node: None,
        }
    }
}

/// The model of a [`ProteusBackupStatus`].
#[verifier::ext_equal]
pub struct BackupStatusView {
    pub phase: Option<BackupPhase>,
    pub message: Option<Seq<char>>,
    pub last_snapshot_id: Option<Seq<char>>,
    pub last_success_at: Option<Seq<char>>,
    pub last_failure_at: Option<Seq<char>>,
    pub last_bytes: Option<u64>,
    pub retained_snapshots: Option<u32>,
    pub progress_percent: Option<u8>,
    pub started_at: Option<Seq<char>>,
    pub duration_seconds: Option<u64>,
    pub throughput_bytes_per_sec: Option<u64>,
    pub data_plane: Option<DataPlane>,
    pub assigned_node: Option<Seq<char>>,
}

impl BackupStatusView {
    /// A status of which nothing is known.
    pub open spec fn empty() -> Self {
        BackupStatusView {
            phase: None,
            message: None,
            last_snapshot_id: None,
            last_success_at: None,
            last_failure_at: None,
            last_bytes: None,
            retained_snapshots: None,
            progress_percent: None,
            started_at: None,
            duration_seconds: None,
            throughput_bytes_per_sec: None,
            data_plane: None,
            assigned_node: None,
        }
    }
}

impl DeepView for ProteusBackupStatus {
    type V = BackupStatusView;

    open spec fn deep_view(&self) -> BackupStatusView {
        BackupStatusView {
            phase: self.phase,
            message: opt_view(self.message),
            last_snapshot_id: opt_view(self.last_snapshot_id),
            last_success_at: opt_view(self.last_success_at),
            last_failure_at: opt_view(self.last_failure_at),
            last_bytes: self.last_bytes,
            retained_snapshots: self.retained_snapshots,
            progress_percent: self.progress_percent,
            started_at: opt_view(self.started_at),
            duration_seconds: self.duration_seconds,
            throughput_bytes_per_sec: self.throughput_bytes_per_sec,
            data_plane: self.data_plane,
            assigned_node: opt_view(self.assigned_node),
        }
    }
}

/// A backup run.
#[derive(Debug, Clone, PartialEq, Eq)]
pub struct ProteusBackup {
    pub metadata: ObjectMeta,
    pub spec: ProteusBackupSpec,
    pub status: Option<ProteusBackupStatus>,
}

impl ProteusBackup {
    /// A backup run with the given name and spec, not yet seen by the controller.
    pub fn new(name: &str, spec: ProteusBackupSpec) -> (res: Self)
        ensures
            opt_view(res.metadata.name) == Some(name@),
            res.metadata.namespace is None,
            res.spec == spec,
            res.status is None,
    {
        ProteusBackup { metadata: ObjectMeta::named(name), spec, status: None }
    }

    /// What the status says, or nothing where there is none.
    pub open spec fn status_view(&self) -> BackupStatusView {
        match self.status {
            Some(s) => s.deep_view(),
            None => BackupStatusView::empty(),
        }
    }
}

/// The recipe that runs are made from, with its schedule and retention.
#[derive(Debug, Clone, PartialEq, Eq)]
pub struct ProteusBackupPolicySpec {
    pub repository_ref: String,
    pub repository_namespace: Option<String>,
    pub target_namespace: String,
    /// Volume claims to back up, by name, in `target_namespace`; at least one.
    pub pvc_names: Vec<String>,
    pub label_selector: Option<String>,
    /// Cron expression of scheduled runs.
    pub schedule: Option<String>,
    /// Whether scheduled runs are held back.
    pub paused: bool,
    pub retention: RetentionPolicy,
    pub include_volumes: bool,
    pub include_cluster_resources: bool,
}

/// Whether a policy can be run.
#[derive(Debug, Clone, Copy, PartialEq, Eq, Structural)]
pub enum BackupPolicyPhase {
    Ready,
    Invalid,
}

impl BackupPolicyPhase {
    /// The label in status and listings.
    pub open spec fn text(self) -> Seq<char> {
        match self {
            BackupPolicyPhase::Ready => "Ready"@,
            BackupPolicyPhase::Invalid => "Invalid"@,
        }
    }

    /// The label in status and listings.
    pub fn label(self) -> (res: String)
        ensures
            res@ == self.text(),
    {
        match self {
            BackupPolicyPhase::Ready => String::from_str("Ready"),
            BackupPolicyPhase::Invalid => String::from_str("Invalid"),
        }
    }
}

/// What is known of a policy.
#[derive(Debug, Clone, PartialEq, Eq)]
pub struct ProteusBackupPolicyStatus {
    pub phase: Option<BackupPolicyPhase>,
    pub message: Option<String>,
}

/// A backup policy.
#[derive(Debug, Clone, PartialEq, Eq)]
pub struct ProteusBackupPolicy {
    pub metadata: ObjectMeta,
    pub spec: ProteusBackupPolicySpec,
    pub status: Option<ProteusBackupPolicyStatus>,
}

impl ProteusBackupPolicy {
    /// A policy with the given name and spec, not yet seen by the controller.
    pub fn new(name: &str, spec: ProteusBackupPolicySpec) -> (res: Self)
        ensures
            opt_view(res.metadata.name) == Some(name@),
            res.metadata.namespace is None,
            res.spec == spec,
            res.status is None,
    {
        ProteusBackupPolicy { metadata: ObjectMeta::named(name), spec, status: None }
    }
}

/// Which snapshot is restored, and where to.
#[derive(Debug, Clone, PartialEq, Eq)]
pub struct ProteusRestoreSpec {
    pub backup_ref: String,
    pub backup_namespace: Option<String>,
    /// The snapshot to restore; the backup's last one where unset.
    pub snapshot_id: Option<String>,
    pub target_namespace: String,
    pub overwrite: bool,
    pub include_resources: Option<Vec<String>>,
}

/// Where a restore stands.
#[derive(Debug, Clone, Copy, PartialEq, Eq, Structural)]
pub enum RestorePhase {
    Pending,
    Running,
    Succeeded,
    Failed,
}

impl RestorePhase {
    /// The label in status and listings.
    pub open spec fn text(self) -> Seq<char> {
        match self {
            RestorePhase::Pending => "Pending"@,
            RestorePhase::Running => "Running"@,
            RestorePhase::Succeeded => "Succeeded"@,
            RestorePhase::Failed => "Failed"@,
        }
    }

    /// The label in status and listings.
    pub fn label(self) -> (res: String)
        ensures
            res@ == self.text(),
    {
        match self {
            RestorePhase::Pending => String::from_str("Pending"),
            RestorePhase::Running => String::from_str("Running"),
            RestorePhase::Succeeded => String::from_str("Succeeded"),
            RestorePhase::Failed => String::from_str("Failed"),
        }
    }

    /// Whether a restore in this phase is over.
    pub open spec fn terminal(self) -> bool {
        self is Succeeded || self is Failed
    }

    /// Whether a restore in this phase is over.
    pub fn is_terminal(self) -> (res: bool)
        ensures
            res == self.terminal(),
    {
        matches!(self, RestorePhase::Succeeded | RestorePhase::Failed)
    }
}

/// What is known of a restore.
#[derive(Debug, Clone, PartialEq, Eq)]
pub struct ProteusRestoreStatus {
    pub phase: Option<RestorePhase>,
    pub message: Option<String>,
    pub restored_snapshot_id: Option<String>,
    pub progress_percent: Option<u8>,
    pub completed_at: Option<String>,
    pub started_at: Option<String>,
    pub last_bytes: Option<u64>,
    pub duration_seconds: Option<u64>,
    pub throughput_bytes_per_sec: Option<u64>,
    pub data_plane: Option<DataPlane>,
    pub assigned_node: Option<String>,
}

impl Default for ProteusRestoreStatus {
    fn default() -> (res: Self)
        ensures
            res.deep_view() == RestoreStatusView::empty(),
    {
        ProteusRestoreStatus {
            phase: None,
            message: None,
            restored_snapshot_id: None,
            progress_percent: None,
            completed_at: None,
            started_at: None,
            last_bytes: None,
            duration_seconds: None,
            throughput_bytes_per_sec: None,
            data_plane: None,
            assigned_node: None,
        }
    }
}

/// The model of a [`ProteusRestoreStatus`].
#[verifier::ext_equal]
pub struct RestoreStatusView {
    pub phase: Option<RestorePhase>,
    pub message: Option<Seq<char>>,
    pub restored_snapshot_id: Option<Seq<char>>,
    pub progress_percent: Option<u8>,
    pub completed_at: Option<Seq<char>>,
    pub started_at: Option<Seq<char>>,
    pub last_bytes: Option<u64>,
    pub duration_seconds: Option<u64>,
    pub throughput_bytes_per_sec: Option<u64>,
    pub data_plane: Option<DataPlane>,
    pub assigned_node: Option<Seq<char>>,
}

impl RestoreStatusView {
    /// A status of which nothing is known.
    pub open spec fn empty() -> Self {
        RestoreStatusView {
            phase: None,
            message: None,
            restored_snapshot_id: None,
            progress_percent: None,
            completed_at: None,
            started_at: None,
            last_bytes: None,
            duration_seconds: None,
            throughput_bytes_per_sec: None,
            data_plane: None,
            assigned_node: None,
        }
    }
}

impl DeepView for ProteusRestoreStatus {
    type V = RestoreStatusView;

    open spec fn deep_view(&self) -> RestoreStatusView {
        RestoreStatusView {
            phase: self.phase,
            message: opt_view(self.message),
            restored_snapshot_id: opt_view(self.restored_snapshot_id),
            progress_percent: self.progress_percent,
            completed_at: opt_view(self.completed_at),
            started_at: opt_view(self.started_at),
            last_bytes: self.last_bytes,
            duration_seconds: self.duration_seconds,
            throughput_bytes_per_sec: self.throughput_bytes_per_sec,
            data_plane: self.data_plane,
            assigned_node: opt_view(self.assigned_node),
        }
    }
}

/// A restore.
#[derive(Debug, Clone, PartialEq, Eq)]
pub struct ProteusRestore {
    pub metadata: ObjectMeta,
    pub spec: ProteusRestoreSpec,
    pub status: Option<ProteusRestoreStatus>,
}

impl ProteusRestore {
    /// A restore with the given name and spec, not yet seen by the controller.
    pub fn new(name: &str, spec: ProteusRestoreSpec) -> (res: Self)
        ensures
            opt_view(res.metadata.name) == Some(name@),
            res.metadata.namespace is None,
            res.spec == spec,
            res.status is None,
    {
        ProteusRestore { metadata: ObjectMeta::named(name), spec, status: None }
    }

    /// What the status says, or nothing where there is none.
    pub open spec fn status_view(&self) -> RestoreStatusView {
        match self.status {
            Some(s) => s.deep_view(),
            None => RestoreStatusView::empty(),
        }
    }
}

/// Whether a repository can be used.
#[derive(Debug, Clone, Copy, PartialEq, Eq, Structural)]
pub enum RepositoryPhase {
    Pending,
    Ready,
    Failed,
}

/// Where a repository keeps its objects.
#[derive(Debug, Clone, PartialEq, Eq)]
pub enum RepositoryBackend {
    /// A directory of the controller.
    Local { path: String },
    /// An S3 bucket that every node reaches.
    S3 { bucket: String, credentials_secret_ref: String },
}

/// A repository: its backend and whether its chunks are encrypted.
#[derive(Debug, Clone, PartialEq, Eq)]
pub struct ProteusRepositorySpec {
    pub backend: RepositoryBackend,
    pub encryption_enabled: bool,
    pub encryption_secret_ref: Option<String>,
}

/// What is known of a repository.
#[derive(Debug, Clone, PartialEq, Eq)]
pub struct ProteusRepositoryStatus {
    pub phase: Option<RepositoryPhase>,
    pub message: Option<String>,
}

/// A repository.
#[derive(Debug, Clone, PartialEq, Eq)]
pub struct ProteusRepository {
    pub metadata: ObjectMeta,
    pub spec: ProteusRepositorySpec,
    pub status: Option<ProteusRepositoryStatus>,
}

/// The labels tell the phases and the planes apart.
pub proof fn law_labels_tell_values_apart(
    a: BackupPhase,
    b: BackupPhase,
    r: RestorePhase,
    s: RestorePhase,
    p: BackupPolicyPhase,
    q: BackupPolicyPhase,
    d: DataPlane,
    e: DataPlane,
)
    ensures
        a.text() == b.text() ==> a == b,
        r.text() == s.text() ==> r == s,
        p.text() == q.text() ==> p == q,
        d.text() == e.text() ==> d == e,
        a.text() == r.text() ==> a.terminal() == r.terminal(),
{
    reveal_strlit("Pending");
    reveal_strlit("Running");
    reveal_strlit("Succeeded");
    reveal_strlit("Failed");
    reveal_strlit("Ready");
    reveal_strlit("Invalid");
    reveal_strlit("exec");
    reveal_strlit("agent");
    assert("Pending"@[0] == 'P' && "Running"@[0] == 'R' && "Succeeded"@[0] == 'S' && "Failed"@[0]
        == 'F');
    assert("Ready"@[0] == 'R' && "Invalid"@[0] == 'I' && "exec"@[0] == 'e' && "agent"@[0] == 'a');
}

/// A phase is final exactly where it says how the work ended.
pub proof fn law_ended_work_succeeded_or_failed(a: BackupPhase, r: RestorePhase)
    ensures
        a.terminal() <==> a == BackupPhase::Succeeded || a == BackupPhase::Failed,
        !a.terminal() <==> a == BackupPhase::Pending || a == BackupPhase::Running,
        r.terminal() <==> r == RestorePhase::Succeeded || r == RestorePhase::Failed,
        !r.terminal() <==> r == RestorePhase::Pending || r == RestorePhase::Running,
{
}

/// An object goes by its name, else by the prefix for one; it lies in its namespace, else in the
/// one that stands for none.
pub proof fn law_objects_go_by_their_names(m: ObjectMeta, name: String, fallback: Seq<char>)
    ensures
        m.name == Some(name) ==> m.any_name() == name@,
        m.name is None && m.generate_name == Some(name) ==> m.any_name() == name@,
        m.namespace == Some(name) ==> m.namespace_or(fallback) == name@,
        m.namespace is None ==> m.namespace_or(fallback) == fallback,
{
}

} // verus!
