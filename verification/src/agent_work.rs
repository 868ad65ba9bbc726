//! The node agent's work: which backups and restores it moves, and the pods that move them.
use crate::clock::{rfc3339, rfc3339_text, Timestamp};
use crate::crd::{
    BackupPhase, BackupStatusView, DataPlane, ProteusBackup, ProteusBackupStatus, ProteusRestore,
    ProteusRestoreStatus, RestorePhase, RestoreStatusView,
};
use crate::data_plane::PodInfo;
use crate::order::contains_text;
use crate::recipe::BackupRecipe;
use crate::text::{chars_of, copy_option, opt_view, same_text, string_of};
use vstd::prelude::*;

verus! {

/// The service account that mover pods run under.
pub const MOVER_SA: &'static str = "proteus-mover";

/// Label that tells what a pod is for.
pub const LABEL_PURPOSE: &'static str = "proteus.io/purpose";

/// The purpose of a pod that moves a backup.
pub const PURPOSE_BACKUP_MOVER: &'static str = "backup-mover";

/// The purpose of a pod that moves a restore.
pub const PURPOSE_RESTORE_MOVER: &'static str = "restore-mover";

/// Label that names the backup or restore that a pod moves.
pub const LABEL_OWNER: &'static str = "proteus.io/owner";

/// Label that names the namespace of the backup or restore that a pod moves.
pub const LABEL_OWNER_NS: &'static str = "proteus.io/owner-namespace";

/// Where the volumes are mounted in a mover pod.
pub const VOLUME_ROOT: &'static str = "/volumes";

/// The seconds after which a mover pod is given up.
pub const MOVER_POD_TIMEOUT_SECS: u64 = 21_600;

/// Whether a status asks the agent on `node` to move the backup.
pub open spec fn backup_assigned(backup: ProteusBackup, node: Seq<char>) -> bool {
    let s = backup.status_view();
    &&& backup.status is Some
    &&& s.data_plane == Some(DataPlane::Agent)
    &&& s.assigned_node == Some(node)
    &&& s.phase == Some(BackupPhase::Running)
    &&& s.last_snapshot_id is None
}

fn is_node(assigned: &Option<String>, node: &str) -> (res: bool)
    ensures
        res == (opt_view(*assigned) == Some(node@)),
{
    match assigned {
        Some(n) => same_text(n.as_str(), node),
        None => false,
    }
}

/// Whether the agent on `node_name` is to move this backup.
pub fn is_assigned_backup(backup: &ProteusBackup, node_name: &str) -> (res: bool)
    ensures
        res == backup_assigned(*backup, node_name@),
{
    match &backup.status {
        Some(s) => s.data_plane == Some(DataPlane::Agent) && is_node(&s.assigned_node, node_name)
            && s.phase == Some(BackupPhase::Running) && s.last_snapshot_id.is_none(),
        None => false,
    }
}

/// Whether a status asks the agent on `node` to move the restore.
pub open spec fn restore_assigned(restore: ProteusRestore, node: Seq<char>) -> bool {
    let s = restore.status_view();
    &&& restore.status is Some
    &&& s.data_plane == Some(DataPlane::Agent)
    &&& s.assigned_node == Some(node)
    &&& s.phase == Some(RestorePhase::Running)
    &&& s.completed_at is None
}

/// Whether the agent on `node_name` is to move this restore.
pub fn is_assigned_restore(restore: &ProteusRestore, node_name: &str) -> (res: bool)
    ensures
        res == restore_assigned(*restore, node_name@),
{
    match &restore.status {
        Some(s) => s.data_plane == Some(DataPlane::Agent) && is_node(&s.assigned_node, node_name)
            && s.phase == Some(RestorePhase::Running) && s.completed_at.is_none(),
        None => false,
    }
}

/// Two agents never move the same backup: it is assigned to one node at most.
pub proof fn law_backup_is_assigned_to_one_node(
    backup: ProteusBackup,
    one: Seq<char>,
    other: Seq<char>,
)
    requires
        backup_assigned(backup, one),
        backup_assigned(backup, other),
    ensures
        one == other,
{
}

/// A backup or restore that a poll starts.
pub struct WorkItem {
    /// Its position in the list that was polled.
    pub index: usize,
    pub namespace: String,
    pub name: String,
    /// The key under which it is held in flight.
    pub key: String,
}

/// The key of a piece of work.
pub open spec fn work_key(kind: Seq<char>, namespace: Seq<char>, name: Seq<char>) -> Seq<char> {
    kind + ":"@ + namespace + "/"@ + name
}

fn make_key(kind: &str, namespace: &str, name: &str) -> (res: String)
    ensures
        res@ == work_key(kind@, namespace@, name@),
{
    String::from_str(kind).concat(":").concat(namespace).concat("/").concat(name)
}

/// What the first `n` of a polled list come to: the work in flight, and how many were started.
/// `assigned` tells which are this agent's, `keys` under which key each is held.
pub open spec fn polled(
    assigned: spec_fn(int) -> bool,
    keys: spec_fn(int) -> Seq<char>,
    n: nat,
    inflight: Seq<Seq<char>>,
) -> (Seq<Seq<char>>, Seq<int>)
    decreases n,
{
    if n == 0 {
        (inflight, seq![])
    } else {
        let before = polled(assigned, keys, (n - 1) as nat, inflight);
        let i = n - 1;
        if assigned(i) && !before.0.contains(keys(i)) {
            (before.0.push(keys(i)), before.1.push(i))
        } else {
            before
        }
    }
}

/// The key of a backup.
pub open spec fn backup_key(backup: ProteusBackup) -> Seq<char> {
    work_key("backup"@, backup.metadata.namespace_or("default"@), backup.metadata.any_name())
}

/// The key of a restore.
pub open spec fn restore_key(restore: ProteusRestore) -> Seq<char> {
    work_key("restore"@, restore.metadata.namespace_or("default"@), restore.metadata.any_name())
}

/// The positions of the work that was started.
pub open spec fn item_indices(items: Seq<WorkItem>) -> Seq<int> {
    items.map_values(|w: WorkItem| w.index as int)
}

/// Starts the backups that are assigned to this node and not in flight yet.
pub fn poll_backups(backups: &Vec<ProteusBackup>, node_name: &str, inflight: &mut Vec<String>) -> (res:
    Vec<WorkItem>)
    ensures
        ({
            let (flying, started) = polled(
                |i: int| backup_assigned(backups@[i], node_name@),
                |i: int| backup_key(backups@[i]),
                backups@.len(),
                old(inflight).deep_view(),
            );
            &&& final(inflight).deep_view() == flying
            &&& item_indices(res@) == started
        }),
        forall|k: int|
            0 <= k < res@.len() ==> {
                let w = #[trigger] res@[k];
                &&& w.index < backups@.len()
                &&& w.namespace@ == backups@[w.index as int].metadata.namespace_or("default"@)
                &&& w.name@ == backups@[w.index as int].metadata.any_name()
                &&& w.key@ == backup_key(backups@[w.index as int])
            },
{
    let ghost assigned = |i: int| backup_assigned(backups@[i], node_name@);
    let ghost keys = |i: int| backup_key(backups@[i]);
    let ghost start = inflight.deep_view();
    let mut out: Vec<WorkItem> = Vec::new();
    let mut i: usize = 0;
    assert(item_indices(out@) =~= seq![]);
    while i < backups.len()
        invariant
            i <= backups@.len(),
            assigned == (|i: int| backup_assigned(backups@[i], node_name@)),
            keys == (|i: int| backup_key(backups@[i])),
            (inflight.deep_view(), item_indices(out@)) == polled(assigned, keys, i as nat, start),
            forall|k: int|
                0 <= k < out@.len() ==> {
                    let w = #[trigger] out@[k];
                    &&& w.index < backups@.len()
                    &&& w.namespace@ == backups@[w.index as int].metadata.namespace_or("default"@)
                    &&& w.name@ == backups@[w.index as int].metadata.any_name()
                    &&& w.key@ == backup_key(backups@[w.index as int])
                },
        decreases backups@.len() - i,
    {
        let ghost flying = inflight.deep_view();
        let ghost started = item_indices(out@);
        if is_assigned_backup(&backups[i], node_name) {
            let namespace = backups[i].metadata.namespace_or_else("default");
            let name = backups[i].metadata.name_any();
            let key = make_key("backup", namespace.as_str(), name.as_str());
            if !contains_text(inflight, key.as_str()) {
                inflight.push(key.clone());
                out.push(WorkItem { index: i, namespace, name, key });
                proof {
                    assert(inflight.deep_view() =~= flying.push(key@));
                    assert(item_indices(out@) =~= started.push(i as int));
                }
            }
        }
        i += 1;
    }
    out
}

/// Starts the restores that are assigned to this node and not in flight yet.
pub fn poll_restores(
    restores: &Vec<ProteusRestore>,
    node_name: &str,
    inflight: &mut Vec<String>,
) -> (res: Vec<WorkItem>)
    ensures
        ({
            let (flying, started) = polled(
                |i: int| restore_assigned(restores@[i], node_name@),
                |i: int| restore_key(restores@[i]),
                restores@.len(),
                old(inflight).deep_view(),
            );
            &&& final(inflight).deep_view() == flying
            &&& item_indices(res@) == started
        }),
        forall|k: int|
            0 <= k < res@.len() ==> {
                let w = #[trigger] res@[k];
                &&& w.index < restores@.len()
                &&& w.namespace@ == restores@[w.index as int].metadata.namespace_or("default"@)
                &&& w.name@ == restores@[w.index as int].metadata.any_name()
                &&& w.key@ == restore_key(restores@[w.index as int])
            },
{
    let ghost assigned = |i: int| restore_assigned(restores@[i], node_name@);
    let ghost keys = |i: int| restore_key(restores@[i]);
    let ghost start = inflight.deep_view();
    let mut out: Vec<WorkItem> = Vec::new();
    let mut i: usize = 0;
    assert(item_indices(out@) =~= seq![]);
    while i < restores.len()
        invariant
            i <= restores@.len(),
            assigned == (|i: int| restore_assigned(restores@[i], node_name@)),
            keys == (|i: int| restore_key(restores@[i])),
            (inflight.deep_view(), item_indices(out@)) == polled(assigned, keys, i as nat, start),
            forall|k: int|
                0 <= k < out@.len() ==> {
                    let w = #[trigger] out@[k];
                    &&& w.index < restores@.len()
                    &&& w.namespace@ == restores@[w.index as int].metadata.namespace_or("default"@)
                    &&& w.name@ == restores@[w.index as int].metadata.any_name()
                    &&& w.key@ == restore_key(restores@[w.index as int])
                },
        decreases restores@.len() - i,
    {
        let ghost flying = inflight.deep_view();
        let ghost started = item_indices(out@);
        if is_assigned_restore(&restores[i], node_name) {
            let namespace = restores[i].metadata.namespace_or_else("default");
            let name = restores[i].metadata.name_any();
            let key = make_key("restore", namespace.as_str(), name.as_str());
            if !contains_text(inflight, key.as_str()) {
                inflight.push(key.clone());
                out.push(WorkItem { index: i, namespace, name, key });
                proof {
                    assert(inflight.deep_view() =~= flying.push(key@));
                    assert(item_indices(out@) =~= started.push(i as int));
                }
            }
        }
        i += 1;
    }
    out
}

/// Nothing that is in flight is started again.
pub proof fn law_poll_starts_nothing_twice(
    assigned: spec_fn(int) -> bool,
    keys: spec_fn(int) -> Seq<char>,
    n: nat,
    inflight: Seq<Seq<char>>,
    k: int,
)
    requires
        0 <= k < polled(assigned, keys, n, inflight).1.len(),
    ensures
        ({
            let started = polled(assigned, keys, n, inflight).1;
            &&& assigned(started[k])
            &&& !inflight.contains(keys(started[k]))
            &&& polled(assigned, keys, n, inflight).0.contains(keys(started[k]))
        }),
    decreases n,
{
    if n > 0 {
        let before = polled(assigned, keys, (n - 1) as nat, inflight);
        let after = polled(assigned, keys, n, inflight);
        lemma_inflight_grows(assigned, keys, (n - 1) as nat, inflight);
        if k < before.1.len() {
            law_poll_starts_nothing_twice(assigned, keys, (n - 1) as nat, inflight, k);
            let x = keys(before.1[k]);
            let j = choose|j: int| 0 <= j < before.0.len() && before.0[j] == x;
            assert(after.0[j] == x);
            assert(after.1[k] == before.1[k]);
        } else {
            assert(after.0[before.0.len() as int] == keys(n - 1));
        }
    }
}

proof fn lemma_inflight_grows(
    assigned: spec_fn(int) -> bool,
    keys: spec_fn(int) -> Seq<char>,
    n: nat,
    inflight: Seq<Seq<char>>,
)
    ensures
        forall|x: Seq<char>|
            inflight.contains(x) ==> #[trigger] polled(assigned, keys, n, inflight).0.contains(x),
    decreases n,
{
    if n > 0 {
        let before = polled(assigned, keys, (n - 1) as nat, inflight);
        let after = polled(assigned, keys, n, inflight);
        lemma_inflight_grows(assigned, keys, (n - 1) as nat, inflight);
        assert forall|x: Seq<char>| inflight.contains(x) implies #[trigger] after.0.contains(x) by {
            assert(before.0.contains(x));
            let j = choose|j: int| 0 <= j < before.0.len() && before.0[j] == x;
            assert(after.0[j] == x);
        }
    }
}

/// Whether `c` is an ASCII letter or digit.
pub open spec fn is_alphanumeric(c: char) -> bool {
    ('0' <= c <= '9') || ('a' <= c <= 'z') || ('A' <= c <= 'Z')
}

/// The text with every character but ASCII letters and digits replaced by a dash.
pub open spec fn sanitized(s: Seq<char>) -> Seq<char> {
    s.map_values(
        |c: char|
            if is_alphanumeric(c) {
                c
            } else {
                '-'
            },
    )
}

/// The text with every character but ASCII letters and digits replaced by a dash.
pub fn sanitize(name: &str) -> (res: String)
    ensures
        res@ == sanitized(name@),
{
    let chars = chars_of(name);
    let mut out = String::new();
    let mut i: usize = 0;
    while i < chars.len()
        invariant
            i <= chars@.len(),
            chars@ == name@,
            out@ == sanitized(name@.take(i as int)),
        decreases chars@.len() - i,
    {
        let c = chars[i];
        let ghost before = out@;
        if ('0' <= c && c <= '9') || ('a' <= c && c <= 'z') || ('A' <= c && c <= 'Z') {
            out.push(c);
        } else {
            out.push('-');
        }
        i += 1;
        assert(out@ =~= sanitized(name@.take(i as int)));
    }
    assert(name@.take(i as int) =~= name@);
    out
}

/// Sanitizing a sanitized name changes nothing.
pub proof fn law_sanitize_is_idempotent(s: Seq<char>)
    ensures
        sanitized(sanitized(s)) == sanitized(s),
{
    assert(sanitized(sanitized(s)) =~= sanitized(s));
}

/// `Uuid::new_v4` of `uuid` in its hyphenated form: 36 characters, of which the first eight are
/// lower-case hexadecimal digits. The value is random.
#[verifier::external_body]
fn random_uuid() -> (res: String)
    ensures
        res@.len() == 36,
        forall|i: int|
            0 <= i < 8 ==> ('0' <= #[trigger] res@[i] <= '9') || ('a' <= res@[i] <= 'f'),
{
    uuid::Uuid::new_v4().to_string()
}

/// The first eight characters of a random UUID.
pub fn uuid_short() -> (res: String)
    ensures
        res@.len() == 8,
        forall|i: int|
            0 <= i < 8 ==> ('0' <= #[trigger] res@[i] <= '9') || ('a' <= res@[i] <= 'f'),
{
    let full = random_uuid();
    let chars = chars_of(full.as_str());
    string_of(&chars, 0, 8)
}

/// A volume of a mover pod.
#[derive(Debug, PartialEq, Eq)]
pub struct MoverVolume {
    pub name: String,
    pub claim_name: String,
    pub read_only: bool,
}

/// Where a volume is mounted in a mover pod.
#[derive(Debug, PartialEq, Eq)]
pub struct MoverMount {
    pub name: String,
    pub mount_path: String,
    pub read_only: bool,
}

/// Where the volume claim is mounted in a mover pod.
pub open spec fn mount_path_of(pvc: Seq<char>) -> Seq<char> {
    VOLUME_ROOT@ + "/"@ + pvc
}

/// Where the volume claim is mounted in a mover pod.
pub fn mount_path(pvc: &str) -> (res: String)
    ensures
        res@ == mount_path_of(pvc@),
{
    String::from_str(VOLUME_ROOT).concat("/").concat(pvc)
}

/// Whether volume and mount are those of a claim.
pub open spec fn is_mount_of(
    volume: MoverVolume,
    mount: MoverMount,
    pvc: Seq<char>,
    read_only: bool,
) -> bool {
    &&& volume.name@ == "pvc-"@ + sanitized(pvc)
    &&& volume.claim_name@ == pvc
    &&& volume.read_only == read_only
    &&& mount.name@ == volume.name@
    &&& mount.mount_path@ == mount_path_of(pvc)
    &&& mount.read_only == read_only
}

/// The volumes and mounts of a mover pod, one of each for every claim, in order.
pub fn pvc_mounts(pvc_names: &Vec<String>, read_only: bool) -> (res: (
    Vec<MoverVolume>,
    Vec<MoverMount>,
))
    ensures
        res.0@.len() == pvc_names@.len(),
        res.1@.len() == pvc_names@.len(),
        forall|i: int|
            0 <= i < pvc_names@.len() ==> is_mount_of(
                #[trigger] res.0@[i],
                res.1@[i],
                pvc_names@[i]@,
                read_only,
            ),
{
    let mut volumes: Vec<MoverVolume> = Vec::new();
    let mut mounts: Vec<MoverMount> = Vec::new();
    let mut i: usize = 0;
    while i < pvc_names.len()
        invariant
            i <= pvc_names@.len(),
            volumes@.len() == i,
            mounts@.len() == i,
            forall|k: int|
                0 <= k < i ==> is_mount_of(
                    #[trigger] volumes@[k],
                    mounts@[k],
                    pvc_names@[k]@,
                    read_only,
                ),
        decreases pvc_names@.len() - i,
    {
        let pvc = &pvc_names[i];
        let vol_name = String::from_str("pvc-").concat(sanitize(pvc.as_str()).as_str());
        volumes.push(
            MoverVolume { name: vol_name.clone(), claim_name: pvc.clone(), read_only },
        );
        mounts.push(MoverMount { name: vol_name, mount_path: mount_path(pvc.as_str()), read_only });
        i += 1;
    }
    (volumes, mounts)
}

/// A pod that moves the volumes of a backup or restore.
pub struct MoverPod {
    pub name: String,
    pub namespace: String,
    /// Labels, in the order of their names.
    pub labels: Vec<(String, String)>,
    pub service_account_name: String,
    pub restart_policy: String,
    pub node_name: Option<String>,
    pub active_deadline_seconds: u64,
    pub container_name: String,
    pub image: String,
    pub image_pull_policy: String,
    pub args: Vec<String>,
    pub env: Vec<(String, String)>,
    pub volumes: Vec<MoverVolume>,
    pub mounts: Vec<MoverMount>,
    /// Whether the pod tolerates every taint.
    pub tolerates_all: bool,
}

/// The characters of a list of pairs.
pub open spec fn pairs(v: Seq<(String, String)>) -> Seq<(Seq<char>, Seq<char>)> {
    v.map_values(|p: (String, String)| (p.0@, p.1@))
}

/// The labels of a mover pod.
pub open spec fn mover_labels(purpose: Seq<char>, owner: Seq<char>, owner_ns: Seq<char>) -> Seq<
    (Seq<char>, Seq<char>),
> {
    seq![
        ("app.kubernetes.io/component"@, "mover"@),
        ("app.kubernetes.io/name"@, "proteus"@),
        (LABEL_OWNER@, owner),
        (LABEL_OWNER_NS@, owner_ns),
        (LABEL_PURPOSE@, purpose),
    ]
}

pub(crate) fn pair(a: &str, b: &str) -> (res: (String, String))
    ensures
        res.0@ == a@,
        res.1@ == b@,
{
    (a.to_owned(), b.to_owned())
}

/// Whether a pod is set up as movers are: run once, under their service account, with a deadline,
/// wherever it is put.
pub open spec fn is_mover(pod: MoverPod) -> bool {
    &&& pod.service_account_name@ == MOVER_SA@
    &&& pod.restart_policy@ == "Never"@
    &&& pod.active_deadline_seconds == MOVER_POD_TIMEOUT_SECS
    &&& pod.container_name@ == "mover"@
    &&& pod.image_pull_policy@ == "IfNotPresent"@
    &&& pairs(pod.env@) == seq![("RUST_LOG"@, "info,proteus_controller=debug"@)]
    &&& pod.tolerates_all
}

/// The pod that moves the volumes of a backup or restore on its node.
pub fn build_mover_pod(
    pod_name: &str,
    image: &str,
    namespace: &str,
    purpose: &str,
    owner_ns: &str,
    owner_name: &str,
    node_name: Option<String>,
    volumes: Vec<MoverVolume>,
    mounts: Vec<MoverMount>,
    args: Vec<String>,
) -> (res: MoverPod)
    ensures
        res.name@ == pod_name@,
        res.namespace@ == namespace@,
        pairs(res.labels@) == mover_labels(purpose@, owner_name@, owner_ns@),
        is_mover(res),
        res.node_name == node_name,
        res.image@ == image@,
        res.args == args,
        res.volumes == volumes,
        res.mounts == mounts,
{
    let mut labels: Vec<(String, String)> = Vec::new();
    labels.push(pair("app.kubernetes.io/component", "mover"));
    labels.push(pair("app.kubernetes.io/name", "proteus"));
    labels.push(pair(LABEL_OWNER, owner_name));
    labels.push(pair(LABEL_OWNER_NS, owner_ns));
    labels.push(pair(LABEL_PURPOSE, purpose));
    let mut env: Vec<(String, String)> = Vec::new();
    env.push(pair("RUST_LOG", "info,proteus_controller=debug"));
    assert(pairs(labels@) =~= mover_labels(purpose@, owner_name@, owner_ns@));
    assert(pairs(env@) =~= seq![("RUST_LOG"@, "info,proteus_controller=debug"@)]);
    MoverPod {
        name: pod_name.to_owned(),
        namespace: namespace.to_owned(),
        labels,
        service_account_name: MOVER_SA.to_owned(),
        restart_policy: String::from_str("Never"),
        node_name,
        active_deadline_seconds: MOVER_POD_TIMEOUT_SECS,
        container_name: String::from_str("mover"),
        image: image.to_owned(),
        image_pull_policy: String::from_str("IfNotPresent"),
        args,
        env,
        volumes,
        mounts,
        tolerates_all: true,
    }
}

/// The arguments of a mover.
pub open spec fn mover_args_of(kind: Seq<char>, namespace: Seq<char>, name: Seq<char>) -> Seq<
    Seq<char>,
> {
    seq!["mover"@, kind, "--namespace"@, namespace, "--name"@, name]
}

fn mover_args(kind: &str, namespace: &str, name: &str) -> (res: Vec<String>)
    ensures
        res.deep_view() == mover_args_of(kind@, namespace@, name@),
{
    let mut args: Vec<String> = Vec::new();
    args.push(String::from_str("mover"));
    args.push(kind.to_owned());
    args.push(String::from_str("--namespace"));
    args.push(namespace.to_owned());
    args.push(String::from_str("--name"));
    args.push(name.to_owned());
    assert(args.deep_view() =~= mover_args_of(kind@, namespace@, name@));
    args
}

/// Whether `pod` mounts the claims of a recipe, read-only or not.
pub open spec fn mounts_claims(pod: MoverPod, pvc_names: Seq<String>, read_only: bool) -> bool {
    &&& pod.volumes@.len() == pvc_names.len()
    &&& pod.mounts@.len() == pvc_names.len()
    &&& forall|i: int|
        0 <= i < pvc_names.len() ==> is_mount_of(
            #[trigger] pod.volumes@[i],
            pod.mounts@[i],
            pvc_names[i]@,
            read_only,
        )
}

/// The pod that moves a backup: the claims of the recipe, read-only, on the node it is assigned
/// to. `short` makes the pod's name unique.
pub fn run_backup_mover_pod(
    ns: &str,
    backup: &ProteusBackup,
    recipe: &BackupRecipe,
    image: &str,
    short: &str,
) -> (res: MoverPod)
    ensures
        res.name@ == "proteus-bmv-"@ + short@,
        res.namespace@ == recipe.target_namespace@,
        pairs(res.labels@) == mover_labels(
            PURPOSE_BACKUP_MOVER@,
            backup.metadata.any_name(),
            ns@,
        ),
        opt_view(res.node_name) == backup.status_view().assigned_node,
        res.image@ == image@,
        res.args.deep_view() == mover_args_of("backup"@, ns@, backup.metadata.any_name()),
        mounts_claims(res, recipe.pvc_names@, true),
        is_mover(res),
{
    let name = backup.metadata.name_any();
    let pod_name = String::from_str("proteus-bmv-").concat(short);
    let (volumes, mounts) = pvc_mounts(&recipe.pvc_names, true);
    let node_name = match &backup.status {
        Some(s) => copy_option(&s.assigned_node),
        None => None,
    };
    build_mover_pod(
        pod_name.as_str(),
        image,
        recipe.target_namespace.as_str(),
        PURPOSE_BACKUP_MOVER,
        ns,
        name.as_str(),
        node_name,
        volumes,
        mounts,
        mover_args("backup", ns, name.as_str()),
    )
}

/// The pod that moves a restore: the claims of the recipe, writable, in the target namespace, on
/// the node it is assigned to. `short` makes the pod's name unique.
pub fn run_restore_mover_pod(
    ns: &str,
    restore: &ProteusRestore,
    recipe: &BackupRecipe,
    image: &str,
    short: &str,
) -> (res: MoverPod)
    ensures
        res.name@ == "proteus-rmv-"@ + short@,
        res.namespace@ == restore.spec.target_namespace@,
        pairs(res.labels@) == mover_labels(
            PURPOSE_RESTORE_MOVER@,
            restore.metadata.any_name(),
            ns@,
        ),
        opt_view(res.node_name) == restore.status_view().assigned_node,
        res.image@ == image@,
        res.args.deep_view() == mover_args_of("restore"@, ns@, restore.metadata.any_name()),
        mounts_claims(res, recipe.pvc_names@, false),
        is_mover(res),
{
    let name = restore.metadata.name_any();
    let pod_name = String::from_str("proteus-rmv-").concat(short);
    let (volumes, mounts) = pvc_mounts(&recipe.pvc_names, false);
    let node_name = match &restore.status {
        Some(s) => copy_option(&s.assigned_node),
        None => None,
    };
    build_mover_pod(
        pod_name.as_str(),
        image,
        restore.spec.target_namespace.as_str(),
        PURPOSE_RESTORE_MOVER,
        ns,
        name.as_str(),
        node_name,
        volumes,
        mounts,
        mover_args("restore", ns, name.as_str()),
    )
}

/// The value of a label, or nothing.
pub open spec fn label_value(labels: Seq<(Seq<char>, Seq<char>)>, key: Seq<char>) -> Seq<char>
    decreases labels.len(),
{
    if labels.len() == 0 {
        seq![]
    } else if labels[0].0 == key {
        labels[0].1
    } else {
        label_value(labels.skip(1), key)
    }
}

fn find_label(labels: &Vec<(String, String)>, key: &str) -> (res: String)
    ensures
        res@ == label_value(pairs(labels@), key@),
{
    let ghost all = pairs(labels@);
    let mut i: usize = 0;
    assert(all.skip(0) =~= all);
    while i < labels.len()
        invariant
            i <= labels@.len(),
            all == pairs(labels@),
            label_value(all, key@) == label_value(all.skip(i as int), key@),
        decreases labels@.len() - i,
    {
        proof {
            assert(all.skip(i as int)[0] == (labels@[i as int].0@, labels@[i as int].1@));
            assert(all.skip(i as int).skip(1) =~= all.skip(i + 1));
        }
        if same_text(labels[i].0.as_str(), key) {
            return labels[i].1.clone();
        }
        i += 1;
    }
    String::new()
}

/// The label selector that finds the pods of the same purpose and owner; none where the labels
/// name no purpose or owner.
pub open spec fn selector_of(labels: Seq<(Seq<char>, Seq<char>)>) -> Option<Seq<char>> {
    let purpose = label_value(labels, LABEL_PURPOSE@);
    let owner = label_value(labels, LABEL_OWNER@);
    let owner_ns = label_value(labels, LABEL_OWNER_NS@);
    if purpose.len() == 0 || owner.len() == 0 {
        None
    } else {
        Some(
            LABEL_PURPOSE@ + "="@ + purpose + ","@ + LABEL_OWNER@ + "="@ + owner + ","@
                + LABEL_OWNER_NS@ + "="@ + owner_ns,
        )
    }
}

/// The label selector that finds the pods of the same purpose and owner.
pub fn mover_selector(labels: &Vec<(String, String)>) -> (res: Option<String>)
    ensures
        opt_view(res) == selector_of(pairs(labels@)),
{
    let purpose = find_label(labels, LABEL_PURPOSE);
    let owner = find_label(labels, LABEL_OWNER);
    let owner_ns = find_label(labels, LABEL_OWNER_NS);
    if purpose.as_str().is_empty() || owner.as_str().is_empty() {
        return None;
    }
    Some(
        String::from_str(LABEL_PURPOSE).concat("=").concat(purpose.as_str()).concat(",").concat(
            LABEL_OWNER,
        ).concat("=").concat(owner.as_str()).concat(",").concat(LABEL_OWNER_NS).concat("=").concat(
            owner_ns.as_str(),
        ),
    )
}

/// Whether a pod is pending or running.
pub open spec fn is_active(pod: PodInfo) -> bool {
    opt_view(pod.phase) == Some("Pending"@) || opt_view(pod.phase) == Some("Running"@)
}

/// The name of the first active pod that has one.
pub open spec fn active_name(pods: Seq<PodInfo>) -> Option<Seq<char>>
    decreases pods.len(),
{
    if pods.len() == 0 {
        None
    } else if is_active(pods[0]) && pods[0].name is Some {
        opt_view(pods[0].name)
    } else {
        active_name(pods.skip(1))
    }
}

/// The name of the first active pod that has one: a mover that is already there is waited for
/// instead of a second one being made.
pub fn existing_mover_name(pods: &Vec<PodInfo>) -> (res: Option<String>)
    ensures
        opt_view(res) == active_name(pods@),
{
    let mut i: usize = 0;
    assert(pods@.skip(0) =~= pods@);
    while i < pods.len()
        invariant
            i <= pods@.len(),
            active_name(pods@) == active_name(pods@.skip(i as int)),
        decreases pods@.len() - i,
    {
        proof {
            assert(pods@.skip(i as int)[0] == pods@[i as int]);
            assert(pods@.skip(i as int).skip(1) =~= pods@.skip(i + 1));
        }
        let active = match &pods[i].phase {
            Some(p) => same_text(p.as_str(), "Pending") || same_text(p.as_str(), "Running"),
            None => false,
        };
        if active && pods[i].name.is_some() {
            return copy_option(&pods[i].name);
        }
        i += 1;
    }
    None
}

/// What a wait for a mover pod does next.
pub enum WaitStep {
    /// Delete the pod; it is done.
    Succeeded,
    /// Delete the pod and fail.
    Failed { message: String },
    /// Look again after the given seconds.
    Sleep { secs: u64 },
}

/// What a wait for a mover pod does at its deadline.
pub fn mover_timed_out(pod_name: &str) -> (res: WaitStep)
    ensures
        res matches WaitStep::Failed { message } && message@ == "mover pod "@ + pod_name@
            + " timed out"@,
{
    WaitStep::Failed {
        message: String::from_str("mover pod ").concat(pod_name).concat(" timed out"),
    }
}

/// What a wait for a mover pod does for the phase it is in.
pub fn wait_mover(pod_name: &str, phase: &Option<String>) -> (res: WaitStep)
    ensures
        if opt_view(*phase) == Some("Succeeded"@) {
            res is Succeeded
        } else if opt_view(*phase) == Some("Failed"@) {
            res matches WaitStep::Failed { message } && message@ == "mover pod "@ + pod_name@
                + " failed"@
        } else {
            res matches WaitStep::Sleep { secs } && secs == 2
        },
{
    if let Some(p) = phase {
        if same_text(p.as_str(), "Succeeded") {
            return WaitStep::Succeeded;
        }
        if same_text(p.as_str(), "Failed") {
            return WaitStep::Failed {
                message: String::from_str("mover pod ").concat(pod_name).concat(" failed"),
            };
        }
    }
    WaitStep::Sleep { secs: 2 }
}

/// What is merged into the status of a backup whose mover failed.
pub fn fail_backup(message: String, at: Timestamp) -> (res: ProteusBackupStatus)
    requires
        at.valid(),
    ensures
        res.deep_view() == (BackupStatusView {
            phase: Some(BackupPhase::Failed),
            message: Some(message@),
            data_plane: Some(DataPlane::Agent),
            last_failure_at: Some(rfc3339_text(at.secs, at.nanos)),
            ..BackupStatusView::empty()
        }),
{
    ProteusBackupStatus {
        phase: Some(BackupPhase::Failed),
        message: Some(message),
        data_plane: Some(DataPlane::Agent),
        last_failure_at: Some(rfc3339(at)),
        ..ProteusBackupStatus::default()
    }
}

/// What is merged into the status of a restore whose mover failed.
pub fn fail_restore(message: String, at: Timestamp) -> (res: ProteusRestoreStatus)
    requires
        at.valid(),
    ensures
        res.deep_view() == (RestoreStatusView {
            phase: Some(RestorePhase::Failed),
            message: Some(message@),
            data_plane: Some(DataPlane::Agent),
            completed_at: Some(rfc3339_text(at.secs, at.nanos)),
            ..RestoreStatusView::empty()
        }),
{
    ProteusRestoreStatus {
        phase: Some(RestorePhase::Failed),
        message: Some(message),
        data_plane: Some(DataPlane::Agent),
        completed_at: Some(rfc3339(at)),
        ..ProteusRestoreStatus::default()
    }
}

/// The image that movers run where nothing else is known.
pub const DEFAULT_MOVER_IMAGE: &'static str = "ghcr.io/craftingtech/proteus-controller:main";

/// The image that movers run: the configured one, else the agent's own, else the default.
pub fn resolve_mover_image(configured: Option<String>, own: Option<String>) -> (res: String)
    ensures
        res@ == (match (configured, own) {
            (Some(c), _) if c@.len() > 0 => c@,
            (_, Some(o)) => o@,
            _ => DEFAULT_MOVER_IMAGE@,
        }),
{
    if let Some(c) = configured {
        if !c.as_str().is_empty() {
            return c;
        }
    }
    match own {
        Some(o) => o,
        None => DEFAULT_MOVER_IMAGE.to_owned(),
    }
}

/// Checks the settings that an agent starts with.
pub fn agent_node(node_name: String) -> (res: Result<String, String>)
    ensures
        match res {
            Ok(n) => n == node_name && node_name@.len() > 0,
            Err(m) => node_name@.len() == 0 && m@
                == "NODE_NAME is required for agent mode (DaemonSet downward API)"@,
        },
{
    if node_name.as_str().is_empty() {
        return Err(
            String::from_str("NODE_NAME is required for agent mode (DaemonSet downward API)"),
        );
    }
    Ok(node_name)
}

/// A backup is an agent's to move exactly where its status says that it runs on the agent plane, on
/// the agent's node, and has no snapshot yet.
pub proof fn law_agent_moves_the_backups_of_its_node(backup: ProteusBackup, node: Seq<char>)
    ensures
        backup_assigned(backup, node) <==> (backup.status matches Some(s) && s.data_plane == Some(
            DataPlane::Agent,
        ) && opt_view(s.assigned_node) == Some(node) && s.phase == Some(BackupPhase::Running)
            && s.last_snapshot_id is None),
{
}

/// A restore is an agent's to move exactly where its status says that it runs on the agent plane,
/// on the agent's node, and has not ended.
pub proof fn law_agent_moves_the_restores_of_its_node(restore: ProteusRestore, node: Seq<char>)
    ensures
        restore_assigned(restore, node) <==> (restore.status matches Some(s) && s.data_plane
            == Some(DataPlane::Agent) && opt_view(s.assigned_node) == Some(node) && s.phase == Some(
            RestorePhase::Running,
        ) && s.completed_at is None),
{
}

/// A poll leaves nothing out: whatever is assigned to the agent is in flight afterwards, and where
/// it was not in flight before, the poll started it.
pub proof fn law_poll_starts_all_that_is_assigned(
    assigned: spec_fn(int) -> bool,
    keys: spec_fn(int) -> Seq<char>,
    n: nat,
    inflight: Seq<Seq<char>>,
    i: int,
)
    requires
        0 <= i < n,
        assigned(i),
    ensures
        polled(assigned, keys, n, inflight).0.contains(keys(i)),
        !inflight.contains(keys(i)) ==> exists|k: int|
            0 <= k < polled(assigned, keys, n, inflight).1.len() && keys(
                #[trigger] polled(assigned, keys, n, inflight).1[k],
            ) == keys(i),
    decreases n,
{
    let m = (n - 1) as nat;
    let before = polled(assigned, keys, m, inflight);
    let after = polled(assigned, keys, n, inflight);
    law_poll_keeps_what_is_in_flight(assigned, keys, m, inflight);
    if i < m {
        law_poll_starts_all_that_is_assigned(assigned, keys, m, inflight, i);
        let j = choose|j: int| 0 <= j < before.0.len() && before.0[j] == keys(i);
        assert(after.0[j] == keys(i));
        if !inflight.contains(keys(i)) {
            let k = choose|k: int|
                0 <= k < before.1.len() && keys(#[trigger] before.1[k]) == keys(i);
            assert(after.1[k] == before.1[k]);
        }
    } else if before.0.contains(keys(i)) {
        if !inflight.contains(keys(i)) {
            let j = choose|j: int| 0 <= j < before.0.len() && before.0[j] == keys(i);
            let k = j - inflight.len();
            assert(before.0[j] == keys(before.1[k]));
            assert(after.1[k] == before.1[k]);
        }
    } else {
        assert(after.0[before.0.len() as int] == keys(i));
        assert(after.1[before.1.len() as int] == i);
    }
}

/// What is in flight after a poll is what was before, in order, and then what the poll started, in
/// the order of the list; nothing else was started, and each only once.
pub proof fn law_poll_keeps_what_is_in_flight(
    assigned: spec_fn(int) -> bool,
    keys: spec_fn(int) -> Seq<char>,
    n: nat,
    inflight: Seq<Seq<char>>,
)
    ensures
        ({
            let (flying, started) = polled(assigned, keys, n, inflight);
            &&& flying.len() == inflight.len() + started.len()
            &&& forall|j: int| 0 <= j < inflight.len() ==> #[trigger] flying[j] == inflight[j]
            &&& forall|j: int|
                inflight.len() <= j < flying.len() ==> #[trigger] flying[j] == keys(
                    started[j - inflight.len()],
                )
            &&& forall|k: int|
                0 <= k < started.len() ==> 0 <= #[trigger] started[k] < n && assigned(started[k])
            &&& forall|k: int, l: int|
                0 <= k < l < started.len() ==> #[trigger] started[k] < #[trigger] started[l]
                    && keys(started[k]) != keys(started[l])
        }),
    decreases n,
{
    if n > 0 {
        let before = polled(assigned, keys, (n - 1) as nat, inflight);
        law_poll_keeps_what_is_in_flight(assigned, keys, (n - 1) as nat, inflight);
        let i = n - 1;
        if assigned(i) && !before.0.contains(keys(i)) {
            let (flying, started) = polled(assigned, keys, n, inflight);
            assert forall|k: int, l: int| 0 <= k < l < started.len() implies #[trigger] started[k]
                < #[trigger] started[l] && keys(started[k]) != keys(started[l]) by {
                if l == started.len() - 1 {
                    assert(before.0[inflight.len() + k] == keys(before.1[k]));
                }
            }
        }
    }
}

/// The poll of a list of backups starts every one that is assigned to the node and not in flight,
/// whatever else the list holds.
pub proof fn law_backup_poll_is_complete(
    backups: Seq<ProteusBackup>,
    node: Seq<char>,
    inflight: Seq<Seq<char>>,
    i: int,
)
    requires
        0 <= i < backups.len(),
        backups[i].status matches Some(s) && s.data_plane == Some(DataPlane::Agent) && opt_view(
            s.assigned_node,
        ) == Some(node) && s.phase == Some(BackupPhase::Running) && s.last_snapshot_id is None,
    ensures
        ({
            let (flying, started) = polled(
                |i: int| backup_assigned(backups[i], node),
                |i: int| backup_key(backups[i]),
                backups.len(),
                inflight,
            );
            &&& flying.contains(backup_key(backups[i]))
            &&& !inflight.contains(backup_key(backups[i])) ==> exists|k: int|
                0 <= k < started.len() && backup_key(backups[#[trigger] started[k]]) == backup_key(
                    backups[i],
                )
        }),
{
    let assigned = |i: int| backup_assigned(backups[i], node);
    let keys = |i: int| backup_key(backups[i]);
    assert(assigned(i));
    law_poll_starts_all_that_is_assigned(assigned, keys, backups.len(), inflight, i);
    if !inflight.contains(keys(i)) {
        let started = polled(assigned, keys, backups.len(), inflight).1;
        let k = choose|k: int| 0 <= k < started.len() && keys(#[trigger] started[k]) == keys(i);
        assert(backup_key(backups[started[k]]) == backup_key(backups[i]));
    }
}

/// The poll of a list of restores starts every one that is assigned to the node and not in flight,
/// whatever else the list holds.
pub proof fn law_restore_poll_is_complete(
    restores: Seq<ProteusRestore>,
    node: Seq<char>,
    inflight: Seq<Seq<char>>,
    i: int,
)
    requires
        0 <= i < restores.len(),
        restores[i].status matches Some(s) && s.data_plane == Some(DataPlane::Agent) && opt_view(
            s.assigned_node,
        ) == Some(node) && s.phase == Some(RestorePhase::Running) && s.completed_at is None,
    ensures
        ({
            let (flying, started) = polled(
                |i: int| restore_assigned(restores[i], node),
                |i: int| restore_key(restores[i]),
                restores.len(),
                inflight,
            );
            &&& flying.contains(restore_key(restores[i]))
            &&& !inflight.contains(restore_key(restores[i])) ==> exists|k: int|
                0 <= k < started.len() && restore_key(restores[#[trigger] started[k]])
                    == restore_key(restores[i])
        }),
{
    let assigned = |i: int| restore_assigned(restores[i], node);
    let keys = |i: int| restore_key(restores[i]);
    assert(assigned(i));
    law_poll_starts_all_that_is_assigned(assigned, keys, restores.len(), inflight, i);
    if !inflight.contains(keys(i)) {
        let started = polled(assigned, keys, restores.len(), inflight).1;
        let k = choose|k: int| 0 <= k < started.len() && keys(#[trigger] started[k]) == keys(i);
        assert(restore_key(restores[started[k]]) == restore_key(restores[i]));
    }
}

/// The keys of work tell it apart: by its kind, and within a kind by namespace and name, since a
/// namespace holds no slash.
pub proof fn law_keys_tell_work_apart(
    kind: Seq<char>,
    ns: Seq<char>,
    name: Seq<char>,
    other_ns: Seq<char>,
    other_name: Seq<char>,
)
    requires
        forall|i: int| 0 <= i < ns.len() ==> #[trigger] ns[i] != '/',
        forall|i: int| 0 <= i < other_ns.len() ==> #[trigger] other_ns[i] != '/',
        work_key(kind, ns, name) == work_key(kind, other_ns, other_name),
    ensures
        ns == other_ns,
        name == other_name,
{
    reveal_strlit(":");
    reveal_strlit("/");
    let k = work_key(kind, ns, name);
    let from = kind.len() + 1;
    let n = ns.len() as int;
    let m = other_ns.len() as int;
    assert(k[from + n] == '/');
    assert(k[from + m] == '/');
    if n < m {
        assert(k[from + n] == other_ns[n]);
    } else if m < n {
        assert(k[from + m] == ns[m]);
    }
    assert(ns =~= k.subrange(from as int, from + n));
    assert(other_ns =~= k.subrange(from as int, from + n));
    assert(name =~= k.skip(from + n + 1));
    assert(other_name =~= k.skip(from + n + 1));
}

/// A backup and a restore never hold each other's place in flight.
pub proof fn law_backups_and_restores_are_told_apart(
    backup: ProteusBackup,
    restore: ProteusRestore,
)
    ensures
        backup_key(backup) != restore_key(restore),
        ("backup:"@).is_prefix_of(backup_key(backup)),
        ("restore:"@).is_prefix_of(restore_key(restore)),
{
    reveal_strlit("backup");
    reveal_strlit("restore");
    reveal_strlit("backup:");
    reveal_strlit("restore:");
    reveal_strlit(":");
    assert(backup_key(backup).subrange(0, 7) =~= "backup:"@);
    assert(restore_key(restore).subrange(0, 8) =~= "restore:"@);
    assert(backup_key(backup)[0] == 'b');
    assert(restore_key(restore)[0] == 'r');
}

/// Sanitizing keeps letters and digits where they are, and leaves nothing else but dashes.
pub proof fn law_sanitize_keeps_letters_and_digits(s: Seq<char>, i: int)
    requires
        0 <= i < s.len(),
    ensures
        sanitized(s).len() == s.len(),
        ('0' <= s[i] <= '9') || ('a' <= s[i] <= 'z') || ('A' <= s[i] <= 'Z') ==> sanitized(s)[i]
            == s[i],
        !(('0' <= s[i] <= '9') || ('a' <= s[i] <= 'z') || ('A' <= s[i] <= 'Z')) ==> sanitized(s)[i]
            == '-',
{
}

/// A mover pod mounts every claim, each at its own path, and writes to none where it is to read.
pub proof fn law_mover_mounts_every_claim(
    pod: MoverPod,
    pvc_names: Seq<String>,
    read_only: bool,
    i: int,
)
    requires
        mounts_claims(pod, pvc_names, read_only),
        0 <= i < pvc_names.len(),
    ensures
        pod.volumes@.len() == pvc_names.len(),
        pod.mounts@.len() == pvc_names.len(),
        pod.volumes@[i].claim_name@ == pvc_names[i]@,
        pod.volumes@[i].name@ == "pvc-"@ + sanitized(pvc_names[i]@),
        pod.mounts@[i].name@ == pod.volumes@[i].name@,
        pod.mounts@[i].mount_path@ == "/volumes/"@ + pvc_names[i]@,
        pod.volumes@[i].read_only == read_only,
        pod.mounts@[i].read_only == read_only,
{
    assert(is_mount_of(pod.volumes@[i], pod.mounts@[i], pvc_names[i]@, read_only));
    reveal_strlit("/volumes/");
    reveal_strlit("/volumes");
    reveal_strlit("/");
    assert("/volumes/"@ =~= "/volumes"@ + "/"@);
}

/// Two claims are never mounted at the same path.
pub proof fn law_mount_paths_are_distinct(one: Seq<char>, other: Seq<char>)
    requires
        mount_path_of(one) == mount_path_of(other),
    ensures
        one == other,
{
    let root = VOLUME_ROOT@ + "/"@;
    assert(mount_path_of(one).skip(root.len() as int) =~= one);
    assert(mount_path_of(other).skip(root.len() as int) =~= other);
}

/// A mover pod runs once, under the movers' account, and not for ever, on a node with whatever
/// taints.
pub proof fn law_mover_runs_once(pod: MoverPod)
    requires
        is_mover(pod),
    ensures
        pod.service_account_name@ == "proteus-mover"@,
        pod.restart_policy@ == "Never"@,
        pod.active_deadline_seconds == 6 * 3600,
        pod.tolerates_all,
        pod.container_name@ == "mover"@,
        pod.image_pull_policy@ == "IfNotPresent"@,
        pairs(pod.env@).len() == 1,
{
}

proof fn lemma_label_value(labels: Seq<(Seq<char>, Seq<char>)>, key: Seq<char>, i: int)
    requires
        0 <= i < labels.len(),
        labels[i].0 == key,
        forall|j: int| 0 <= j < i ==> (#[trigger] labels[j]).0 != key,
    ensures
        label_value(labels, key) == labels[i].1,
    decreases i,
{
    if i > 0 {
        assert(labels[0].0 != key);
        let rest = labels.skip(1);
        assert forall|j: int| 0 <= j < i - 1 implies (#[trigger] rest[j]).0 != key by {
            assert(rest[j] == labels[j + 1]);
        }
        lemma_label_value(rest, key, i - 1);
    }
}

/// The pods of a mover are found again by its purpose and its owner.
pub proof fn law_mover_is_found_by_its_owner(
    purpose: Seq<char>,
    owner: Seq<char>,
    owner_ns: Seq<char>,
)
    requires
        purpose.len() > 0,
        owner.len() > 0,
    ensures
        selector_of(mover_labels(purpose, owner, owner_ns)) == Some(
            "proteus.io/purpose="@ + purpose + ",proteus.io/owner="@ + owner
                + ",proteus.io/owner-namespace="@ + owner_ns,
        ),
{
    let labels = mover_labels(purpose, owner, owner_ns);
    reveal_strlit("app.kubernetes.io/component");
    reveal_strlit("app.kubernetes.io/name");
    reveal_strlit("proteus.io/owner");
    reveal_strlit("proteus.io/owner-namespace");
    reveal_strlit("proteus.io/purpose");
    reveal_strlit("=");
    reveal_strlit(",");
    reveal_strlit("proteus.io/purpose=");
    reveal_strlit(",proteus.io/owner=");
    reveal_strlit(",proteus.io/owner-namespace=");
    assert(LABEL_OWNER@[0] == 'p');
    assert(LABEL_PURPOSE@[0] == 'p');
    assert(LABEL_OWNER_NS@[0] == 'p');
    assert("app.kubernetes.io/component"@[0] == 'a');
    assert("app.kubernetes.io/name"@[0] == 'a');
    assert(LABEL_OWNER@.len() != LABEL_OWNER_NS@.len());
    assert(LABEL_PURPOSE@.len() != LABEL_OWNER_NS@.len());
    assert(LABEL_PURPOSE@.len() != LABEL_OWNER@.len());
    lemma_label_value(labels, LABEL_OWNER@, 2);
    lemma_label_value(labels, LABEL_OWNER_NS@, 3);
    lemma_label_value(labels, LABEL_PURPOSE@, 4);
    assert(LABEL_PURPOSE@ + "="@ + purpose + ","@ + LABEL_OWNER@ + "="@ + owner + ","@
        + LABEL_OWNER_NS@ + "="@ + owner_ns =~= "proteus.io/purpose="@ + purpose
        + ",proteus.io/owner="@ + owner + ",proteus.io/owner-namespace="@ + owner_ns);
}

/// A mover that is there is found: where a pod is pending or running and named, the name found is
/// that of the first such pod; else none is found.
pub proof fn law_running_mover_is_found(pods: Seq<PodInfo>)
    ensures
        match active_name(pods) {
            Some(name) => exists|i: int|
                0 <= i < pods.len() && (opt_view((#[trigger] pods[i]).phase) == Some("Pending"@)
                    || opt_view(pods[i].phase) == Some("Running"@)) && opt_view(pods[i].name)
                    == Some(name) && forall|j: int|
                    0 <= j < i ==> (#[trigger] pods[j]).name is None || (opt_view(pods[j].phase)
                        != Some("Pending"@) && opt_view(pods[j].phase) != Some("Running"@)),
            None => forall|j: int|
                0 <= j < pods.len() ==> (#[trigger] pods[j]).name is None || (opt_view(
                    pods[j].phase,
                ) != Some("Pending"@) && opt_view(pods[j].phase) != Some("Running"@)),
        },
    decreases pods.len(),
{
    if pods.len() > 0 {
        if is_active(pods[0]) && pods[0].name is Some {
            assert(opt_view(pods[0].name) == active_name(pods));
        } else {
            let rest = pods.skip(1);
            law_running_mover_is_found(rest);
            if let Some(name) = active_name(pods) {
                let i = choose|i: int|
                    0 <= i < rest.len() && (opt_view((#[trigger] rest[i]).phase) == Some(
                        "Pending"@,
                    ) || opt_view(rest[i].phase) == Some("Running"@)) && opt_view(rest[i].name)
                        == Some(name) && forall|j: int|
                        0 <= j < i ==> (#[trigger] rest[j]).name is None || (opt_view(rest[j].phase)
                            != Some("Pending"@) && opt_view(rest[j].phase) != Some("Running"@));
                assert(pods[i + 1] == rest[i]);
                assert forall|j: int| 0 <= j < i + 1 implies (#[trigger] pods[j]).name is None || (
                opt_view(pods[j].phase) != Some("Pending"@) && opt_view(pods[j].phase) != Some(
                    "Running"@,
                )) by {
                    if j > 0 {
                        assert(rest[j - 1] == pods[j]);
                    }
                }
            } else {
                assert forall|j: int| 0 <= j < pods.len() implies (#[trigger] pods[j]).name is None
                    || (opt_view(pods[j].phase) != Some("Pending"@) && opt_view(pods[j].phase)
                    != Some("Running"@)) by {
                    if j > 0 {
                        assert(rest[j - 1] == pods[j]);
                    }
                }
            }
        }
    }
}

} // verus!
