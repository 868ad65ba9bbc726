//! The mover: a short-lived pod with the volumes mounted that ingests or extracts them on the
//! node.
use crate::agent_work::{mount_path, mount_path_of, mover_args_of};
use crate::clock::{rfc3339, rfc3339_text, Timestamp};
use crate::crd::{
    BackupPhase, BackupStatusView, DataPlane, ProteusBackup, ProteusBackupStatus, ProteusRestore,
    ProteusRestoreStatus, RestorePhase, RestoreStatusView,
};
use crate::data_plane::{debug_text, str_debug};
use crate::error::CoreResult;
use crate::restore_run::{
    choose_snapshot, show_phase, shown_phase, snapshot_choice, RestorePlan,
};
use crate::snapshot::{
    assemble_manifest, manifest_of, volumes_total, SnapshotManifest, VolumeSnapshot,
};
use crate::text::{copy_option, decimal, decimal_text, opt_view, same_text};
use crate::timing::{compute_throughput, run_seconds, timing};
use vstd::prelude::*;

verus! {

/// What a mover moves.
#[derive(Debug, Clone, Copy, PartialEq, Eq, Structural)]
pub enum MoverKind {
    Backup,
    Restore,
}

/// What a mover is asked to do.
#[derive(Debug, PartialEq, Eq)]
pub struct MoverCommand {
    pub kind: MoverKind,
    pub namespace: String,
    pub name: String,
}

/// How a mover is called.
pub open spec fn usage_text() -> Seq<char> {
    "usage: proteus-controller mover <backup|restore> --namespace <ns> --name <name>"@
}

/// The namespace and name that flags give; a flag that is repeated counts the last time, one
/// without a value counts as not given.
pub open spec fn read_flags(
    args: Seq<Seq<char>>,
    namespace: Option<Seq<char>>,
    name: Option<Seq<char>>,
) -> Result<(Option<Seq<char>>, Option<Seq<char>>), Seq<char>>
    decreases args.len(),
{
    if args.len() == 0 {
        Ok((namespace, name))
    } else {
        let value = if args.len() > 1 {
            Some(args[1])
        } else {
            None
        };
        let rest = if args.len() > 1 {
            args.skip(2)
        } else {
            seq![]
        };
        if args[0] == "--namespace"@ || args[0] == "-n"@ {
            read_flags(rest, value, name)
        } else if args[0] == "--name"@ {
            read_flags(rest, namespace, value)
        } else {
            Err("unknown mover flag "@ + args[0])
        }
    }
}

/// What a mover is asked to do: kind, namespace and name, or why the arguments do not say.
pub open spec fn read_command(args: Seq<Seq<char>>) -> Result<
    (MoverKind, Seq<char>, Seq<char>),
    Seq<char>,
> {
    if args.len() == 0 {
        Err(usage_text())
    } else {
        match read_flags(args.skip(1), None, None) {
            Err(m) => Err(m),
            Ok((None, _)) => Err("--namespace is required"@),
            Ok((Some(_), None)) => Err("--name is required"@),
            Ok((Some(ns), Some(n))) => if args[0] == "backup"@ {
                Ok((MoverKind::Backup, ns, n))
            } else if args[0] == "restore"@ {
                Ok((MoverKind::Restore, ns, n))
            } else {
                Err("unknown mover kind "@ + str_debug(args[0]) + "; expected backup or restore"@)
            },
        }
    }
}

/// Reads the arguments of a mover.
pub fn parse_mover_args(args: &Vec<String>) -> (res: Result<MoverCommand, String>)
    ensures
        match res {
            Ok(c) => read_command(args.deep_view()) == Ok::<
                (MoverKind, Seq<char>, Seq<char>),
                Seq<char>,
            >((c.kind, c.namespace@, c.name@)),
            Err(m) => read_command(args.deep_view()) == Err::<
                (MoverKind, Seq<char>, Seq<char>),
                Seq<char>,
            >(m@),
        },
{
    if args.len() == 0 {
        return Err(
            String::from_str(
                "usage: proteus-controller mover <backup|restore> --namespace <ns> --name <name>",
            ),
        );
    }
    let ghost all = args.deep_view();
    let mut namespace: Option<String> = None;
    let mut name: Option<String> = None;
    let mut i: usize = 1;
    while i < args.len()
        invariant
            1 <= i <= args@.len(),
            all == args.deep_view(),
            read_flags(all.skip(1), None, None) == read_flags(
                all.skip(i as int),
                opt_view(namespace),
                opt_view(name),
            ),
        decreases args@.len() - i,
    {
        let ghost rest = all.skip(i as int);
        let flag = args[i].as_str();
        let value: Option<String> = if args.len() - i > 1 {
            Some(args[i + 1].clone())
        } else {
            None
        };
        let next: usize = if args.len() - i > 1 {
            i + 2
        } else {
            args.len()
        };
        proof {
            assert(rest[0] == flag@);
            if args@.len() - i > 1 {
                assert(rest[1] == args@[i + 1]@);
                assert(rest.skip(2) =~= all.skip(next as int));
            } else {
                assert(all.skip(next as int) =~= seq![]);
            }
        }
        if same_text(flag, "--namespace") || same_text(flag, "-n") {
            namespace = value;
        } else if same_text(flag, "--name") {
            name = value;
        } else {
            return Err(String::from_str("unknown mover flag ").concat(flag));
        }
        i = next;
    }
    assert(all.skip(i as int) =~= seq![]);
    let namespace = match namespace {
        Some(ns) => ns,
        None => {
            return Err(String::from_str("--namespace is required"));
        },
    };
    let name = match name {
        Some(n) => n,
        None => {
            return Err(String::from_str("--name is required"));
        },
    };
    let kind = args[0].as_str();
    assert(kind@ == all[0]);
    if same_text(kind, "backup") {
        Ok(MoverCommand { kind: MoverKind::Backup, namespace, name })
    } else if same_text(kind, "restore") {
        Ok(MoverCommand { kind: MoverKind::Restore, namespace, name })
    } else {
        Err(
            String::from_str("unknown mover kind ").concat(debug_text(kind).as_str()).concat(
                "; expected backup or restore",
            ),
        )
    }
}

/// When a move started: what the status records, else now.
pub open spec fn started_or(started_at: Option<Seq<char>>, now_text: Seq<char>) -> Seq<char> {
    match started_at {
        Some(s) => s,
        None => now_text,
    }
}

/// When the move of a backup started: what the status records, else `at`.
pub fn backup_started_at(backup: &ProteusBackup, at: Timestamp) -> (res: String)
    requires
        at.valid(),
    ensures
        res@ == started_or(backup.status_view().started_at, rfc3339_text(at.secs, at.nanos)),
{
    if let Some(s) = &backup.status {
        if let Some(t) = &s.started_at {
            return t.clone();
        }
    }
    rfc3339(at)
}

/// When the move of a restore started: what the status records, else `at`.
pub fn restore_started_at(restore: &ProteusRestore, at: Timestamp) -> (res: String)
    requires
        at.valid(),
    ensures
        res@ == started_or(restore.status_view().started_at, rfc3339_text(at.secs, at.nanos)),
{
    if let Some(s) = &restore.status {
        if let Some(t) = &s.started_at {
            return t.clone();
        }
    }
    rfc3339(at)
}

/// The status of a backup while its mover reports a message.
pub fn backup_message_status(backup: &ProteusBackup, message: String, progress: u8) -> (res:
    ProteusBackupStatus)
    ensures
        res.deep_view() == (BackupStatusView {
            phase: Some(BackupPhase::Running),
            message: Some(message@),
            progress_percent: Some(progress),
            data_plane: Some(DataPlane::Agent),
            ..backup.status_view()
        }),
{
    let base = match &backup.status {
        Some(s) => ProteusBackupStatus {
            last_snapshot_id: copy_option(&s.last_snapshot_id),
            last_success_at: copy_option(&s.last_success_at),
            last_failure_at: copy_option(&s.last_failure_at),
            last_bytes: s.last_bytes,
            retained_snapshots: s.retained_snapshots,
            started_at: copy_option(&s.started_at),
            duration_seconds: s.duration_seconds,
            throughput_bytes_per_sec: s.throughput_bytes_per_sec,
            assigned_node: copy_option(&s.assigned_node),
            ..ProteusBackupStatus::default()
        },
        None => ProteusBackupStatus::default(),
    };
    ProteusBackupStatus {
        phase: Some(BackupPhase::Running),
        message: Some(message),
        progress_percent: Some(progress),
        data_plane: Some(DataPlane::Agent),
        ..base
    }
}

/// The status of a backup that a mover finished.
pub open spec fn moved_backup_view(
    assigned_node: Option<Seq<char>>,
    started_at: Seq<char>,
    snapshot_id: Seq<char>,
    total_bytes: u64,
    t: (Option<u64>, Option<u64>),
    finished_text: Seq<char>,
) -> BackupStatusView {
    BackupStatusView {
        phase: Some(BackupPhase::Succeeded),
        message: Some(
            "backup succeeded via agent mover ("@ + decimal(total_bytes as nat) + " bytes)"@,
        ),
        last_snapshot_id: Some(snapshot_id),
        last_success_at: Some(finished_text),
        last_bytes: Some(total_bytes),
        progress_percent: Some(100),
        started_at: Some(started_at),
        duration_seconds: t.0,
        throughput_bytes_per_sec: t.1,
        data_plane: Some(DataPlane::Agent),
        assigned_node,
        ..BackupStatusView::empty()
    }
}

/// The status of a backup that a mover finished at `finished`.
pub fn moved_backup_status(
    backup: &ProteusBackup,
    started_at: String,
    snapshot_id: String,
    total_bytes: u64,
    finished: Timestamp,
) -> (res: ProteusBackupStatus)
    requires
        finished.valid(),
    ensures
        res.deep_view() == moved_backup_view(
            backup.status_view().assigned_node,
            started_at@,
            snapshot_id@,
            total_bytes,
            timing(run_seconds(Some(started_at@), finished), total_bytes),
            rfc3339_text(finished.secs, finished.nanos),
        ),
{
    let t = compute_throughput(Some(started_at.as_str()), total_bytes, finished);
    let assigned_node = match &backup.status {
        Some(s) => copy_option(&s.assigned_node),
        None => None,
    };
    ProteusBackupStatus {
        phase: Some(BackupPhase::Succeeded),
        message: Some(
            String::from_str("backup succeeded via agent mover (").concat(
                decimal_text(total_bytes).as_str(),
            ).concat(" bytes)"),
        ),
        last_snapshot_id: Some(snapshot_id),
        last_success_at: Some(rfc3339(finished)),
        last_bytes: Some(total_bytes),
        progress_percent: Some(100),
        started_at: Some(started_at),
        duration_seconds: t.0,
        throughput_bytes_per_sec: t.1,
        data_plane: Some(DataPlane::Agent),
        assigned_node,
        ..ProteusBackupStatus::default()
    }
}

/// The status of a restore that a mover finished.
pub open spec fn moved_restore_view(
    assigned_node: Option<Seq<char>>,
    started_at: Seq<char>,
    snapshot_id: Seq<char>,
    total_bytes: u64,
    t: (Option<u64>, Option<u64>),
    finished_text: Seq<char>,
) -> RestoreStatusView {
    RestoreStatusView {
        phase: Some(RestorePhase::Succeeded),
        message: Some("restore succeeded via agent mover from snapshot "@ + snapshot_id),
        restored_snapshot_id: Some(snapshot_id),
        progress_percent: Some(100),
        completed_at: Some(finished_text),
        started_at: Some(started_at),
        last_bytes: Some(total_bytes),
        duration_seconds: t.0,
        throughput_bytes_per_sec: t.1,
        data_plane: Some(DataPlane::Agent),
        assigned_node,
    }
}

/// The status of a restore that a mover finished at `finished`.
pub fn moved_restore_status(
    restore: &ProteusRestore,
    started_at: String,
    snapshot_id: String,
    total_bytes: u64,
    finished: Timestamp,
) -> (res: ProteusRestoreStatus)
    requires
        finished.valid(),
    ensures
        res.deep_view() == moved_restore_view(
            restore.status_view().assigned_node,
            started_at@,
            snapshot_id@,
            total_bytes,
            timing(run_seconds(Some(started_at@), finished), total_bytes),
            rfc3339_text(finished.secs, finished.nanos),
        ),
{
    let t = compute_throughput(Some(started_at.as_str()), total_bytes, finished);
    let assigned_node = match &restore.status {
        Some(s) => copy_option(&s.assigned_node),
        None => None,
    };
    ProteusRestoreStatus {
        phase: Some(RestorePhase::Succeeded),
        message: Some(
            String::from_str("restore succeeded via agent mover from snapshot ").concat(
                snapshot_id.as_str(),
            ),
        ),
        restored_snapshot_id: Some(snapshot_id),
        progress_percent: Some(100),
        completed_at: Some(rfc3339(finished)),
        started_at: Some(started_at),
        last_bytes: Some(total_bytes),
        duration_seconds: t.0,
        throughput_bytes_per_sec: t.1,
        data_plane: Some(DataPlane::Agent),
        assigned_node,
    }
}

/// How `tar` ended.
pub struct TarExit {
    pub success: bool,
    /// The exit status as it is shown.
    pub status: String,
    /// What it wrote to its error stream.
    pub stderr: String,
}

/// What a backup mover waits for.
#[derive(Debug, Clone, Copy, PartialEq, Eq, Structural)]
pub enum BackupMoverPhase {
    Begin,
    Mount,
    Report,
    Ingest,
    Exit,
    Seal,
    Over,
}

/// What happened to a backup mover.
pub enum BackupMoverEvent {
    /// The repository was opened.
    Begin { encrypted: bool },
    /// The mount of the current volume was looked at.
    Mount { is_dir: bool },
    /// The message was reported.
    Reported,
    /// The stream of the current volume was ingested, or could not be.
    Ingested(CoreResult<VolumeSnapshot>),
    /// `tar` ended.
    Exited(TarExit),
    /// The manifest was stored under this id, or could not be.
    Sealed(CoreResult<String>),
}

/// What a backup mover does next.
pub enum BackupMoverAction {
    CheckMount { path: String },
    Report { message: String, progress: u8 },
    Ingest { pvc_name: String, path: String },
    WaitTar,
    SealManifest(SnapshotManifest),
    Finish { snapshot_id: String, total_bytes: u64 },
    Fail { message: String },
}

/// A mover that ingests the given volume claims.
pub struct BackupMover {
    pub pvc_names: Vec<String>,
    pub phase: BackupMoverPhase,
    pub index: usize,
    pub encrypted: bool,
    pub volumes: Vec<VolumeSnapshot>,
    pub total_bytes: u64,
    /// The volume whose `tar` has not ended yet.
    pub pending: Option<VolumeSnapshot>,
}

/// Whether `volumes` are named as the first of `pvc_names`, in order.
pub open spec fn names_claims(volumes: Seq<VolumeSnapshot>, pvc_names: Seq<String>) -> bool {
    &&& volumes.len() <= pvc_names.len()
    &&& forall|i: int|
        0 <= i < volumes.len() ==> (#[trigger] volumes[i]).pvc_name@ == pvc_names[i]@
}

impl BackupMover {
    /// The volumes ingested so far are those of the claims up to the position, in order, and their
    /// sizes add up; a volume whose `tar` runs is that of the claim at the position.
    pub open spec fn wf(&self) -> bool {
        let n = self.pvc_names@.len();
        &&& self.index <= n
        &&& self.phase is Mount || self.phase is Report || self.phase is Ingest
            || self.phase is Exit ==> self.index < n
        &&& (self.phase is Exit <==> self.pending is Some)
        &&& self.phase !is Over && self.phase !is Seal ==> {
            &&& self.volumes@.len() == self.index
            &&& self.total_bytes == volumes_total(self.volumes.deep_view())
            &&& names_claims(self.volumes@, self.pvc_names@)
        }
        &&& self.pending matches Some(v) ==> self.total_bytes + v.bytes <= u64::MAX && v.pvc_name@
            == self.pvc_names@[self.index as int]@
    }

    /// A mover that has not begun.
    pub fn new(pvc_names: Vec<String>) -> (res: Self)
        ensures
            res.wf(),
            res.pvc_names == pvc_names,
            res.phase is Begin,
            res.index == 0,
            res.volumes@.len() == 0,
    {
        BackupMover {
            pvc_names,
            phase: BackupMoverPhase::Begin,
            index: 0,
            encrypted: false,
            volumes: Vec::new(),
            total_bytes: 0,
            pending: None,
        }
    }
}

/// Whether the event is one that a mover in this phase waits for.
pub open spec fn backup_awaits(phase: BackupMoverPhase, event: BackupMoverEvent) -> bool {
    match event {
        BackupMoverEvent::Begin { .. } => phase is Begin,
        BackupMoverEvent::Mount { .. } => phase is Mount,
        BackupMoverEvent::Reported => phase is Report,
        BackupMoverEvent::Ingested(_) => phase is Ingest,
        BackupMoverEvent::Exited(_) => phase is Exit,
        BackupMoverEvent::Sealed(_) => phase is Seal,
    }
}

/// Whether `action` goes on with the volume at the mover's position, or seals `volumes` after the
/// last one.
pub open spec fn backup_goes_on(
    after: BackupMover,
    volumes: Seq<VolumeSnapshot>,
    at: Timestamp,
    action: BackupMoverAction,
) -> bool {
    if after.index < after.pvc_names@.len() {
        &&& after.phase is Mount
        &&& after.volumes@ == volumes
        &&& action matches BackupMoverAction::CheckMount { path }
        &&& path@ == mount_path_of(after.pvc_names@[after.index as int]@)
    } else {
        &&& after.phase is Seal
        &&& action matches BackupMoverAction::SealManifest(m)
        &&& m.deep_view() == manifest_of(
            rfc3339_text(at.secs, at.nanos),
            after.encrypted,
            volumes.map_values(|v: VolumeSnapshot| v.deep_view()),
        )
    }
}

/// Whether a mover goes from `before` to `after` by `action`, for the event, at the time `at`.
pub open spec fn backup_moves(
    before: BackupMover,
    event: BackupMoverEvent,
    at: Timestamp,
    after: BackupMover,
    action: BackupMoverAction,
) -> bool {
    let pvc = before.pvc_names@[before.index as int]@;
    &&& after.pvc_names == before.pvc_names
    &&& match event {
        BackupMoverEvent::Begin { encrypted } => {
            &&& after.encrypted == encrypted
            &&& after.index == before.index
            &&& after.total_bytes == before.total_bytes
            &&& backup_goes_on(after, before.volumes@, at, action)
        },
        BackupMoverEvent::Mount { is_dir } => if is_dir {
            &&& after == (BackupMover { phase: BackupMoverPhase::Report, ..before })
            &&& action matches BackupMoverAction::Report { message, progress }
            &&& message@ == "agent mover: streaming PVC '"@ + pvc + "'"@
            &&& progress == 20
        } else {
            &&& after.phase is Over
            &&& action matches BackupMoverAction::Fail { message }
            &&& message@ == "expected PVC mount directory "@ + mount_path_of(pvc)
        },
        BackupMoverEvent::Reported => {
            &&& after == (BackupMover { phase: BackupMoverPhase::Ingest, ..before })
            &&& action matches BackupMoverAction::Ingest { pvc_name, path }
            &&& pvc_name@ == pvc
            &&& path@ == mount_path_of(pvc)
        },
        BackupMoverEvent::Ingested(Ok(volume)) => {
            &&& after == (BackupMover {
                phase: BackupMoverPhase::Exit,
                pending: Some(volume),
                ..before
            })
            &&& action is WaitTar
        },
        BackupMoverEvent::Ingested(Err(e)) => {
            &&& after.phase is Over
            &&& action matches BackupMoverAction::Fail { message }
            &&& message@ == "ingest "@ + pvc + ": "@ + e.text()
        },
        BackupMoverEvent::Exited(exit) => if exit.success {
            &&& after.index == before.index + 1
            &&& after.encrypted == before.encrypted
            &&& after.total_bytes == before.total_bytes + before.pending->0.bytes
            &&& backup_goes_on(after, before.volumes@.push(before.pending->0), at, action)
        } else {
            &&& after.phase is Over
            &&& action matches BackupMoverAction::Fail { message }
            &&& message@ == "tar failed for PVC '"@ + pvc + "' (status="@ + exit.status@ + "): "@
                + exit.stderr@
        },
        BackupMoverEvent::Sealed(Ok(id)) => {
            &&& after.phase is Over
            &&& action matches BackupMoverAction::Finish { snapshot_id, total_bytes }
            &&& snapshot_id == id
            &&& total_bytes == before.total_bytes
        },
        BackupMoverEvent::Sealed(Err(e)) => {
            &&& after.phase is Over
            &&& action matches BackupMoverAction::Fail { message }
            &&& message@ == "seal snapshot: "@ + e.text()
        },
    }
}

fn go_on_backup(mover: &mut BackupMover, at: Timestamp) -> (res: BackupMoverAction)
    requires
        at.valid(),
        old(mover).index <= old(mover).pvc_names@.len(),
        old(mover).pending is None,
        old(mover).volumes@.len() == old(mover).index,
        old(mover).total_bytes == volumes_total(old(mover).volumes.deep_view()),
        names_claims(old(mover).volumes@, old(mover).pvc_names@),
    ensures
        final(mover).wf(),
        final(mover).pvc_names == old(mover).pvc_names,
        final(mover).index == old(mover).index,
        final(mover).encrypted == old(mover).encrypted,
        final(mover).total_bytes == old(mover).total_bytes,
        backup_goes_on(*final(mover), old(mover).volumes@, at, res),
{
    if mover.index < mover.pvc_names.len() {
        let path = mount_path(mover.pvc_names[mover.index].as_str());
        mover.phase = BackupMoverPhase::Mount;
        BackupMoverAction::CheckMount { path }
    } else {
        let mut volumes: Vec<VolumeSnapshot> = Vec::new();
        std::mem::swap(&mut volumes, &mut mover.volumes);
        proof {
            assert(volumes@.map_values(|v: VolumeSnapshot| v.deep_view())
                =~= volumes.deep_view());
        }
        let manifest = assemble_manifest(rfc3339(at), mover.encrypted, volumes);
        mover.phase = BackupMoverPhase::Seal;
        BackupMoverAction::SealManifest(manifest)
    }
}

/// What a backup mover does next, for what happened last.
pub fn run_backup_mover(mover: &mut BackupMover, event: BackupMoverEvent, at: Timestamp) -> (res:
    BackupMoverAction)
    requires
        old(mover).wf(),
        at.valid(),
        backup_awaits(old(mover).phase, event),
        event matches BackupMoverEvent::Ingested(Ok(v)) ==> old(mover).total_bytes + v.bytes
            <= u64::MAX && v.pvc_name@ == old(mover).pvc_names@[old(mover).index as int]@,
    ensures
        final(mover).wf(),
        backup_moves(*old(mover), event, at, *final(mover), res),
{
    match event {
        BackupMoverEvent::Begin { encrypted } => {
            mover.encrypted = encrypted;
            go_on_backup(mover, at)
        },
        BackupMoverEvent::Mount { is_dir } => {
            let pvc = mover.pvc_names[mover.index].as_str();
            if is_dir {
                let message = String::from_str("agent mover: streaming PVC '").concat(pvc).concat(
                    "'",
                );
                mover.phase = BackupMoverPhase::Report;
                BackupMoverAction::Report { message, progress: 20 }
            } else {
                let message = String::from_str("expected PVC mount directory ").concat(
                    mount_path(pvc).as_str(),
                );
                mover.phase = BackupMoverPhase::Over;
                BackupMoverAction::Fail { message }
            }
        },
        BackupMoverEvent::Reported => {
            let pvc_name = mover.pvc_names[mover.index].clone();
            let path = mount_path(pvc_name.as_str());
            mover.phase = BackupMoverPhase::Ingest;
            BackupMoverAction::Ingest { pvc_name, path }
        },
        BackupMoverEvent::Ingested(Ok(volume)) => {
            mover.pending = Some(volume);
            mover.phase = BackupMoverPhase::Exit;
            BackupMoverAction::WaitTar
        },
        BackupMoverEvent::Ingested(Err(e)) => {
            let message = String::from_str("ingest ").concat(
                mover.pvc_names[mover.index].as_str(),
            ).concat(": ").concat(e.message().as_str());
            mover.phase = BackupMoverPhase::Over;
            BackupMoverAction::Fail { message }
        },
        BackupMoverEvent::Exited(exit) => {
            let pending = mover.pending.take();
            if let Some(volume) = pending {
                if exit.success {
                    let n: usize = mover.pvc_names.len();
                    assert(mover.index < n);
                    let ghost before = mover.volumes.deep_view();
                    mover.total_bytes = mover.total_bytes + volume.bytes;
                    mover.volumes.push(volume);
                    mover.index = mover.index + 1;
                    assert(mover.volumes.deep_view().drop_last() =~= before);
                    return go_on_backup(mover, at);
                }
            }
            let message = String::from_str("tar failed for PVC '").concat(
                mover.pvc_names[mover.index].as_str(),
            ).concat("' (status=").concat(exit.status.as_str()).concat("): ").concat(
                exit.stderr.as_str(),
            );
            mover.phase = BackupMoverPhase::Over;
            BackupMoverAction::Fail { message }
        },
        BackupMoverEvent::Sealed(Ok(id)) => {
            mover.phase = BackupMoverPhase::Over;
            BackupMoverAction::Finish { snapshot_id: id, total_bytes: mover.total_bytes }
        },
        BackupMoverEvent::Sealed(Err(e)) => {
            mover.phase = BackupMoverPhase::Over;
            BackupMoverAction::Fail {
                message: String::from_str("seal snapshot: ").concat(e.message().as_str()),
            }
        },
    }
}

/// The manifest that a mover seals holds one volume for each claim, in order and under its name.
pub proof fn law_mover_manifest_holds_every_volume(
    before: BackupMover,
    event: BackupMoverEvent,
    at: Timestamp,
    after: BackupMover,
    action: BackupMoverAction,
)
    requires
        before.wf(),
        backup_awaits(before.phase, event),
        backup_moves(before, event, at, after, action),
        action matches BackupMoverAction::SealManifest(_),
    ensures
        action->SealManifest_0.volumes@.len() == before.pvc_names@.len(),
        forall|i: int|
            0 <= i < before.pvc_names@.len() ==> (
            #[trigger] action->SealManifest_0.volumes@[i]).pvc_name@ == before.pvc_names@[i]@,
        action->SealManifest_0.encrypted == after.encrypted,
        action->SealManifest_0.total_bytes == after.total_bytes,
{
    let stored = match event {
        BackupMoverEvent::Exited(_) => before.volumes@.push(before.pending->0),
        _ => before.volumes@,
    };
    let views = stored.map_values(|v: VolumeSnapshot| v.deep_view());
    let sealed = action->SealManifest_0.volumes;
    assert(sealed.deep_view() == views);
    assert(sealed@.len() == sealed.deep_view().len());
    if event is Exited {
        assert(views.drop_last() =~= before.volumes.deep_view());
    } else {
        assert(views =~= before.volumes.deep_view());
    }
    assert forall|i: int| 0 <= i < before.pvc_names@.len() implies (#[trigger] sealed@[i]).pvc_name@
        == before.pvc_names@[i]@ by {
        assert(sealed.deep_view()[i] == sealed@[i].deep_view());
        assert(views[i] == stored[i].deep_view());
    }
}

/// The snapshot that a restore mover extracts, or why there is none: the source backup has to have
/// succeeded, since restoring from one that never finished would restore garbage or nothing.
pub fn mover_snapshot_id(restore: &ProteusRestore, backup: &ProteusBackup) -> (res: Result<
    String,
    String,
>)
    ensures
        if backup.status_view().phase != Some(BackupPhase::Succeeded) {
            res matches Err(m) && m@ == "backup '"@ + restore.spec.backup_ref@
                + "' is not Succeeded (phase="@ + shown_phase(backup.status_view().phase) + ")"@
        } else {
            match snapshot_choice(*restore, *backup) {
                Some(id) => res matches Ok(s) && s@ == id,
                None => res matches Err(m) && m@ == "no snapshot id on restore or backup"@,
            }
        },
{
    let phase = crate::backup_run::current_phase(backup);
    if phase != Some(BackupPhase::Succeeded) {
        return Err(
            String::from_str("backup '").concat(restore.spec.backup_ref.as_str()).concat(
                "' is not Succeeded (phase=",
            ).concat(show_phase(phase).as_str()).concat(")"),
        );
    }
    match choose_snapshot(restore, backup) {
        Some(id) => Ok(id),
        None => Err(String::from_str("no snapshot id on restore or backup")),
    }
}

/// Accepts the snapshot that a restore mover loaded. Chunks are decrypted only where the manifest
/// says that they are ciphertext.
pub fn mover_manifest(snapshot_id: &str, loaded: CoreResult<SnapshotManifest>) -> (res: Result<
    RestorePlan,
    String,
>)
    ensures
        match loaded {
            Ok(m) => res matches Ok(p) && p.snapshot_id@ == snapshot_id@ && p.manifest == m
                && p.decrypt == m.encrypted,
            Err(e) => res matches Err(m) && m@ == "load snapshot: "@ + e.text(),
        },
{
    match loaded {
        Ok(manifest) => {
            let decrypt = manifest.encrypted;
            Ok(RestorePlan { snapshot_id: String::from_str(snapshot_id), manifest, decrypt })
        },
        Err(e) => Err(String::from_str("load snapshot: ").concat(e.message().as_str())),
    }
}

/// What a restore mover waits for.
#[derive(Debug, Clone, Copy, PartialEq, Eq, Structural)]
pub enum RestoreMoverPhase {
    Begin,
    Mount,
    Clear,
    Extract,
    Exit,
    Over,
}

/// What happened to a restore mover.
pub enum RestoreMoverEvent {
    Begin,
    /// The mount of the current volume was looked at.
    Mount { is_dir: bool },
    /// The mount was cleared, or looked at for data.
    Prepared { is_empty: bool },
    /// The volume was read back into `tar`, or could not be.
    Extracted(CoreResult<u64>),
    /// `tar` ended.
    Exited { success: bool },
}

/// What a restore mover does next.
pub enum RestoreMoverAction {
    CheckMount { path: String },
    /// Remove everything from the mount.
    ClearMount { path: String },
    /// See whether the mount is empty.
    CheckEmpty { path: String },
    /// Read the volume at this index back into `tar`.
    Extract { index: usize, path: String },
    WaitTar,
    Finish { total_bytes: u64 },
    Fail { message: String },
}

/// A mover that extracts the volumes of a snapshot.
pub struct RestoreMover {
    pub volumes: Vec<VolumeSnapshot>,
    pub overwrite: bool,
    pub phase: RestoreMoverPhase,
    pub index: usize,
    pub total_bytes: u64,
}

impl RestoreMover {
    /// While a volume is at hand there is one at the position.
    pub open spec fn wf(&self) -> bool {
        &&& self.index <= self.volumes@.len()
        &&& self.phase !is Begin && self.phase !is Over ==> self.index < self.volumes@.len()
    }

    /// A mover that has not begun.
    pub fn new(volumes: Vec<VolumeSnapshot>, overwrite: bool) -> (res: Self)
        ensures
            res.wf(),
            res.volumes == volumes,
            res.overwrite == overwrite,
            res.phase is Begin,
            res.index == 0,
            res.total_bytes == 0,
    {
        RestoreMover {
            volumes,
            overwrite,
            phase: RestoreMoverPhase::Begin,
            index: 0,
            total_bytes: 0,
        }
    }
}

/// Whether the event is one that a mover in this phase waits for.
pub open spec fn restore_awaits(phase: RestoreMoverPhase, event: RestoreMoverEvent) -> bool {
    match event {
        RestoreMoverEvent::Begin => phase is Begin,
        RestoreMoverEvent::Mount { .. } => phase is Mount,
        RestoreMoverEvent::Prepared { .. } => phase is Clear,
        RestoreMoverEvent::Extracted(_) => phase is Extract,
        RestoreMoverEvent::Exited { .. } => phase is Exit,
    }
}

/// Whether `action` goes on with the volume at the mover's position, or finishes after the last.
pub open spec fn restore_goes_on(after: RestoreMover, action: RestoreMoverAction) -> bool {
    if after.index < after.volumes@.len() {
        &&& after.phase is Mount
        &&& action matches RestoreMoverAction::CheckMount { path }
        &&& path@ == mount_path_of(after.volumes@[after.index as int].pvc_name@)
    } else {
        &&& after.phase is Over
        &&& action matches RestoreMoverAction::Finish { total_bytes }
        &&& total_bytes == after.total_bytes
    }
}

/// Whether a mover goes from `before` to `after` by `action`, for the event. A mount that holds
/// data is overwritten only where that is asked for.
pub open spec fn restore_moves(
    before: RestoreMover,
    event: RestoreMoverEvent,
    after: RestoreMover,
    action: RestoreMoverAction,
) -> bool {
    let pvc = before.volumes@[before.index as int].pvc_name@;
    match event {
        RestoreMoverEvent::Begin => {
            &&& after == (RestoreMover { phase: after.phase, ..before })
            &&& restore_goes_on(after, action)
        },
        RestoreMoverEvent::Mount { is_dir } => if !is_dir {
            &&& after == (RestoreMover { phase: RestoreMoverPhase::Over, ..before })
            &&& action matches RestoreMoverAction::Fail { message }
            &&& message@ == "expected PVC mount directory "@ + mount_path_of(pvc)
        } else {
            &&& after == (RestoreMover { phase: RestoreMoverPhase::Clear, ..before })
            &&& if before.overwrite {
                action matches RestoreMoverAction::ClearMount { path } && path@ == mount_path_of(
                    pvc,
                )
            } else {
                action matches RestoreMoverAction::CheckEmpty { path } && path@ == mount_path_of(
                    pvc,
                )
            }
        },
        RestoreMoverEvent::Prepared { is_empty } => if !before.overwrite && !is_empty {
            &&& after == (RestoreMover { phase: RestoreMoverPhase::Over, ..before })
            &&& action matches RestoreMoverAction::Fail { message }
            &&& message@ == "target PVC '"@ + pvc + "' already has data (set overwrite: true)"@
        } else {
            &&& after == (RestoreMover { phase: RestoreMoverPhase::Extract, ..before })
            &&& action matches RestoreMoverAction::Extract { index, path }
            &&& index == before.index
            &&& path@ == mount_path_of(pvc)
        },
        RestoreMoverEvent::Extracted(Ok(written)) => {
            &&& after == (RestoreMover {
                phase: RestoreMoverPhase::Exit,
                total_bytes: (before.total_bytes + written) as u64,
                ..before
            })
            &&& action is WaitTar
        },
        RestoreMoverEvent::Extracted(Err(e)) => {
            &&& after == (RestoreMover { phase: RestoreMoverPhase::Over, ..before })
            &&& action matches RestoreMoverAction::Fail { message }
            &&& message@ == "materialize "@ + pvc + ": "@ + e.text()
        },
        RestoreMoverEvent::Exited { success } => if success {
            &&& after == (RestoreMover {
                phase: after.phase,
                index: (before.index + 1) as usize,
                ..before
            })
            &&& restore_goes_on(after, action)
        } else {
            &&& after == (RestoreMover { phase: RestoreMoverPhase::Over, ..before })
            &&& action matches RestoreMoverAction::Fail { message }
            &&& message@ == "tar extract failed for PVC '"@ + pvc + "'"@
        },
    }
}

fn go_on_restore(mover: &mut RestoreMover) -> (res: RestoreMoverAction)
    requires
        old(mover).index <= old(mover).volumes@.len(),
    ensures
        final(mover).wf(),
        *final(mover) == (RestoreMover { phase: final(mover).phase, ..*old(mover) }),
        restore_goes_on(*final(mover), res),
{
    if mover.index < mover.volumes.len() {
        let path = mount_path(mover.volumes[mover.index].pvc_name.as_str());
        mover.phase = RestoreMoverPhase::Mount;
        RestoreMoverAction::CheckMount { path }
    } else {
        mover.phase = RestoreMoverPhase::Over;
        RestoreMoverAction::Finish { total_bytes: mover.total_bytes }
    }
}

/// What a restore mover does next, for what happened last.
pub fn run_restore_mover(mover: &mut RestoreMover, event: RestoreMoverEvent) -> (res:
    RestoreMoverAction)
    requires
        old(mover).wf(),
        restore_awaits(old(mover).phase, event),
        event matches RestoreMoverEvent::Extracted(Ok(n)) ==> old(mover).total_bytes + n
            <= u64::MAX,
    ensures
        final(mover).wf(),
        restore_moves(*old(mover), event, *final(mover), res),
{
    match event {
        RestoreMoverEvent::Begin => go_on_restore(mover),
        RestoreMoverEvent::Mount { is_dir } => {
            let path = mount_path(mover.volumes[mover.index].pvc_name.as_str());
            if !is_dir {
                mover.phase = RestoreMoverPhase::Over;
                return RestoreMoverAction::Fail {
                    message: String::from_str("expected PVC mount directory ").concat(
                        path.as_str(),
                    ),
                };
            }
            mover.phase = RestoreMoverPhase::Clear;
            if mover.overwrite {
                RestoreMoverAction::ClearMount { path }
            } else {
                RestoreMoverAction::CheckEmpty { path }
            }
        },
        RestoreMoverEvent::Prepared { is_empty } => {
            let pvc = mover.volumes[mover.index].pvc_name.as_str();
            if !mover.overwrite && !is_empty {
                let message = String::from_str("target PVC '").concat(pvc).concat(
                    "' already has data (set overwrite: true)",
                );
                mover.phase = RestoreMoverPhase::Over;
                return RestoreMoverAction::Fail { message };
            }
            let path = mount_path(pvc);
            mover.phase = RestoreMoverPhase::Extract;
            RestoreMoverAction::Extract { index: mover.index, path }
        },
        RestoreMoverEvent::Extracted(Ok(written)) => {
            mover.total_bytes = mover.total_bytes + written;
            mover.phase = RestoreMoverPhase::Exit;
            RestoreMoverAction::WaitTar
        },
        RestoreMoverEvent::Extracted(Err(e)) => {
            let message = String::from_str("materialize ").concat(
                mover.volumes[mover.index].pvc_name.as_str(),
            ).concat(": ").concat(e.message().as_str());
            mover.phase = RestoreMoverPhase::Over;
            RestoreMoverAction::Fail { message }
        },
        RestoreMoverEvent::Exited { success } => {
            if success {
                let n: usize = mover.volumes.len();
                assert(mover.index < n);
                mover.index = mover.index + 1;
                go_on_restore(mover)
            } else {
                let message = String::from_str("tar extract failed for PVC '").concat(
                    mover.volumes[mover.index].pvc_name.as_str(),
                ).concat("'");
                mover.phase = RestoreMoverPhase::Over;
                RestoreMoverAction::Fail { message }
            }
        },
    }
}

/// A volume claim that holds data is neither cleared nor written to unless overwriting is asked
/// for.
pub proof fn law_data_is_not_overwritten_unasked(
    before: RestoreMover,
    event: RestoreMoverEvent,
    after: RestoreMover,
    action: RestoreMoverAction,
)
    requires
        restore_moves(before, event, after, action),
        !before.overwrite,
    ensures
        action !is ClearMount,
        event matches RestoreMoverEvent::Prepared { is_empty: false } ==> action is Fail,
{
}

/// A mover reads from its arguments what the agent put there: the kind, the namespace and the name.
pub proof fn law_mover_reads_what_it_was_told(namespace: Seq<char>, name: Seq<char>)
    ensures
        read_command(mover_args_of("backup"@, namespace, name).skip(1)) == Ok::<
            (MoverKind, Seq<char>, Seq<char>),
            Seq<char>,
        >((MoverKind::Backup, namespace, name)),
        read_command(mover_args_of("restore"@, namespace, name).skip(1)) == Ok::<
            (MoverKind, Seq<char>, Seq<char>),
            Seq<char>,
        >((MoverKind::Restore, namespace, name)),
        mover_args_of("backup"@, namespace, name)[0] == "mover"@,
{
    reveal_strlit("backup");
    reveal_strlit("restore");
    assert("backup"@[0] == 'b' && "restore"@[0] == 'r');
    let flags = seq!["--namespace"@, namespace, "--name"@, name];
    lemma_both_flags(namespace, name);
    assert(mover_args_of("backup"@, namespace, name).skip(1).skip(1) =~= flags);
    assert(mover_args_of("restore"@, namespace, name).skip(1).skip(1) =~= flags);
    assert(mover_args_of("backup"@, namespace, name).skip(1)[0] == "backup"@);
    assert(mover_args_of("restore"@, namespace, name).skip(1)[0] == "restore"@);
}

proof fn lemma_flag_names()
    ensures
        "--namespace"@ != "--name"@,
        "-n"@ != "--name"@,
{
    reveal_strlit("--namespace");
    reveal_strlit("--name");
    reveal_strlit("-n");
    assert("--namespace"@.len() == 11 && "--name"@.len() == 6 && "-n"@.len() == 2);
}

proof fn lemma_both_flags(namespace: Seq<char>, name: Seq<char>)
    ensures
        read_flags(seq!["--namespace"@, namespace, "--name"@, name], None, None) == Ok::<
            (Option<Seq<char>>, Option<Seq<char>>),
            Seq<char>,
        >((Some(namespace), Some(name))),
{
    lemma_flag_names();
    let flags = seq!["--namespace"@, namespace, "--name"@, name];
    let rest = seq!["--name"@, name];
    assert(flags.skip(2) =~= rest);
    assert(rest.skip(2) =~= seq![]);
    assert(read_flags(rest.skip(2), Some(namespace), Some(name)) == Ok::<
        (Option<Seq<char>>, Option<Seq<char>>),
        Seq<char>,
    >((Some(namespace), Some(name))));
    assert(read_flags(rest, Some(namespace), None) == read_flags(
        rest.skip(2),
        Some(namespace),
        Some(name),
    ));
}

/// Flags are read one after the other: each sets its own value and leaves the other, and anything
/// that is no flag is refused.
pub proof fn law_flags_are_read_one_by_one(
    flag: Seq<char>,
    value: Seq<char>,
    rest: Seq<Seq<char>>,
    namespace: Option<Seq<char>>,
    name: Option<Seq<char>>,
)
    ensures
        flag == "--namespace"@ || flag == "-n"@ ==> read_flags(
            seq![flag, value] + rest,
            namespace,
            name,
        ) == read_flags(rest, Some(value), name),
        flag == "--name"@ ==> read_flags(seq![flag, value] + rest, namespace, name) == read_flags(
            rest,
            namespace,
            Some(value),
        ),
        flag != "--namespace"@ && flag != "-n"@ && flag != "--name"@ ==> read_flags(
            seq![flag, value] + rest,
            namespace,
            name,
        ) is Err,
        read_flags(seq![], namespace, name) == Ok::<
            (Option<Seq<char>>, Option<Seq<char>>),
            Seq<char>,
        >((namespace, name)),
{
    lemma_flag_names();
    let args = seq![flag, value] + rest;
    assert(args.skip(2) =~= rest);
    assert(args[0] == flag && args[1] == value);
}

/// A mover that is not told what to move, where and under which name does nothing.
pub proof fn law_incomplete_commands_are_refused(args: Seq<Seq<char>>)
    ensures
        read_command(args) matches Ok((kind, ns, name)) ==> args.len() > 0 && (kind
            == MoverKind::Backup <==> args[0] == "backup"@) && (kind == MoverKind::Restore
            <==> args[0] == "restore"@) && read_flags(args.skip(1), None, None) == Ok::<
            (Option<Seq<char>>, Option<Seq<char>>),
            Seq<char>,
        >((Some(ns), Some(name))),
        args.len() == 0 ==> read_command(args) is Err,
{
    reveal_strlit("backup");
    reveal_strlit("restore");
    assert("backup"@[0] == 'b' && "restore"@[0] == 'r');
}

/// A move started when its status says so, else now.
pub proof fn law_recorded_start_is_kept(started_at: Seq<char>, now_text: Seq<char>)
    ensures
        started_or(Some(started_at), now_text) == started_at,
        started_or(None, now_text) == now_text,
{
}

/// A backup that a mover finished is recorded as succeeded, with its snapshot, its size and its
/// times, on the agent plane and its node.
pub proof fn law_moved_backup_is_recorded(
    status: ProteusBackupStatus,
    assigned_node: Option<Seq<char>>,
    started_at: Seq<char>,
    snapshot_id: Seq<char>,
    total_bytes: u64,
    t: (Option<u64>, Option<u64>),
    finished_text: Seq<char>,
)
    requires
        status.deep_view() == moved_backup_view(
            assigned_node,
            started_at,
            snapshot_id,
            total_bytes,
            t,
            finished_text,
        ),
    ensures
        status.phase == Some(BackupPhase::Succeeded),
        opt_view(status.last_snapshot_id) == Some(snapshot_id),
        status.last_bytes == Some(total_bytes),
        opt_view(status.last_success_at) == Some(finished_text),
        opt_view(status.started_at) == Some(started_at),
        status.progress_percent == Some(100u8),
        status.data_plane == Some(DataPlane::Agent),
        opt_view(status.assigned_node) == assigned_node,
        status.duration_seconds == t.0,
        status.throughput_bytes_per_sec == t.1,
        status.last_failure_at is None,
{
}

/// A restore that a mover finished is recorded as succeeded, with its snapshot, its size and its
/// times, on the agent plane and its node.
pub proof fn law_moved_restore_is_recorded(
    status: ProteusRestoreStatus,
    assigned_node: Option<Seq<char>>,
    started_at: Seq<char>,
    snapshot_id: Seq<char>,
    total_bytes: u64,
    t: (Option<u64>, Option<u64>),
    finished_text: Seq<char>,
)
    requires
        status.deep_view() == moved_restore_view(
            assigned_node,
            started_at,
            snapshot_id,
            total_bytes,
            t,
            finished_text,
        ),
    ensures
        status.phase == Some(RestorePhase::Succeeded),
        opt_view(status.restored_snapshot_id) == Some(snapshot_id),
        status.last_bytes == Some(total_bytes),
        opt_view(status.completed_at) == Some(finished_text),
        opt_view(status.started_at) == Some(started_at),
        status.progress_percent == Some(100u8),
        status.data_plane == Some(DataPlane::Agent),
        opt_view(status.assigned_node) == assigned_node,
        status.duration_seconds == t.0,
        status.throughput_bytes_per_sec == t.1,
{
}

/// A backup mover goes on while its steps go well: each claim is looked for at its mount, streamed
/// and waited for, one after the other and in order, and then the snapshot is sealed. It finishes
/// exactly when that is sealed, and whatever goes wrong on the way fails it.
pub proof fn law_backup_mover_goes_on_while_steps_go_well(
    before: BackupMover,
    event: BackupMoverEvent,
    at: Timestamp,
    after: BackupMover,
    action: BackupMoverAction,
)
    requires
        before.wf(),
        backup_awaits(before.phase, event),
        backup_moves(before, event, at, after, action),
    ensures
        action is Finish <==> (event matches BackupMoverEvent::Sealed(Ok(_))),
        action is Fail <==> ((event matches BackupMoverEvent::Mount { is_dir } && !is_dir) || (
        event matches BackupMoverEvent::Ingested(Err(_))) || (event matches
            BackupMoverEvent::Exited(exit) && !exit.success) || (event matches
            BackupMoverEvent::Sealed(Err(_)))),
        event matches BackupMoverEvent::Begin { encrypted } ==> after.encrypted == encrypted && (if
            before.index < before.pvc_names@.len() {
            action matches BackupMoverAction::CheckMount { path } && path@ == mount_path_of(
                before.pvc_names@[before.index as int]@,
            )
        } else {
            action is SealManifest
        }),
        event matches BackupMoverEvent::Mount { is_dir } && is_dir ==> action is Report
            && after.phase is Report,
        event is Reported ==> (action matches BackupMoverAction::Ingest { pvc_name, path }
            && pvc_name@ == before.pvc_names@[before.index as int]@ && path@ == mount_path_of(
            before.pvc_names@[before.index as int]@,
        )),
        event matches BackupMoverEvent::Ingested(Ok(v)) ==> action is WaitTar && after.pending
            == Some(v),
        event matches BackupMoverEvent::Exited(exit) && exit.success ==> after.total_bytes
            == before.total_bytes + before.pending->0.bytes && after.encrypted == before.encrypted
            && (if before.index + 1 < before.pvc_names@.len() {
            after.volumes@ == before.volumes@.push(before.pending->0) && (action matches
                BackupMoverAction::CheckMount { path } && path@ == mount_path_of(
                before.pvc_names@[before.index + 1]@,
            ))
        } else {
            action is SealManifest
        }),
        event matches BackupMoverEvent::Sealed(Ok(id)) ==> (action matches
            BackupMoverAction::Finish { snapshot_id, total_bytes } && snapshot_id@ == id@
            && total_bytes == before.total_bytes),
        after.pvc_names@ == before.pvc_names@,
{
}

/// A restore mover goes on while its steps go well: each volume is looked for at its mount, made
/// room for, extracted and waited for, one after the other and in order. It finishes exactly when
/// the last is done, with the bytes of all, and whatever goes wrong on the way fails it.
pub proof fn law_restore_mover_goes_on_while_steps_go_well(
    before: RestoreMover,
    event: RestoreMoverEvent,
    after: RestoreMover,
    action: RestoreMoverAction,
)
    requires
        before.wf(),
        restore_awaits(before.phase, event),
        restore_moves(before, event, after, action),
        before.total_bytes + (if let RestoreMoverEvent::Extracted(Ok(n)) = event {
            n as int
        } else {
            0
        }) <= u64::MAX,
    ensures
        action is Finish <==> ((event is Begin && before.index == before.volumes@.len()) || (
        event matches RestoreMoverEvent::Exited { success } && success && before.index + 1
            == before.volumes@.len())),
        action is Fail <==> ((event matches RestoreMoverEvent::Mount { is_dir } && !is_dir) || (
        event matches RestoreMoverEvent::Prepared { is_empty } && !is_empty && !before.overwrite)
            || (event matches RestoreMoverEvent::Extracted(Err(_))) || (event matches
            RestoreMoverEvent::Exited { success } && !success)),
        event is Begin && before.index < before.volumes@.len() ==> (action matches
            RestoreMoverAction::CheckMount { path } && path@ == mount_path_of(
            before.volumes@[before.index as int].pvc_name@,
        )),
        event matches RestoreMoverEvent::Mount { is_dir } && is_dir ==> (if before.overwrite {
            action matches RestoreMoverAction::ClearMount { path } && path@ == mount_path_of(
                before.volumes@[before.index as int].pvc_name@,
            )
        } else {
            action matches RestoreMoverAction::CheckEmpty { path } && path@ == mount_path_of(
                before.volumes@[before.index as int].pvc_name@,
            )
        }),
        event matches RestoreMoverEvent::Prepared { is_empty } && (is_empty || before.overwrite)
            ==> (action matches RestoreMoverAction::Extract { index, path } && index == before.index
            && path@ == mount_path_of(before.volumes@[before.index as int].pvc_name@)),
        event matches RestoreMoverEvent::Extracted(Ok(n)) ==> action is WaitTar
            && after.total_bytes == before.total_bytes + n,
        event matches RestoreMoverEvent::Exited { success } && success && before.index + 1
            < before.volumes@.len() ==> after.index == before.index + 1 && (action matches
            RestoreMoverAction::CheckMount { path } && path@ == mount_path_of(
            before.volumes@[before.index + 1].pvc_name@,
        )),
        action matches RestoreMoverAction::Finish { total_bytes } ==> total_bytes
            == before.total_bytes,
        event !is Extracted ==> after.total_bytes == before.total_bytes,
        after.volumes@ == before.volumes@,
        after.overwrite == before.overwrite,
{
    assert(before.volumes.len() == before.volumes@.len());
}

/// After each step a backup mover waits for the answer to what it asked for, and for nothing once
/// it ended.
pub proof fn law_backup_mover_waits_for_what_it_asked_for(
    before: BackupMover,
    event: BackupMoverEvent,
    at: Timestamp,
    after: BackupMover,
    action: BackupMoverAction,
    answer: BackupMoverEvent,
)
    requires
        before.wf(),
        backup_awaits(before.phase, event),
        backup_moves(before, event, at, after, action),
    ensures
        action is CheckMount ==> (backup_awaits(after.phase, answer) <==> answer is Mount),
        action is Report ==> (backup_awaits(after.phase, answer) <==> answer is Reported),
        action is Ingest ==> (backup_awaits(after.phase, answer) <==> answer is Ingested),
        action is WaitTar ==> (backup_awaits(after.phase, answer) <==> answer is Exited),
        action is SealManifest ==> (backup_awaits(after.phase, answer) <==> answer is Sealed),
        action is Finish || action is Fail ==> !backup_awaits(after.phase, answer),
{
}

/// After each step a restore mover waits for the answer to what it asked for, and for nothing once
/// it ended.
pub proof fn law_restore_mover_waits_for_what_it_asked_for(
    before: RestoreMover,
    event: RestoreMoverEvent,
    after: RestoreMover,
    action: RestoreMoverAction,
    answer: RestoreMoverEvent,
)
    requires
        before.wf(),
        restore_awaits(before.phase, event),
        restore_moves(before, event, after, action),
    ensures
        action is CheckMount ==> (restore_awaits(after.phase, answer) <==> answer is Mount),
        action is ClearMount || action is CheckEmpty ==> (restore_awaits(after.phase, answer)
            <==> answer is Prepared),
        action is Extract ==> (restore_awaits(after.phase, answer) <==> answer is Extracted),
        action is WaitTar ==> (restore_awaits(after.phase, answer) <==> answer is Exited),
        action is Finish || action is Fail ==> !restore_awaits(after.phase, answer),
{
}

} // verus!
