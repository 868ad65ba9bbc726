//! The life of a restore: its status from start to end, what a reconcile does next, and what is
//! restored from where.
use crate::clock::{elapsed, now, rfc3339, rfc3339_text, rfc3339_value, Timestamp};
use crate::crd::{
    BackupPhase, DataPlane, ProteusBackup, ProteusRestore, ProteusRestoreStatus, RestorePhase,
    RestoreStatusView,
};
use crate::data_plane::{PlaneChoice, RepositoryKind};
use crate::error::CoreResult;
use crate::fingerprint::{fingerprint_of, option_fingerprint};
use crate::recipe::BackupRecipe;
use crate::snapshot::SnapshotManifest;
use crate::text::{
    blank, copy_option, is_blank, opt_view, same_option, same_text, str_view, text_option,
};
use crate::timing::{compute_throughput, run_seconds, timing};
use vstd::prelude::*;

verus! {

/// The phase that the status records.
pub fn current_phase(obj: &ProteusRestore) -> (res: Option<RestorePhase>)
    ensures
        res == obj.status_view().phase,
{
    match &obj.status {
        Some(s) => s.phase,
        None => None,
    }
}

/// What is wrong with the spec of a restore, if anything is.
pub open spec fn spec_fault(obj: ProteusRestore) -> Option<Seq<char>> {
    if blank(obj.spec.backup_ref@) {
        Some("backupRef must not be empty"@)
    } else if blank(obj.spec.target_namespace@) {
        Some("targetNamespace must not be empty"@)
    } else {
        None
    }
}

/// Checks that a restore says what is restored where.
pub fn validate_spec(obj: &ProteusRestore) -> (res: Result<(), String>)
    ensures
        match res {
            Ok(_) => spec_fault(*obj) is None,
            Err(m) => spec_fault(*obj) == Some(m@),
        },
{
    if is_blank(obj.spec.backup_ref.as_str()) {
        return Err(String::from_str("backupRef must not be empty"));
    }
    if is_blank(obj.spec.target_namespace.as_str()) {
        return Err(String::from_str("targetNamespace must not be empty"));
    }
    Ok(())
}

/// When a restore that is running now started: it resumes the recorded start where it was running
/// already.
pub open spec fn run_start(s: RestoreStatusView, now_text: Seq<char>) -> Seq<char> {
    if s.phase == Some(RestorePhase::Running) && s.started_at is Some {
        s.started_at->0
    } else {
        now_text
    }
}

/// The status of a restore that starts, or resumes, now.
pub open spec fn running_view(s: RestoreStatusView, now_text: Seq<char>) -> RestoreStatusView {
    RestoreStatusView {
        phase: Some(RestorePhase::Running),
        message: Some("restore running: resolving snapshot and writing target PVCs"@),
        restored_snapshot_id: s.restored_snapshot_id,
        progress_percent: Some(0),
        completed_at: None,
        started_at: Some(run_start(s, now_text)),
        last_bytes: None,
        duration_seconds: None,
        throughput_bytes_per_sec: None,
        data_plane: s.data_plane,
        assigned_node: s.assigned_node,
    }
}

fn copy_status(obj: &ProteusRestore) -> (res: ProteusRestoreStatus)
    ensures
        res.deep_view() == obj.status_view(),
{
    match &obj.status {
        Some(s) => ProteusRestoreStatus {
            phase: s.phase,
            message: copy_option(&s.message),
            restored_snapshot_id: copy_option(&s.restored_snapshot_id),
            progress_percent: s.progress_percent,
            completed_at: copy_option(&s.completed_at),
            started_at: copy_option(&s.started_at),
            last_bytes: s.last_bytes,
            duration_seconds: s.duration_seconds,
            throughput_bytes_per_sec: s.throughput_bytes_per_sec,
            data_plane: s.data_plane,
            assigned_node: copy_option(&s.assigned_node),
        },
        None => ProteusRestoreStatus::default(),
    }
}

/// The status of a restore that starts, or resumes, at `at`.
pub fn running_status_at(obj: &ProteusRestore, at: Timestamp) -> (res: ProteusRestoreStatus)
    requires
        at.valid(),
    ensures
        res.deep_view() == running_view(obj.status_view(), rfc3339_text(at.secs, at.nanos)),
{
    let old_status = copy_status(obj);
    let resumed = if old_status.phase == Some(RestorePhase::Running) {
        old_status.started_at
    } else {
        None
    };
    let started_at = match resumed {
        Some(t) => t,
        None => rfc3339(at),
    };
    ProteusRestoreStatus {
        phase: Some(RestorePhase::Running),
        message: Some(
            String::from_str("restore running: resolving snapshot and writing target PVCs"),
        ),
        restored_snapshot_id: old_status.restored_snapshot_id,
        progress_percent: Some(0),
        completed_at: None,
        started_at: Some(started_at),
        last_bytes: None,
        duration_seconds: None,
        throughput_bytes_per_sec: None,
        data_plane: old_status.data_plane,
        assigned_node: old_status.assigned_node,
    }
}

/// The status of a restore that starts, or resumes, now.
pub fn running_status(obj: &ProteusRestore) -> (res: ProteusRestoreStatus)
    ensures
        exists|at: Timestamp|
            at.valid() && res.deep_view() == running_view(
                obj.status_view(),
                #[trigger] rfc3339_text(at.secs, at.nanos),
            ),
{
    let at = now();
    running_status_at(obj, at)
}

/// The snapshot that was restored, or what went wrong.
pub open spec fn outcome_view(outcome: Result<String, String>) -> Result<Seq<char>, Seq<char>> {
    match outcome {
        Ok(id) => Ok(id@),
        Err(m) => Err(m@),
    }
}

/// The bytes of a restore, none where they are not known.
pub open spec fn bytes_or_zero(last_bytes: Option<u64>) -> u64 {
    match last_bytes {
        Some(n) => n,
        None => 0,
    }
}

/// The status of a restore that ended.
pub open spec fn terminal_view(
    s: RestoreStatusView,
    outcome: Result<Seq<char>, Seq<char>>,
    started_at: Option<Seq<char>>,
    last_bytes: Option<u64>,
    t: (Option<u64>, Option<u64>),
    finished_text: Seq<char>,
) -> RestoreStatusView {
    match outcome {
        Ok(id) => RestoreStatusView {
            phase: Some(RestorePhase::Succeeded),
            message: Some("restore succeeded from snapshot "@ + id),
            restored_snapshot_id: Some(id),
            progress_percent: Some(100),
            completed_at: Some(finished_text),
            started_at,
            last_bytes: Some(bytes_or_zero(last_bytes)),
            duration_seconds: t.0,
            throughput_bytes_per_sec: t.1,
            data_plane: s.data_plane,
            assigned_node: s.assigned_node,
        },
        Err(message) => RestoreStatusView {
            phase: Some(RestorePhase::Failed),
            message: Some(message),
            restored_snapshot_id: s.restored_snapshot_id,
            progress_percent: s.progress_percent,
            completed_at: Some(finished_text),
            started_at: if started_at is Some {
                started_at
            } else {
                s.started_at
            },
            last_bytes: s.last_bytes,
            duration_seconds: None,
            throughput_bytes_per_sec: None,
            data_plane: s.data_plane,
            assigned_node: s.assigned_node,
        },
    }
}

/// The seconds and bytes per second of a restore that ended at `end`.
pub open spec fn restore_timing(
    started_at: Option<Seq<char>>,
    last_bytes: Option<u64>,
    end: Timestamp,
) -> (Option<u64>, Option<u64>) {
    timing(run_seconds(started_at, end), bytes_or_zero(last_bytes))
}

/// The status of a restore that ended at `finished_at`.
pub fn terminal_status_at(
    obj: &ProteusRestore,
    outcome: Result<String, String>,
    run_started_at: Option<&str>,
    last_bytes: Option<u64>,
    finished_at: Timestamp,
) -> (res: ProteusRestoreStatus)
    requires
        finished_at.valid(),
    ensures
        res.deep_view() == terminal_view(
            obj.status_view(),
            outcome_view(outcome),
            str_view(run_started_at),
            last_bytes,
            restore_timing(str_view(run_started_at), last_bytes, finished_at),
            rfc3339_text(finished_at.secs, finished_at.nanos),
        ),
{
    let old_status = copy_status(obj);
    match outcome {
        Ok(snapshot_id) => {
            let bytes: u64 = match last_bytes {
                Some(n) => n,
                None => 0,
            };
            let t = compute_throughput(run_started_at, bytes, finished_at);
            ProteusRestoreStatus {
                phase: Some(RestorePhase::Succeeded),
                message: Some(
                    String::from_str("restore succeeded from snapshot ").concat(
                        snapshot_id.as_str(),
                    ),
                ),
                restored_snapshot_id: Some(snapshot_id),
                progress_percent: Some(100),
                completed_at: Some(rfc3339(finished_at)),
                started_at: text_option(run_started_at),
                last_bytes: Some(bytes),
                duration_seconds: t.0,
                throughput_bytes_per_sec: t.1,
                data_plane: old_status.data_plane,
                assigned_node: old_status.assigned_node,
            }
        },
        Err(message) => {
            let started_at = match run_started_at {
                Some(s) => Some(s.to_owned()),
                None => old_status.started_at,
            };
            ProteusRestoreStatus {
                phase: Some(RestorePhase::Failed),
                message: Some(message),
                restored_snapshot_id: old_status.restored_snapshot_id,
                progress_percent: old_status.progress_percent,
                completed_at: Some(rfc3339(finished_at)),
                started_at,
                last_bytes: old_status.last_bytes,
                duration_seconds: None,
                throughput_bytes_per_sec: None,
                data_plane: old_status.data_plane,
                assigned_node: old_status.assigned_node,
            }
        },
    }
}

/// The status of a restore that ended now.
pub fn terminal_status(
    obj: &ProteusRestore,
    outcome: Result<String, String>,
    run_started_at: Option<&str>,
    last_bytes: Option<u64>,
) -> (res: ProteusRestoreStatus)
    ensures
        exists|at: Timestamp|
            at.valid() && res.deep_view() == terminal_view(
                obj.status_view(),
                outcome_view(outcome),
                str_view(run_started_at),
                last_bytes,
                restore_timing(str_view(run_started_at), last_bytes, at),
                #[trigger] rfc3339_text(at.secs, at.nanos),
            ),
{
    let at = now();
    terminal_status_at(obj, outcome, run_started_at, last_bytes, at)
}

/// Whether a status is worth a patch: counters in the message, progress and timestamps alone are
/// not.
pub open spec fn differs(cur: RestoreStatusView, next: RestoreStatusView) -> bool {
    ||| cur.phase != next.phase
    ||| fingerprint_of(cur.message) != fingerprint_of(next.message)
    ||| cur.restored_snapshot_id != next.restored_snapshot_id
    ||| cur.data_plane != next.data_plane
    ||| cur.assigned_node != next.assigned_node
    ||| cur.duration_seconds != next.duration_seconds
    ||| cur.throughput_bytes_per_sec != next.throughput_bytes_per_sec
}

/// Whether `next` is to replace `current`.
pub open spec fn changed(current: Option<RestoreStatusView>, next: RestoreStatusView) -> bool {
    match current {
        None => true,
        Some(cur) => differs(cur, next),
    }
}

/// The model of an optional status.
pub open spec fn status_opt(s: Option<ProteusRestoreStatus>) -> Option<RestoreStatusView> {
    match s {
        Some(s) => Some(s.deep_view()),
        None => None,
    }
}

/// The model of an optional status.
pub open spec fn status_ref(s: Option<&ProteusRestoreStatus>) -> Option<RestoreStatusView> {
    match s {
        Some(s) => Some(s.deep_view()),
        None => None,
    }
}

/// Whether `next` is to replace `current`: timestamps alone are no reason.
pub fn status_changed(current: Option<&ProteusRestoreStatus>, next: &ProteusRestoreStatus) -> (res:
    bool)
    ensures
        res == changed(status_ref(current), next.deep_view()),
{
    match current {
        None => true,
        Some(cur) => {
            cur.phase != next.phase || !same_text(
                option_fingerprint(&cur.message).as_str(),
                option_fingerprint(&next.message).as_str(),
            ) || !same_option(&cur.restored_snapshot_id, &next.restored_snapshot_id)
                || cur.data_plane != next.data_plane || !same_option(
                &cur.assigned_node,
                &next.assigned_node,
            ) || cur.duration_seconds != next.duration_seconds || cur.throughput_bytes_per_sec
                != next.throughput_bytes_per_sec
        },
    }
}

/// What a restore is made from: the kind of its repository and the recipe of its source backup.
pub struct RestoreInputs {
    pub kind: RepositoryKind,
    pub recipe: BackupRecipe,
}

/// What a reconcile of a restore has learned.
pub enum RestoreEvent {
    /// The restore came up.
    Start,
    /// Its source was looked up, or could not be.
    Inputs(Result<RestoreInputs, String>),
    /// Its plane was chosen, or could not be.
    Plane(Result<PlaneChoice, String>),
    /// The identity for movers was provisioned, or could not be, for a restore on this node.
    Identity { node: String, result: Result<(), String> },
    /// The restore on the exec plane ended.
    Finished { outcome: Result<String, String>, run_started_at: Option<String> },
}

/// What a reconcile of a restore does next.
pub enum RestoreAction {
    /// Look again after the given seconds.
    Requeue { requeue_secs: u64 },
    /// Look up the source backup, its recipe and its repository.
    LoadInputs,
    /// Choose the plane for these claims of the namespace.
    SelectPlane { kind: RepositoryKind, namespace: String, pvc_names: Vec<String> },
    /// Provision the identity for movers in the namespace, for a restore on this node.
    ProvisionIdentity { node: String, namespace: String },
    /// Write the status where there is one, and restore on the exec plane.
    Run { patch: Option<ProteusRestoreStatus>, run_started_at: Option<String> },
    /// Write the status where there is one, and look again after the given seconds.
    Finish { patch: Option<ProteusRestoreStatus>, requeue_secs: u64 },
}

/// Whether `patch` is what has to be written for the status to become `next`.
pub open spec fn is_patch(
    current: Option<ProteusRestoreStatus>,
    next: RestoreStatusView,
    patch: Option<ProteusRestoreStatus>,
) -> bool {
    match patch {
        Some(p) => changed(status_opt(current), next) && p.deep_view() == next,
        None => !changed(status_opt(current), next),
    }
}

fn patch_for(current: &Option<ProteusRestoreStatus>, next: ProteusRestoreStatus) -> (res: Option<
    ProteusRestoreStatus,
>)
    ensures
        is_patch(*current, next.deep_view(), res),
{
    if status_changed(current.as_ref(), &next) {
        Some(next)
    } else {
        None
    }
}

/// Whether `action` ends the reconcile with a failed restore.
pub open spec fn fails_with(
    obj: ProteusRestore,
    message: Seq<char>,
    now_text: Seq<char>,
    secs: u64,
    action: RestoreAction,
) -> bool {
    &&& action matches RestoreAction::Finish { patch, requeue_secs }
    &&& is_patch(
        obj.status,
        terminal_view(obj.status_view(), Err(message), None, None, (None, None), now_text),
        patch,
    )
    &&& requeue_secs == secs
}

fn fail(obj: &ProteusRestore, message: String, at: Timestamp, secs: u64) -> (res: RestoreAction)
    requires
        at.valid(),
    ensures
        fails_with(*obj, message@, rfc3339_text(at.secs, at.nanos), secs, res),
{
    let status = terminal_status_at(obj, Err(message), None, None, at);
    RestoreAction::Finish { patch: patch_for(&obj.status, status), requeue_secs: secs }
}

/// Whether the node agent owns a restore and has not finished it.
pub open spec fn agent_owns(s: RestoreStatusView) -> bool {
    s.data_plane == Some(DataPlane::Agent) && (s.phase == Some(RestorePhase::Running)
        || s.phase is None)
}

/// Whether `action` is what the event calls for at the time `at`.
pub open spec fn reconciles(
    obj: ProteusRestore,
    event: RestoreEvent,
    at: Timestamp,
    action: RestoreAction,
) -> bool {
    let s = obj.status_view();
    let now_text = rfc3339_text(at.secs, at.nanos);
    match event {
        RestoreEvent::Start => {
            if s.phase matches Some(p) && p.terminal() {
                action matches RestoreAction::Requeue { requeue_secs } && requeue_secs == 3600
            } else if spec_fault(obj) is Some {
                fails_with(obj, spec_fault(obj)->0, now_text, 3600, action)
            } else if agent_owns(s) {
                action matches RestoreAction::Requeue { requeue_secs } && requeue_secs == 5
            } else {
                action is LoadInputs
            }
        },
        RestoreEvent::Inputs(Ok(inputs)) => {
            &&& action matches RestoreAction::SelectPlane { kind, namespace, pvc_names }
            &&& kind == inputs.kind
            &&& namespace@ == obj.spec.target_namespace@
            &&& pvc_names == inputs.recipe.pvc_names
        },
        RestoreEvent::Inputs(Err(m)) => fails_with(obj, m@, now_text, 3600, action),
        RestoreEvent::Plane(Err(m)) => fails_with(obj, m@, now_text, 3600, action),
        RestoreEvent::Plane(Ok(PlaneChoice::Agent { node })) => {
            &&& action matches RestoreAction::ProvisionIdentity { node: n, namespace }
            &&& n == node
            &&& namespace@ == obj.spec.target_namespace@
        },
        RestoreEvent::Plane(Ok(PlaneChoice::Exec { reason })) => {
            &&& action matches RestoreAction::Run { patch, run_started_at }
            &&& is_patch(
                obj.status,
                RestoreStatusView {
                    data_plane: Some(DataPlane::Exec),
                    message: Some("restore running ("@ + reason@ + ")"@),
                    ..running_view(s, now_text)
                },
                patch,
            )
            &&& opt_view(run_started_at) == Some(run_start(s, now_text))
        },
        RestoreEvent::Identity { node, result: Err(m) } => fails_with(
            obj,
            "failed to provision mover identity: "@ + m@,
            now_text,
            30,
            action,
        ),
        RestoreEvent::Identity { node, result: Ok(_) } => {
            &&& action matches RestoreAction::Finish { patch, requeue_secs }
            &&& is_patch(
                obj.status,
                RestoreStatusView {
                    data_plane: Some(DataPlane::Agent),
                    assigned_node: Some(node@),
                    message: Some(
                        "assigned to proteus-node-agent on '"@ + node@ + "' (dataPlane=agent)"@,
                    ),
                    ..running_view(s, now_text)
                },
                patch,
            )
            &&& requeue_secs == 5
        },
        RestoreEvent::Finished { outcome, run_started_at } => {
            &&& action matches RestoreAction::Finish { patch, requeue_secs }
            &&& is_patch(
                obj.status,
                RestoreStatusView {
                    data_plane: Some(DataPlane::Exec),
                    ..terminal_view(
                        s,
                        outcome_view(outcome),
                        opt_view(run_started_at),
                        None,
                        restore_timing(opt_view(run_started_at), None, at),
                        now_text,
                    )
                },
                patch,
            )
            &&& requeue_secs == 3600
        },
    }
}

/// What a reconcile of a restore does next, for what it has learned. A restore that is over is
/// never run again: a retry takes a new one. One that a node agent owns is left to it.
pub fn reconcile_restore(obj: &ProteusRestore, event: RestoreEvent, at: Timestamp) -> (res:
    RestoreAction)
    requires
        at.valid(),
    ensures
        reconciles(*obj, event, at, res),
{
    match event {
        RestoreEvent::Start => {
            let phase = current_phase(obj);
            if let Some(p) = phase {
                if p.is_terminal() {
                    return RestoreAction::Requeue { requeue_secs: 3600 };
                }
            }
            if let Err(m) = validate_spec(obj) {
                return fail(obj, m, at, 3600);
            }
            if let Some(s) = &obj.status {
                if s.data_plane == Some(DataPlane::Agent) && (phase == Some(RestorePhase::Running)
                    || phase.is_none()) {
                    return RestoreAction::Requeue { requeue_secs: 5 };
                }
            }
            RestoreAction::LoadInputs
        },
        RestoreEvent::Inputs(Ok(inputs)) => RestoreAction::SelectPlane {
            kind: inputs.kind,
            namespace: obj.spec.target_namespace.as_str().to_owned(),
            pvc_names: inputs.recipe.pvc_names,
        },
        RestoreEvent::Inputs(Err(m)) => fail(obj, m, at, 3600),
        RestoreEvent::Plane(Err(m)) => fail(obj, m, at, 3600),
        RestoreEvent::Plane(Ok(PlaneChoice::Agent { node })) => RestoreAction::ProvisionIdentity {
            node,
            namespace: obj.spec.target_namespace.as_str().to_owned(),
        },
        RestoreEvent::Plane(Ok(PlaneChoice::Exec { reason })) => {
            let base = running_status_at(obj, at);
            let running = ProteusRestoreStatus {
                data_plane: Some(DataPlane::Exec),
                message: Some(
                    String::from_str("restore running (").concat(reason.as_str()).concat(")"),
                ),
                ..base
            };
            let run_started_at = copy_option(&running.started_at);
            let patch = patch_for(&obj.status, running);
            RestoreAction::Run { patch, run_started_at }
        },
        RestoreEvent::Identity { node: _, result: Err(m) } => fail(
            obj,
            String::from_str("failed to provision mover identity: ").concat(m.as_str()),
            at,
            30,
        ),
        RestoreEvent::Identity { node, result: Ok(_) } => {
            let base = running_status_at(obj, at);
            let message = String::from_str("assigned to proteus-node-agent on '").concat(
                node.as_str(),
            ).concat("' (dataPlane=agent)");
            let running = ProteusRestoreStatus {
                data_plane: Some(DataPlane::Agent),
                assigned_node: Some(node),
                message: Some(message),
                ..base
            };
            RestoreAction::Finish { patch: patch_for(&obj.status, running), requeue_secs: 5 }
        },
        RestoreEvent::Finished { outcome, run_started_at } => {
            let started: Option<&str> = match &run_started_at {
                Some(s) => Some(s.as_str()),
                None => None,
            };
            let base = terminal_status_at(obj, outcome, started, None, at);
            let status = ProteusRestoreStatus { data_plane: Some(DataPlane::Exec), ..base };
            let requeue_secs: u64 = match status.phase {
                Some(RestorePhase::Succeeded) | Some(RestorePhase::Failed) => 3600,
                _ => 60,
            };
            RestoreAction::Finish { patch: patch_for(&obj.status, status), requeue_secs }
        },
    }
}

/// A restore that is over is never run again.
pub proof fn law_terminal_restore_is_never_rerun(
    obj: ProteusRestore,
    at: Timestamp,
    action: RestoreAction,
)
    requires
        obj.status_view().phase matches Some(p) && p.terminal(),
        reconciles(obj, RestoreEvent::Start, at, action),
    ensures
        action is Requeue,
{
}

/// A restore that a node agent owns is not run by the controller.
pub proof fn law_agent_restore_is_left_to_agent(
    obj: ProteusRestore,
    at: Timestamp,
    action: RestoreAction,
)
    requires
        agent_owns(obj.status_view()),
        spec_fault(obj) is None,
        reconciles(obj, RestoreEvent::Start, at, action),
    ensures
        action is Requeue,
{
}

/// Writing the same status again is never called for.
pub proof fn law_status_is_stable(s: RestoreStatusView)
    ensures
        !changed(Some(s), s),
{
}

/// Timestamps, progress and byte counts alone never call for a patch.
pub proof fn law_timestamps_do_not_trigger(cur: RestoreStatusView, next: RestoreStatusView)
    requires
        next == (RestoreStatusView {
            completed_at: next.completed_at,
            started_at: next.started_at,
            progress_percent: next.progress_percent,
            last_bytes: next.last_bytes,
            ..cur
        }),
    ensures
        !differs(cur, next),
{
}

/// A failed restore keeps the snapshot that was restored before.
pub proof fn law_failure_keeps_restored_snapshot(
    s: RestoreStatusView,
    message: Seq<char>,
    started_at: Option<Seq<char>>,
    last_bytes: Option<u64>,
    t: (Option<u64>, Option<u64>),
    finished_text: Seq<char>,
)
    ensures
        ({
            let next = terminal_view(s, Err(message), started_at, last_bytes, t, finished_text);
            &&& next.phase == Some(RestorePhase::Failed)
            &&& next.restored_snapshot_id == s.restored_snapshot_id
            &&& next.last_bytes == s.last_bytes
        }),
{
}

/// A status that is not written again says nothing new: phase, snapshot, plane, node and timing are
/// those that are recorded, and the message differs in its numbers at most.
pub proof fn law_unwritten_status_says_nothing_new(
    cur: ProteusRestoreStatus,
    next: ProteusRestoreStatus,
)
    requires
        !changed(Some(cur.deep_view()), next.deep_view()),
    ensures
        cur.phase == next.phase,
        opt_view(cur.restored_snapshot_id) == opt_view(next.restored_snapshot_id),
        cur.data_plane == next.data_plane,
        opt_view(cur.assigned_node) == opt_view(next.assigned_node),
        cur.duration_seconds == next.duration_seconds,
        cur.throughput_bytes_per_sec == next.throughput_bytes_per_sec,
        fingerprint_of(opt_view(cur.message)) == fingerprint_of(opt_view(next.message)),
{
}

/// A first status is always written.
pub proof fn law_first_status_is_written(next: ProteusRestoreStatus)
    ensures
        changed(None, next.deep_view()),
{
}

/// The snapshot that a status records as restored.
pub open spec fn restored_snapshot(status: Option<ProteusRestoreStatus>) -> Option<Seq<char>> {
    match status {
        Some(s) => opt_view(s.restored_snapshot_id),
        None => None,
    }
}

/// A restore that ended is recorded as it ended. Its status, as it is or as it is written, says
/// Succeeded exactly where the volumes were restored, and Failed exactly where they were not; the
/// recorded snapshot becomes the restored one on a success and stays as it was on a failure. What
/// is written of a failure is its message.
pub proof fn law_finished_restore_records_its_outcome(
    obj: ProteusRestore,
    outcome: Result<String, String>,
    run_started_at: Option<String>,
    at: Timestamp,
    action: RestoreAction,
)
    requires
        reconciles(obj, RestoreEvent::Finished { outcome, run_started_at }, at, action),
    ensures
        ({
            &&& action matches RestoreAction::Finish { patch, requeue_secs }
            &&& requeue_secs == 3600
            &&& ({
                let after = if patch is Some {
                    patch
                } else {
                    obj.status
                };
                &&& after is Some
                &&& after->0.phase == Some(RestorePhase::Succeeded) <==> outcome is Ok
                &&& after->0.phase == Some(RestorePhase::Failed) <==> outcome is Err
                &&& after->0.data_plane == Some(DataPlane::Exec)
                &&& restored_snapshot(after) == (match outcome {
                    Ok(id) => Some(id@),
                    Err(_) => restored_snapshot(obj.status),
                })
            })
            &&& patch matches Some(p) ==> {
                &&& opt_view(p.completed_at) == Some(rfc3339_text(at.secs, at.nanos))
                &&& run_started_at is Some ==> opt_view(p.started_at) == opt_view(run_started_at)
                &&& match outcome {
                    Ok(id) => p.progress_percent == Some(100u8) && opt_view(p.message) == Some(
                        "restore succeeded from snapshot "@ + id@,
                    ),
                    Err(m) => opt_view(p.message) == Some(m@) && p.duration_seconds is None
                        && p.progress_percent == (match obj.status {
                        Some(s) => s.progress_percent,
                        None => None,
                    }),
                }
            }
        }),
{
}

/// The seconds of a restore that succeeded are those from its start to its end, and at least one; a
/// start that cannot be read gives none.
pub proof fn law_finished_restore_records_its_timing(
    obj: ProteusRestore,
    outcome: Result<String, String>,
    run_started_at: Option<String>,
    at: Timestamp,
    action: RestoreAction,
)
    requires
        reconciles(obj, RestoreEvent::Finished { outcome, run_started_at }, at, action),
        outcome is Ok,
        action->Finish_patch is Some,
    ensures
        ({
            let p = action->Finish_patch->0;
            let start = match run_started_at {
                Some(t) => rfc3339_value(t@),
                None => None,
            };
            match start {
                Some((secs, nanos)) => {
                    let took = elapsed(at.secs, at.nanos, secs, nanos);
                    let d = if took < 1 {
                        1
                    } else {
                        took
                    };
                    p.duration_seconds == Some(d as u64)
                },
                None => p.duration_seconds is None && p.throughput_bytes_per_sec is None,
            }
        }),
{
}

/// Whatever stops a restore before it ran fails it with the reason, and nothing is restored: a
/// source that cannot be had, a plane that cannot be chosen, an identity that cannot be had. Only
/// the last is tried again soon.
pub proof fn law_stopped_restore_fails_with_the_reason(
    obj: ProteusRestore,
    event: RestoreEvent,
    at: Timestamp,
    action: RestoreAction,
)
    requires
        reconciles(obj, event, at, action),
        ({
            ||| event matches RestoreEvent::Inputs(Err(_))
            ||| event matches RestoreEvent::Plane(Err(_))
            ||| event matches RestoreEvent::Identity { result: Err(_), .. }
        }),
    ensures
        ({
            let reason = match event {
                RestoreEvent::Inputs(Err(m)) => m@,
                RestoreEvent::Plane(Err(m)) => m@,
                RestoreEvent::Identity { result: Err(m), .. } =>
                    "failed to provision mover identity: "@ + m@,
                _ => seq![],
            };
            &&& action matches RestoreAction::Finish { patch, requeue_secs }
            &&& requeue_secs == (if event is Identity {
                30u64
            } else {
                3600u64
            })
            &&& ({
                let after = if patch is Some {
                    patch
                } else {
                    obj.status
                };
                &&& after is Some
                &&& after->0.phase == Some(RestorePhase::Failed)
                &&& restored_snapshot(after) == restored_snapshot(obj.status)
            })
            &&& patch matches Some(p) ==> opt_view(p.message) == Some(reason)
        }),
{
}

/// A restore that comes up is looked into unless it is over, cannot be meant or is an agent's. One
/// without a source or a target fails at once.
pub proof fn law_new_restore_is_looked_into(
    obj: ProteusRestore,
    at: Timestamp,
    action: RestoreAction,
)
    requires
        reconciles(obj, RestoreEvent::Start, at, action),
        obj.status matches Some(s) ==> s.phase != Some(RestorePhase::Succeeded) && s.phase != Some(
            RestorePhase::Failed,
        ),
    ensures
        blank(obj.spec.backup_ref@) || blank(obj.spec.target_namespace@) ==> (action matches
            RestoreAction::Finish { patch, requeue_secs } && (patch matches Some(p) ==> p.phase
            == Some(RestorePhase::Failed) && p.message is Some)),
        !blank(obj.spec.backup_ref@) && !blank(obj.spec.target_namespace@) ==> (
        action is LoadInputs <==> !(obj.status matches Some(s) && s.data_plane == Some(
            DataPlane::Agent,
        ) && (s.phase == Some(RestorePhase::Running) || s.phase is None))),
        !blank(obj.spec.backup_ref@) && !blank(obj.spec.target_namespace@) ==> action is LoadInputs
            || action is Requeue,
        action matches RestoreAction::Requeue { requeue_secs } ==> requeue_secs == 5,
{
}

/// A restore that succeeded or failed is left alone.
pub proof fn law_ended_restore_is_over(obj: ProteusRestore, at: Timestamp, action: RestoreAction)
    requires
        reconciles(obj, RestoreEvent::Start, at, action),
        obj.status matches Some(s) && (s.phase == Some(RestorePhase::Succeeded) || s.phase == Some(
            RestorePhase::Failed,
        )),
    ensures
        action is Requeue,
{
}

/// The plane is chosen for the claims of the source's recipe in the namespace that the restore
/// targets, and for the repository that the source is in.
pub proof fn law_plane_is_chosen_for_the_target(
    obj: ProteusRestore,
    inputs: RestoreInputs,
    at: Timestamp,
    action: RestoreAction,
)
    requires
        reconciles(obj, RestoreEvent::Inputs(Ok(inputs)), at, action),
    ensures
        action matches RestoreAction::SelectPlane { kind, namespace, pvc_names } && kind
            == inputs.kind && namespace@ == obj.spec.target_namespace@ && pvc_names@
            == inputs.recipe.pvc_names@,
{
}

/// A restore goes the way of its plane: on the exec plane it runs here, recorded as running there
/// since its start; for the agent plane the identity of movers is provided first, and the restore
/// is then recorded as running on that node, for the agent to do.
pub proof fn law_restore_goes_the_way_of_its_plane(
    obj: ProteusRestore,
    event: RestoreEvent,
    at: Timestamp,
    action: RestoreAction,
)
    requires
        reconciles(obj, event, at, action),
    ensures
        event matches RestoreEvent::Plane(Ok(PlaneChoice::Exec { .. })) ==> {
            &&& action matches RestoreAction::Run { patch, run_started_at }
            &&& ({
                let after = if patch is Some {
                    patch
                } else {
                    obj.status
                };
                &&& after is Some
                &&& after->0.phase == Some(RestorePhase::Running)
                &&& after->0.data_plane == Some(DataPlane::Exec)
                &&& restored_snapshot(after) == restored_snapshot(obj.status)
            })
            &&& opt_view(run_started_at) == (match obj.status {
                Some(s) => if s.phase == Some(RestorePhase::Running) && s.started_at is Some {
                    opt_view(s.started_at)
                } else {
                    Some(rfc3339_text(at.secs, at.nanos))
                },
                None => Some(rfc3339_text(at.secs, at.nanos)),
            })
            &&& patch matches Some(p) ==> opt_view(p.started_at) == opt_view(run_started_at)
                && p.completed_at is None
        },
        event matches RestoreEvent::Plane(Ok(PlaneChoice::Agent { node })) ==> (action matches
            RestoreAction::ProvisionIdentity { node: n, namespace } && n@ == node@ && namespace@
            == obj.spec.target_namespace@),
        event matches RestoreEvent::Identity { node, result: Ok(_) } ==> {
            &&& action matches RestoreAction::Finish { patch, requeue_secs }
            &&& requeue_secs == 5
            &&& ({
                let after = if patch is Some {
                    patch
                } else {
                    obj.status
                };
                &&& after is Some
                &&& after->0.phase == Some(RestorePhase::Running)
                &&& after->0.data_plane == Some(DataPlane::Agent)
                &&& opt_view(after->0.assigned_node) == Some(node@)
                &&& restored_snapshot(after) == restored_snapshot(obj.status)
            })
        },
{
}

/// The namespace of the source backup: the one the restore names, else its own.
pub open spec fn source_namespace_of(restore: ProteusRestore, restore_namespace: Seq<char>) -> Seq<
    char,
> {
    match restore.spec.backup_namespace {
        Some(ns) => ns@,
        None => restore_namespace,
    }
}

/// The namespace of the source backup: the one the restore names, else its own.
pub fn source_namespace(restore: &ProteusRestore, restore_namespace: &str) -> (res: String)
    ensures
        res@ == source_namespace_of(*restore, restore_namespace@),
{
    match &restore.spec.backup_namespace {
        Some(ns) => ns.clone(),
        None => restore_namespace.to_owned(),
    }
}

/// An optional phase as it is shown in a message.
pub open spec fn shown_phase(phase: Option<BackupPhase>) -> Seq<char> {
    match phase {
        Some(p) => "Some("@ + p.text() + ")"@,
        None => "None"@,
    }
}

pub(crate) fn show_phase(phase: Option<BackupPhase>) -> (res: String)
    ensures
        res@ == shown_phase(phase),
{
    match phase {
        Some(p) => String::from_str("Some(").concat(p.label().as_str()).concat(")"),
        None => String::from_str("None"),
    }
}

/// Accepts the source backup that was fetched, where it succeeded: restoring from one that never
/// finished would restore garbage or nothing.
pub fn resolve_backup(
    restore: &ProteusRestore,
    backup_ns: &str,
    fetched: Result<ProteusBackup, String>,
) -> (res: Result<ProteusBackup, String>)
    ensures
        match fetched {
            Err(e) => res matches Err(m) && m@ == "backup '"@ + restore.spec.backup_ref@
                + "' not found in namespace '"@ + backup_ns@ + "': "@ + e@,
            Ok(b) => if b.status_view().phase == Some(BackupPhase::Succeeded) {
                res == Ok::<ProteusBackup, String>(b)
            } else {
                res matches Err(m) && m@ == "backup '"@ + restore.spec.backup_ref@
                    + "' in namespace '"@ + backup_ns@ + "' is not Succeeded (phase="@
                    + shown_phase(b.status_view().phase) + ")"@
            },
        },
{
    match fetched {
        Ok(b) => {
            let phase = crate::backup_run::current_phase(&b);
            if phase == Some(BackupPhase::Succeeded) {
                Ok(b)
            } else {
                Err(
                    String::from_str("backup '").concat(restore.spec.backup_ref.as_str()).concat(
                        "' in namespace '",
                    ).concat(backup_ns).concat("' is not Succeeded (phase=").concat(
                        show_phase(phase).as_str(),
                    ).concat(")"),
                )
            }
        },
        Err(e) => Err(
            String::from_str("backup '").concat(restore.spec.backup_ref.as_str()).concat(
                "' not found in namespace '",
            ).concat(backup_ns).concat("': ").concat(e.as_str()),
        ),
    }
}

/// The snapshot that a restore asks for, else the backup's last one.
pub open spec fn snapshot_choice(restore: ProteusRestore, backup: ProteusBackup) -> Option<
    Seq<char>,
> {
    match restore.spec.snapshot_id {
        Some(id) => if blank(id@) {
            backup.status_view().last_snapshot_id
        } else {
            Some(id@)
        },
        None => backup.status_view().last_snapshot_id,
    }
}

/// The snapshot that a restore asks for, else the backup's last one.
pub fn choose_snapshot(restore: &ProteusRestore, backup: &ProteusBackup) -> (res: Option<String>)
    ensures
        opt_view(res) == snapshot_choice(*restore, *backup),
{
    if let Some(id) = &restore.spec.snapshot_id {
        if !is_blank(id.as_str()) {
            return Some(id.clone());
        }
    }
    match &backup.status {
        Some(s) => copy_option(&s.last_snapshot_id),
        None => None,
    }
}

/// `spec.snapshotId` wins when set; otherwise the backup's latest snapshot.
pub fn resolve_snapshot_id(restore: &ProteusRestore, backup: &ProteusBackup) -> (res: Result<
    String,
    String,
>)
    ensures
        match snapshot_choice(*restore, *backup) {
            Some(id) => res matches Ok(s) && s@ == id,
            None => res matches Err(m) && m@ == "backup '"@ + restore.spec.backup_ref@
                + "' has no snapshot id (set spec.snapshotId, or wait for a successful backup run)"@,
        },
{
    match choose_snapshot(restore, backup) {
        Some(id) => Ok(id),
        None => Err(
            String::from_str("backup '").concat(restore.spec.backup_ref.as_str()).concat(
                "' has no snapshot id (set spec.snapshotId, or wait for a successful backup run)",
            ),
        ),
    }
}

/// What a loaded snapshot is restored with.
pub struct RestorePlan {
    pub snapshot_id: String,
    pub manifest: SnapshotManifest,
    /// Whether the repository's key is applied to the chunks.
    pub decrypt: bool,
}

/// Accepts a loaded snapshot for a restore. Chunks are decrypted only where the manifest says that
/// they are ciphertext: a key that a repository got later is not applied to older plaintext.
pub fn plan_restore(
    snapshot_id: &str,
    repository_ref: &str,
    has_key: bool,
    loaded: CoreResult<SnapshotManifest>,
) -> (res: Result<RestorePlan, String>)
    ensures
        match loaded {
            Err(e) => res matches Err(m) && m@ == "failed to load snapshot '"@ + snapshot_id@
                + "': "@ + e.text(),
            Ok(manifest) => if manifest.encrypted && !has_key {
                res matches Err(m) && m@ == "snapshot '"@ + snapshot_id@
                    + "' is encrypted but repository '"@ + repository_ref@
                    + "' has no key configured"@
            } else if manifest.volumes@.len() == 0 {
                res matches Err(m) && m@ == "snapshot '"@ + snapshot_id@
                    + "' contains no volumes to restore"@
            } else {
                res matches Ok(p) && p.snapshot_id@ == snapshot_id@ && p.manifest == manifest
                    && p.decrypt == manifest.encrypted
            },
        },
{
    match loaded {
        Err(e) => Err(
            String::from_str("failed to load snapshot '").concat(snapshot_id).concat("': ").concat(
                e.message().as_str(),
            ),
        ),
        Ok(manifest) => {
            if manifest.encrypted && !has_key {
                return Err(
                    String::from_str("snapshot '").concat(snapshot_id).concat(
                        "' is encrypted but repository '",
                    ).concat(repository_ref).concat("' has no key configured"),
                );
            }
            if manifest.volumes.len() == 0 {
                return Err(
                    String::from_str("snapshot '").concat(snapshot_id).concat(
                        "' contains no volumes to restore",
                    ),
                );
            }
            let decrypt = manifest.encrypted;
            Ok(RestorePlan { snapshot_id: String::from_str(snapshot_id), manifest, decrypt })
        },
    }
}

/// A step of a restore that writes the volumes of a snapshot back, one after the other.
pub enum VolumeEvent {
    /// The restore begins.
    Begin,
    /// The payload of the current volume was read, or could not be.
    Read(CoreResult<()>),
    /// The payload of the current volume was written, or could not be.
    Written(Result<(), String>),
}

/// What a restore of volumes does next.
pub enum VolumeAction {
    /// Read the payload of the volume at this index, through the repository's key where `decrypt`
    /// is set.
    Read { index: usize, decrypt: bool },
    /// Write the payload of the volume at this index to this claim of the namespace; data that is
    /// there gives way where `overwrite` is set.
    Write { index: usize, pvc_name: String, namespace: String, overwrite: bool },
    /// Every volume of the snapshot is restored.
    Done { snapshot_id: String },
    /// The restore fails.
    Fail(String),
}

/// Whether `action` is what a restore by `plan` does next at `index`, for what happened last.
pub open spec fn restores(
    restore: ProteusRestore,
    plan: RestorePlan,
    index: usize,
    event: VolumeEvent,
    action: VolumeAction,
) -> bool {
    let volumes = plan.manifest.volumes@;
    let pvc = volumes[index as int].pvc_name@;
    match event {
        VolumeEvent::Begin => {
            &&& action matches VolumeAction::Read { index: i, decrypt }
            &&& i == index
            &&& decrypt == plan.decrypt
        },
        VolumeEvent::Read(Ok(_)) => {
            &&& action matches VolumeAction::Write { index: i, pvc_name, namespace, overwrite }
            &&& i == index
            &&& pvc_name@ == pvc
            &&& namespace@ == restore.spec.target_namespace@
            &&& overwrite == restore.spec.overwrite
        },
        VolumeEvent::Read(Err(e)) => action matches VolumeAction::Fail(m) && m@ == "PVC '"@ + pvc
            + "': failed to materialize snapshot data: "@ + e.text(),
        VolumeEvent::Written(Ok(_)) => if index + 1 < volumes.len() {
            &&& action matches VolumeAction::Read { index: i, decrypt }
            &&& i == index + 1
            &&& decrypt == plan.decrypt
        } else {
            action matches VolumeAction::Done { snapshot_id } && snapshot_id@ == plan.snapshot_id@
        },
        VolumeEvent::Written(Err(e)) => action matches VolumeAction::Fail(m) && m@ == "PVC '"@
            + pvc + "': "@ + e@,
    }
}

/// What a restore by `plan` does next at `index`, for what happened last.
pub fn run_restore(
    restore: &ProteusRestore,
    plan: &RestorePlan,
    index: usize,
    event: VolumeEvent,
) -> (res: VolumeAction)
    requires
        index < plan.manifest.volumes@.len(),
    ensures
        restores(*restore, *plan, index, event, res),
{
    let volumes = &plan.manifest.volumes;
    let pvc_name = volumes[index].pvc_name.as_str();
    match event {
        VolumeEvent::Begin => VolumeAction::Read { index, decrypt: plan.decrypt },
        VolumeEvent::Read(Ok(_)) => VolumeAction::Write {
            index,
            pvc_name: String::from_str(pvc_name),
            namespace: restore.spec.target_namespace.clone(),
            overwrite: restore.spec.overwrite,
        },
        VolumeEvent::Read(Err(e)) => VolumeAction::Fail(
            String::from_str("PVC '").concat(pvc_name).concat(
                "': failed to materialize snapshot data: ",
            ).concat(e.message().as_str()),
        ),
        VolumeEvent::Written(Ok(_)) => {
            if volumes.len() - index > 1 {
                VolumeAction::Read { index: index + 1, decrypt: plan.decrypt }
            } else {
                VolumeAction::Done { snapshot_id: plan.snapshot_id.clone() }
            }
        },
        VolumeEvent::Written(Err(e)) => VolumeAction::Fail(
            String::from_str("PVC '").concat(pvc_name).concat("': ").concat(e.as_str()),
        ),
    }
}

/// A restore is done only once the last volume was written, and reports the snapshot of its plan.
pub proof fn law_restore_ends_after_last_volume(
    restore: ProteusRestore,
    plan: RestorePlan,
    index: usize,
    event: VolumeEvent,
    action: VolumeAction,
)
    requires
        index < plan.manifest.volumes@.len(),
        restores(restore, plan, index, event, action),
        action is Done,
    ensures
        event matches VolumeEvent::Written(Ok(_)),
        index + 1 == plan.manifest.volumes@.len(),
        action->snapshot_id@ == plan.snapshot_id@,
{
}

/// Whether the step at `k` answers the one before it, and what was done next is what it calls for.
pub open spec fn step_ran(
    restore: ProteusRestore,
    plan: RestorePlan,
    steps: Seq<(usize, VolumeEvent, VolumeAction)>,
    k: int,
) -> bool {
    let (index, event, action) = steps[k];
    &&& index < plan.manifest.volumes@.len()
    &&& restores(restore, plan, index, event, action)
    &&& if k == 0 {
        index == 0 && event is Begin
    } else {
        follows(steps[k - 1].2, index, event)
    }
}

/// Whether a restore by `plan` went through `steps`: an index, what happened there, and what was
/// done next.
pub open spec fn restore_ran(
    restore: ProteusRestore,
    plan: RestorePlan,
    steps: Seq<(usize, VolumeEvent, VolumeAction)>,
) -> bool {
    &&& steps.len() > 0
    &&& forall|k: int| 0 <= k < steps.len() ==> #[trigger] step_ran(restore, plan, steps, k)
}

/// Whether the event at `index` is one that answers `action`.
pub open spec fn follows(action: VolumeAction, index: usize, event: VolumeEvent) -> bool {
    match action {
        VolumeAction::Read { index: i, .. } => index == i && event is Read,
        VolumeAction::Write { index: i, .. } => index == i && event is Written,
        _ => false,
    }
}

/// Whether the volume at `i` was written to its claim in the namespace that the restore names.
pub open spec fn was_written(
    restore: ProteusRestore,
    plan: RestorePlan,
    steps: Seq<(usize, VolumeEvent, VolumeAction)>,
    i: int,
) -> bool {
    let k = 2 * i + 1;
    &&& k + 1 < steps.len()
    &&& steps[k].2 matches VolumeAction::Write { index, pvc_name, namespace, overwrite }
    &&& index == i
    &&& pvc_name@ == plan.manifest.volumes@[i].pvc_name@
    &&& namespace@ == restore.spec.target_namespace@
    &&& overwrite == restore.spec.overwrite
    &&& steps[k + 1].1 matches VolumeEvent::Written(Ok(_))
}

proof fn lemma_restore_run(
    restore: ProteusRestore,
    plan: RestorePlan,
    steps: Seq<(usize, VolumeEvent, VolumeAction)>,
    k: int,
)
    requires
        restore_ran(restore, plan, steps),
        0 <= k < steps.len(),
    ensures
        k == 0 ==> steps[k].1 is Begin,
        k > 0 && k % 2 == 1 ==> steps[k].1 is Read,
        k > 0 && k % 2 == 0 ==> steps[k].1 is Written,
        steps[k].0 == (if k == 0 {
            0
        } else {
            (k - 1) / 2
        }),
        0 < k < steps.len() - 1 && k % 2 == 1 ==> steps[k].1 matches VolumeEvent::Read(Ok(_)),
        0 < k < steps.len() - 1 && k % 2 == 0 ==> steps[k].1 matches VolumeEvent::Written(Ok(_)),
    decreases k,
{
    assert(step_ran(restore, plan, steps, k));
    if k > 0 {
        lemma_restore_run(restore, plan, steps, k - 1);
        assert(step_ran(restore, plan, steps, k - 1));
    }
    if k < steps.len() - 1 {
        assert(step_ran(restore, plan, steps, k + 1));
    }
}

/// A restore that ended well wrote every volume of the snapshot, in order, to the claim of its name
/// in the namespace that the restore names, and overwrote data only as it asks.
pub proof fn law_finished_restore_wrote_every_volume(
    restore: ProteusRestore,
    plan: RestorePlan,
    steps: Seq<(usize, VolumeEvent, VolumeAction)>,
)
    requires
        restore_ran(restore, plan, steps),
        steps.last().2 is Done,
    ensures
        steps.last().2->snapshot_id@ == plan.snapshot_id@,
        steps.len() == 2 * plan.manifest.volumes@.len() + 1,
        forall|i: int|
            0 <= i < plan.manifest.volumes@.len() ==> #[trigger] was_written(
                restore,
                plan,
                steps,
                i,
            ),
{
    let volumes = plan.manifest.volumes@;
    let n = steps.len() - 1;
    lemma_restore_run(restore, plan, steps, n);
    assert(step_ran(restore, plan, steps, n));
    law_restore_ends_after_last_volume(restore, plan, steps[n].0, steps[n].1, steps[n].2);
    assert forall|i: int| 0 <= i < volumes.len() implies #[trigger] was_written(
        restore,
        plan,
        steps,
        i,
    ) by {
        let k = 2 * i + 1;
        lemma_restore_run(restore, plan, steps, k);
        lemma_restore_run(restore, plan, steps, k + 1);
        assert(step_ran(restore, plan, steps, k));
        assert(step_ran(restore, plan, steps, k + 1));
    }
}

/// The snapshot that a restore names is the one that is taken, whatever the backup's last one is;
/// where it names none, or a blank one, the backup's last one is.
pub proof fn law_named_snapshot_wins(restore: ProteusRestore, backup: ProteusBackup)
    ensures
        restore.spec.snapshot_id matches Some(id) && !blank(id@) ==> snapshot_choice(restore, backup)
            == opt_view(restore.spec.snapshot_id),
        restore.spec.snapshot_id is None || blank(restore.spec.snapshot_id->0@) ==> snapshot_choice(
            restore,
            backup,
        ) == (match backup.status {
            Some(s) => opt_view(s.last_snapshot_id),
            None => None,
        }),
{
}

/// The source is looked for in the namespace that the restore names, else in its own.
pub proof fn law_source_is_looked_for_where_named(restore: ProteusRestore, own: Seq<char>)
    ensures
        restore.spec.backup_namespace matches Some(ns) ==> source_namespace_of(restore, own) == ns@,
        restore.spec.backup_namespace is None ==> source_namespace_of(restore, own) == own,
{
}

/// A restore goes on while its volumes go well: a volume that was read is written to the claim of
/// its name in the target namespace, and after one that was written the next is read, until the
/// last. What goes wrong with a volume fails the restore, and the claim is named.
pub proof fn law_restore_goes_on_while_volumes_go_well(
    restore: ProteusRestore,
    plan: RestorePlan,
    index: usize,
    event: VolumeEvent,
    action: VolumeAction,
)
    requires
        index < plan.manifest.volumes@.len(),
        restores(restore, plan, index, event, action),
    ensures
        event is Begin ==> (action matches VolumeAction::Read { index: i, decrypt } && i == index
            && decrypt == plan.decrypt),
        event matches VolumeEvent::Read(Ok(_)) ==> (action matches VolumeAction::Write {
            index: i,
            pvc_name,
            namespace,
            overwrite,
        } && i == index && pvc_name@ == plan.manifest.volumes@[index as int].pvc_name@
            && namespace@ == restore.spec.target_namespace@ && overwrite == restore.spec.overwrite),
        event matches VolumeEvent::Written(Ok(_)) && index + 1 < plan.manifest.volumes@.len() ==> (
        action matches VolumeAction::Read { index: i, decrypt } && i == index + 1 && decrypt
            == plan.decrypt),
        event matches VolumeEvent::Written(Ok(_)) && index + 1 == plan.manifest.volumes@.len() ==> (
        action matches VolumeAction::Done { snapshot_id } && snapshot_id@ == plan.snapshot_id@),
        (event matches VolumeEvent::Read(Err(_)) || event matches VolumeEvent::Written(Err(_))) ==> (
        action matches VolumeAction::Fail(m) && ("PVC '"@ + plan.manifest.volumes@[index as int]
            .pvc_name@ + "': "@).is_prefix_of(m@)),
        event matches VolumeEvent::Written(Err(e)) ==> (action matches VolumeAction::Fail(m)
            && e@.is_suffix_of(m@)),
        event matches VolumeEvent::Read(Err(e)) ==> (action matches VolumeAction::Fail(m)
            && e.text().is_suffix_of(m@)),
{
    if let VolumeAction::Fail(m) = action {
        let head = "PVC '"@ + plan.manifest.volumes@[index as int].pvc_name@ + "': "@;
        reveal_strlit("': ");
        reveal_strlit("': failed to materialize snapshot data: ");
        assert(m@.subrange(0, head.len() as int) =~= head);
        match event {
            VolumeEvent::Written(Err(e)) => {
                assert(m@.subrange(m@.len() - e@.len(), m@.len() as int) =~= e@);
            },
            VolumeEvent::Read(Err(e)) => {
                assert(m@.subrange(m@.len() - e.text().len(), m@.len() as int) =~= e.text());
            },
            _ => {},
        }
    }
}

/// A restore can be run exactly where it names a backup and a namespace.
pub proof fn law_complete_restores_can_be_run(obj: ProteusRestore)
    ensures
        spec_fault(obj) is None <==> !blank(obj.spec.backup_ref@) && !blank(
            obj.spec.target_namespace@,
        ),
{
}

/// A phase is shown with its label.
pub proof fn law_shown_phase_has_its_label(phase: BackupPhase, other: BackupPhase)
    ensures
        shown_phase(Some(phase)) == shown_phase(Some(other)) ==> phase == other,
        shown_phase(Some(phase)) != shown_phase(None),
{
    reveal_strlit("Some(");
    reveal_strlit(")");
    reveal_strlit("None");
    let a = shown_phase(Some(phase));
    let b = shown_phase(Some(other));
    assert(a[0] == 'S' && "None"@[0] == 'N');
    assert(a.subrange(5, a.len() - 1) =~= phase.text());
    assert(b.subrange(5, b.len() - 1) =~= other.text());
    crate::crd::law_labels_tell_values_apart(
        phase,
        other,
        crate::crd::RestorePhase::Pending,
        crate::crd::RestorePhase::Pending,
        crate::crd::BackupPolicyPhase::Ready,
        crate::crd::BackupPolicyPhase::Ready,
        crate::crd::DataPlane::Exec,
        crate::crd::DataPlane::Exec,
    );
}

} // verus!
