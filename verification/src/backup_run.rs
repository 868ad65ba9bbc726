//! The life of a backup run: its status from start to end, and what a reconcile does next.
use crate::clock::{elapsed, now, rfc3339, rfc3339_text, rfc3339_value, Timestamp};
use crate::crd::{BackupPhase, BackupStatusView, ProteusBackup, ProteusBackupStatus};
use crate::fingerprint::{fingerprint_of, option_fingerprint};
use crate::recipe::{BackupRecipe, ResolveRecipeError};
use crate::text::{
    copy_option, decimal, decimal_text, opt_view, same_option, same_text, str_view, text_option,
};
use crate::timing::{compute_throughput, run_seconds, timing};
use vstd::prelude::*;

verus! {

/// The phase that the status records.
pub fn current_phase(obj: &ProteusBackup) -> (res: Option<BackupPhase>)
    ensures
        res == obj.status_view().phase,
{
    match &obj.status {
        Some(s) => s.phase,
        None => None,
    }
}

/// What of a status outlives the run it was written in: everything but phase, message and the
/// plane it ran on.
pub open spec fn carried(s: BackupStatusView) -> BackupStatusView {
    BackupStatusView { phase: None, message: None, data_plane: None, assigned_node: None, ..s }
}

/// What of the status is carried into the next one.
pub fn carry_forward(obj: &ProteusBackup) -> (res: ProteusBackupStatus)
    ensures
        res.deep_view() == carried(obj.status_view()),
{
    match &obj.status {
        Some(s) => ProteusBackupStatus {
            last_snapshot_id: copy_option(&s.last_snapshot_id),
            last_success_at: copy_option(&s.last_success_at),
            last_failure_at: copy_option(&s.last_failure_at),
            last_bytes: s.last_bytes,
            retained_snapshots: s.retained_snapshots,
            started_at: copy_option(&s.started_at),
            duration_seconds: s.duration_seconds,
            throughput_bytes_per_sec: s.throughput_bytes_per_sec,
            progress_percent: s.progress_percent,
            ..ProteusBackupStatus::default()
        },
        None => ProteusBackupStatus::default(),
    }
}

/// The status of a run that waits for its policy.
pub open spec fn waiting_view(s: BackupStatusView, message: Seq<char>) -> BackupStatusView {
    BackupStatusView {
        phase: Some(BackupPhase::Pending),
        message: Some(message),
        progress_percent: Some(0),
        ..carried(s)
    }
}

/// The status of a run that waits for its policy.
pub fn waiting_policy_status(obj: &ProteusBackup, message: &str) -> (res: ProteusBackupStatus)
    ensures
        res.deep_view() == waiting_view(obj.status_view(), message@),
{
    ProteusBackupStatus {
        phase: Some(BackupPhase::Pending),
        message: Some(message.to_owned()),
        progress_percent: Some(0),
        ..carry_forward(obj)
    }
}

/// When a run that is running now started: it resumes the recorded start where it was running
/// already.
pub open spec fn run_start(s: BackupStatusView, now_text: Seq<char>) -> Seq<char> {
    if s.phase == Some(BackupPhase::Running) && s.started_at is Some {
        s.started_at->0
    } else {
        now_text
    }
}

/// The status of a run that starts, or resumes, now.
pub open spec fn running_view(s: BackupStatusView, now_text: Seq<char>) -> BackupStatusView {
    BackupStatusView {
        phase: Some(BackupPhase::Running),
        message: Some("backup starting"@),
        progress_percent: Some(0),
        started_at: Some(run_start(s, now_text)),
        duration_seconds: None,
        throughput_bytes_per_sec: None,
        ..carried(s)
    }
}

/// The status of a run that starts, or resumes, at `at`. The previous run's timing is not shown
/// while this one is in progress.
pub fn running_status_at(obj: &ProteusBackup, at: Timestamp) -> (res: ProteusBackupStatus)
    requires
        at.valid(),
    ensures
        res.deep_view() == running_view(obj.status_view(), rfc3339_text(at.secs, at.nanos)),
{
    let resumed: Option<String> = match &obj.status {
        Some(s) => if s.phase == Some(BackupPhase::Running) {
            copy_option(&s.started_at)
        } else {
            None
        },
        None => None,
    };
    let started_at = match resumed {
        Some(t) => t,
        None => rfc3339(at),
    };
    ProteusBackupStatus {
        phase: Some(BackupPhase::Running),
        message: Some(String::from_str("backup starting")),
        progress_percent: Some(0),
        started_at: Some(started_at),
        duration_seconds: None,
        throughput_bytes_per_sec: None,
        ..carry_forward(obj)
    }
}

/// The status of a run that starts, or resumes, now.
pub fn running_status(obj: &ProteusBackup) -> (res: ProteusBackupStatus)
    ensures
        exists|at: Timestamp|
            at.valid() && res.deep_view() == running_view(
                obj.status_view(),
                #[trigger] rfc3339_text(at.secs, at.nanos),
            ),
{
    let at = now();
    running_status_at(obj, at)
}

/// The message of a run that succeeded.
pub open spec fn success_text(bytes: u64, t: (Option<u64>, Option<u64>)) -> Seq<char> {
    match t {
        (Some(secs), Some(bps)) => "backup succeeded ("@ + decimal(bytes as nat) + " bytes in "@
            + decimal(secs as nat) + "s, ~"@ + decimal(bps as nat) + " B/s)"@,
        _ => "backup succeeded ("@ + decimal(bytes as nat) + " bytes)"@,
    }
}

fn success_message(bytes: u64, t: (Option<u64>, Option<u64>)) -> (res: String)
    ensures
        res@ == success_text(bytes, t),
{
    match t {
        (Some(secs), Some(bps)) => String::from_str("backup succeeded (").concat(
            decimal_text(bytes).as_str(),
        ).concat(" bytes in ").concat(decimal_text(secs).as_str()).concat("s, ~").concat(
            decimal_text(bps).as_str(),
        ).concat(" B/s)"),
        _ => String::from_str("backup succeeded (").concat(decimal_text(bytes).as_str()).concat(
            " bytes)",
        ),
    }
}

/// The outcome of a run: snapshot id and bytes, or what went wrong.
pub open spec fn outcome_view(outcome: Result<(String, u64), String>) -> Result<
    (Seq<char>, u64),
    Seq<char>,
> {
    match outcome {
        Ok((id, bytes)) => Ok((id@, bytes)),
        Err(m) => Err(m@),
    }
}

/// The status of a run that ended, with `timing` for one that succeeded.
pub open spec fn terminal_view(
    s: BackupStatusView,
    outcome: Result<(Seq<char>, u64), Seq<char>>,
    started_at: Option<Seq<char>>,
    t: (Option<u64>, Option<u64>),
    finished_text: Seq<char>,
) -> BackupStatusView {
    match outcome {
        Ok((id, bytes)) => BackupStatusView {
            phase: Some(BackupPhase::Succeeded),
            message: Some(success_text(bytes, t)),
            last_snapshot_id: Some(id),
            last_success_at: Some(finished_text),
            last_bytes: Some(bytes),
            progress_percent: Some(100),
            started_at,
            duration_seconds: t.0,
            throughput_bytes_per_sec: t.1,
            ..carried(s)
        },
        Err(message) => BackupStatusView {
            phase: Some(BackupPhase::Failed),
            message: Some(message),
            last_failure_at: Some(finished_text),
            started_at: if started_at is Some {
                started_at
            } else {
                s.started_at
            },
            ..carried(s)
        },
    }
}

/// The seconds and bytes per second of an outcome.
pub open spec fn outcome_timing(
    outcome: Result<(Seq<char>, u64), Seq<char>>,
    started_at: Option<Seq<char>>,
    end: Timestamp,
) -> (Option<u64>, Option<u64>) {
    match outcome {
        Ok((_, bytes)) => timing(run_seconds(started_at, end), bytes),
        Err(_) => (None, None),
    }
}

/// The status of a run that ended at `finished_at`.
pub fn terminal_status_at(
    obj: &ProteusBackup,
    outcome: Result<(String, u64), String>,
    run_started_at: Option<&str>,
    finished_at: Timestamp,
) -> (res: ProteusBackupStatus)
    requires
        finished_at.valid(),
    ensures
        res.deep_view() == terminal_view(
            obj.status_view(),
            outcome_view(outcome),
            str_view(run_started_at),
            outcome_timing(outcome_view(outcome), str_view(run_started_at), finished_at),
            rfc3339_text(finished_at.secs, finished_at.nanos),
        ),
{
    match outcome {
        Ok((snapshot_id, bytes)) => {
            let t = compute_throughput(run_started_at, bytes, finished_at);
            ProteusBackupStatus {
                phase: Some(BackupPhase::Succeeded),
                message: Some(success_message(bytes, t)),
                last_snapshot_id: Some(snapshot_id),
                last_success_at: Some(rfc3339(finished_at)),
                last_bytes: Some(bytes),
                progress_percent: Some(100),
                started_at: text_option(run_started_at),
                duration_seconds: t.0,
                throughput_bytes_per_sec: t.1,
                ..carry_forward(obj)
            }
        },
        Err(message) => {
            let base = carry_forward(obj);
            let started_at = match run_started_at {
                Some(s) => Some(s.to_owned()),
                None => copy_option(&base.started_at),
            };
            ProteusBackupStatus {
                phase: Some(BackupPhase::Failed),
                message: Some(message),
                last_failure_at: Some(rfc3339(finished_at)),
                started_at,
                ..base
            }
        },
    }
}

/// The status of a run that ended now.
pub fn terminal_status(
    obj: &ProteusBackup,
    outcome: Result<(String, u64), String>,
    run_started_at: Option<&str>,
) -> (res: ProteusBackupStatus)
    ensures
        exists|at: Timestamp|
            at.valid() && res.deep_view() == terminal_view(
                obj.status_view(),
                outcome_view(outcome),
                str_view(run_started_at),
                outcome_timing(outcome_view(outcome), str_view(run_started_at), at),
                #[trigger] rfc3339_text(at.secs, at.nanos),
            ),
{
    let at = now();
    terminal_status_at(obj, outcome, run_started_at, at)
}

/// Whether a status is worth a patch: counters in the message and timestamps alone are not.
pub open spec fn differs(cur: BackupStatusView, next: BackupStatusView) -> bool {
    ||| cur.phase != next.phase
    ||| cur.progress_percent != next.progress_percent
    ||| fingerprint_of(cur.message) != fingerprint_of(next.message)
    ||| cur.last_snapshot_id != next.last_snapshot_id
    ||| cur.duration_seconds != next.duration_seconds
    ||| cur.throughput_bytes_per_sec != next.throughput_bytes_per_sec
}

/// Whether `next` is to replace `current`.
pub open spec fn changed(current: Option<BackupStatusView>, next: BackupStatusView) -> bool {
    match current {
        None => true,
        Some(cur) => differs(cur, next),
    }
}

/// The model of an optional status.
pub open spec fn status_opt(s: Option<ProteusBackupStatus>) -> Option<BackupStatusView> {
    match s {
        Some(s) => Some(s.deep_view()),
        None => None,
    }
}

/// The model of an optional status.
pub open spec fn status_ref(s: Option<&ProteusBackupStatus>) -> Option<BackupStatusView> {
    match s {
        Some(s) => Some(s.deep_view()),
        None => None,
    }
}

/// Whether `next` is to replace `current`: counters in the message and timestamps alone are no
/// reason.
pub fn status_changed(current: Option<&ProteusBackupStatus>, next: &ProteusBackupStatus) -> (res:
    bool)
    ensures
        res == changed(status_ref(current), next.deep_view()),
{
    match current {
        None => true,
        Some(cur) => {
            cur.phase != next.phase || cur.progress_percent != next.progress_percent || !same_text(
                option_fingerprint(&cur.message).as_str(),
                option_fingerprint(&next.message).as_str(),
            ) || !same_option(&cur.last_snapshot_id, &next.last_snapshot_id)
                || cur.duration_seconds != next.duration_seconds || cur.throughput_bytes_per_sec
                != next.throughput_bytes_per_sec
        },
    }
}

/// What a reconcile of a backup run has learned.
pub enum BackupEvent {
    /// The run came up; `active` tells whether a backup of it is in progress in this process.
    Start { active: bool },
    /// Its recipe was resolved, or could not be.
    Resolved(Result<BackupRecipe, ResolveRecipeError>),
    /// Its backup ended.
    Finished { outcome: Result<(String, u64), String>, run_started_at: Option<String> },
}

/// What a reconcile of a backup run does next.
pub enum BackupAction {
    /// Reap mount pods that a run left behind, then look again after the given seconds.
    Reap { requeue_secs: u64 },
    /// Look again after the given seconds.
    Requeue { requeue_secs: u64 },
    /// Resolve the recipe.
    ResolveRecipe,
    /// Mark the run active, write the status where there is one, and back up.
    Run {
        recipe: BackupRecipe,
        patch: Option<ProteusBackupStatus>,
        run_started_at: Option<String>,
    },
    /// Mark the run inactive, write the status where there is one, and look again after the given
    /// seconds.
    Finish { patch: Option<ProteusBackupStatus>, requeue_secs: u64 },
}

/// Whether `patch` is what has to be written for the status to become `next`.
pub open spec fn is_patch(
    current: Option<ProteusBackupStatus>,
    next: BackupStatusView,
    patch: Option<ProteusBackupStatus>,
) -> bool {
    match patch {
        Some(p) => changed(status_opt(current), next) && p.deep_view() == next,
        None => !changed(status_opt(current), next),
    }
}

fn patch_for(current: &Option<ProteusBackupStatus>, next: ProteusBackupStatus) -> (res: Option<
    ProteusBackupStatus,
>)
    ensures
        is_patch(*current, next.deep_view(), res),
{
    if status_changed(current.as_ref(), &next) {
        Some(next)
    } else {
        None
    }
}

/// Whether `action` is what the event calls for at the time `at`.
pub open spec fn reconciles(
    obj: ProteusBackup,
    event: BackupEvent,
    at: Timestamp,
    action: BackupAction,
) -> bool {
    let s = obj.status_view();
    let now_text = rfc3339_text(at.secs, at.nanos);
    match event {
        BackupEvent::Start { active } => {
            if s.phase matches Some(p) && p.terminal() {
                action matches BackupAction::Reap { requeue_secs } && requeue_secs == 3600
            } else if active {
                action matches BackupAction::Requeue { requeue_secs } && requeue_secs == 5
            } else {
                action is ResolveRecipe
            }
        },
        BackupEvent::Resolved(Ok(recipe)) => {
            &&& action matches BackupAction::Run { recipe: r, patch, run_started_at }
            &&& r == recipe
            &&& is_patch(obj.status, running_view(s, now_text), patch)
            &&& opt_view(run_started_at) == Some(run_start(s, now_text))
        },
        BackupEvent::Resolved(Err(ResolveRecipeError::NotReady(m))) => {
            &&& action matches BackupAction::Finish { patch, requeue_secs }
            &&& is_patch(obj.status, waiting_view(s, m@), patch)
            &&& requeue_secs == 5
        },
        BackupEvent::Resolved(Err(ResolveRecipeError::Failed(m))) => {
            &&& action matches BackupAction::Finish { patch, requeue_secs }
            &&& is_patch(
                obj.status,
                terminal_view(s, Err(m@), None, (None, None), now_text),
                patch,
            )
            &&& requeue_secs == 3600
        },
        BackupEvent::Finished { outcome, run_started_at } => {
            &&& action matches BackupAction::Finish { patch, requeue_secs }
            &&& is_patch(
                obj.status,
                terminal_view(
                    s,
                    outcome_view(outcome),
                    opt_view(run_started_at),
                    outcome_timing(outcome_view(outcome), opt_view(run_started_at), at),
                    now_text,
                ),
                patch,
            )
            &&& requeue_secs == 3600
        },
    }
}

/// What a reconcile of a backup run does next, for what it has learned. A run that is over is
/// never run again, and one that is in progress is not started twice.
pub fn reconcile_backup(obj: &ProteusBackup, event: BackupEvent, at: Timestamp) -> (res:
    BackupAction)
    requires
        at.valid(),
    ensures
        reconciles(*obj, event, at, res),
{
    match event {
        BackupEvent::Start { active } => {
            if let Some(p) = current_phase(obj) {
                if p.is_terminal() {
                    return BackupAction::Reap { requeue_secs: 3600 };
                }
            }
            if active {
                return BackupAction::Requeue { requeue_secs: 5 };
            }
            BackupAction::ResolveRecipe
        },
        BackupEvent::Resolved(Ok(recipe)) => {
            let running = running_status_at(obj, at);
            let run_started_at = copy_option(&running.started_at);
            let patch = patch_for(&obj.status, running);
            BackupAction::Run { recipe, patch, run_started_at }
        },
        BackupEvent::Resolved(Err(ResolveRecipeError::NotReady(m))) => {
            let status = waiting_policy_status(obj, m.as_str());
            BackupAction::Finish { patch: patch_for(&obj.status, status), requeue_secs: 5 }
        },
        BackupEvent::Resolved(Err(ResolveRecipeError::Failed(m))) => {
            let status = terminal_status_at(obj, Err(m), None, at);
            BackupAction::Finish { patch: patch_for(&obj.status, status), requeue_secs: 3600 }
        },
        BackupEvent::Finished { outcome, run_started_at } => {
            let started: Option<&str> = match &run_started_at {
                Some(s) => Some(s.as_str()),
                None => None,
            };
            let status = terminal_status_at(obj, outcome, started, at);
            let requeue_secs: u64 = match status.phase {
                Some(BackupPhase::Succeeded) | Some(BackupPhase::Failed) => 3600,
                _ => 60,
            };
            BackupAction::Finish { patch: patch_for(&obj.status, status), requeue_secs }
        },
    }
}

/// Writing the same status again is never called for.
pub proof fn law_status_is_stable(s: ProteusBackupStatus)
    ensures
        !changed(Some(s.deep_view()), s.deep_view()),
{
}

/// Timestamps and byte counts alone never call for a patch.
pub proof fn law_timestamps_do_not_trigger(cur: BackupStatusView, next: BackupStatusView)
    requires
        next == (BackupStatusView {
            last_success_at: next.last_success_at,
            last_failure_at: next.last_failure_at,
            started_at: next.started_at,
            last_bytes: next.last_bytes,
            ..cur
        }),
    ensures
        !differs(cur, next),
{
}

/// A failed run keeps the snapshot of the last success, its time and its size.
pub proof fn law_failure_keeps_last_success(
    s: BackupStatusView,
    message: Seq<char>,
    started_at: Option<Seq<char>>,
    t: (Option<u64>, Option<u64>),
    finished_text: Seq<char>,
)
    ensures
        ({
            let next = terminal_view(s, Err(message), started_at, t, finished_text);
            &&& next.phase == Some(BackupPhase::Failed)
            &&& next.last_snapshot_id == s.last_snapshot_id
            &&& next.last_success_at == s.last_success_at
            &&& next.last_bytes == s.last_bytes
            &&& next.progress_percent == s.progress_percent
        }),
{
}

/// A run that is over is never run again.
pub proof fn law_terminal_run_is_never_rerun(
    obj: ProteusBackup,
    active: bool,
    at: Timestamp,
    action: BackupAction,
)
    requires
        obj.status_view().phase matches Some(p) && p.terminal(),
        reconciles(obj, BackupEvent::Start { active }, at, action),
    ensures
        action is Reap,
{
}

/// A status that is not written again says nothing new: phase, progress, snapshot and timing are
/// those that are recorded, and the message differs in its numbers at most.
pub proof fn law_unwritten_status_says_nothing_new(
    cur: ProteusBackupStatus,
    next: ProteusBackupStatus,
)
    requires
        !changed(Some(cur.deep_view()), next.deep_view()),
    ensures
        cur.phase == next.phase,
        cur.progress_percent == next.progress_percent,
        opt_view(cur.last_snapshot_id) == opt_view(next.last_snapshot_id),
        cur.duration_seconds == next.duration_seconds,
        cur.throughput_bytes_per_sec == next.throughput_bytes_per_sec,
        fingerprint_of(opt_view(cur.message)) == fingerprint_of(opt_view(next.message)),
{
}

/// A first status is always written.
pub proof fn law_first_status_is_written(next: ProteusBackupStatus)
    ensures
        changed(None, next.deep_view()),
{
}

/// Whether `next` keeps what `prior` says of the last success.
pub open spec fn keeps_last_success(
    prior: Option<ProteusBackupStatus>,
    next: ProteusBackupStatus,
) -> bool {
    match prior {
        Some(s) => {
            &&& opt_view(next.last_snapshot_id) == opt_view(s.last_snapshot_id)
            &&& opt_view(next.last_success_at) == opt_view(s.last_success_at)
            &&& next.last_bytes == s.last_bytes
            &&& next.retained_snapshots == s.retained_snapshots
        },
        None => {
            &&& next.last_snapshot_id is None
            &&& next.last_success_at is None
            &&& next.last_bytes is None
            &&& next.retained_snapshots is None
        },
    }
}

/// A run that ended is recorded as it ended. Its status, as it is or as it is written, says
/// Succeeded exactly where the backup did, and Failed exactly where it did not. What is written of
/// a success are the snapshot, its size and its time; of a failure its message and its time, and
/// the last success stays recorded as it was.
pub proof fn law_finished_run_records_its_outcome(
    obj: ProteusBackup,
    outcome: Result<(String, u64), String>,
    run_started_at: Option<String>,
    at: Timestamp,
    action: BackupAction,
)
    requires
        reconciles(obj, BackupEvent::Finished { outcome, run_started_at }, at, action),
    ensures
        ({
            &&& action matches BackupAction::Finish { patch, requeue_secs }
            &&& requeue_secs == 3600
            &&& ({
                let after = if patch is Some {
                    patch
                } else {
                    obj.status
                };
                &&& after is Some
                &&& after->0.phase == Some(BackupPhase::Succeeded) <==> outcome is Ok
                &&& after->0.phase == Some(BackupPhase::Failed) <==> outcome is Err
                &&& outcome matches Ok((id, _)) ==> opt_view(after->0.last_snapshot_id) == Some(id@)
                    && after->0.progress_percent == Some(100u8)
            })
            &&& patch matches Some(p) ==> match outcome {
                Ok((id, bytes)) => {
                    &&& opt_view(p.last_snapshot_id) == Some(id@)
                    &&& p.last_bytes == Some(bytes)
                    &&& opt_view(p.last_success_at) == Some(rfc3339_text(at.secs, at.nanos))
                    &&& opt_view(p.started_at) == opt_view(run_started_at)
                    &&& opt_view(p.last_failure_at) == (match obj.status {
                        Some(s) => opt_view(s.last_failure_at),
                        None => None,
                    })
                    &&& p.message is Some
                    &&& ("backup succeeded ("@ + decimal(bytes as nat) + " bytes"@).is_prefix_of(
                        p.message->0@,
                    )
                },
                Err(m) => {
                    &&& opt_view(p.message) == Some(m@)
                    &&& opt_view(p.last_failure_at) == Some(rfc3339_text(at.secs, at.nanos))
                    &&& run_started_at is Some ==> opt_view(p.started_at) == opt_view(
                        run_started_at,
                    )
                    &&& keeps_last_success(obj.status, p)
                },
            }
        }),
{
    if let BackupAction::Finish { patch, .. } = action {
        if let Some(p) = patch {
            if let Ok((id, bytes)) = outcome {
                let t = outcome_timing(outcome_view(outcome), opt_view(run_started_at), at);
                let head = "backup succeeded ("@ + decimal(bytes as nat) + " bytes"@;
                let text = success_text(bytes, t);
                reveal_strlit(" bytes");
                reveal_strlit(" bytes in ");
                reveal_strlit(" bytes)");
                assert(text.subrange(0, head.len() as int) =~= head);
            }
        }
    }
}

/// The seconds and the speed of a run that succeeded are those from its start to its end, and at
/// least a second; a start that cannot be read gives none.
pub proof fn law_finished_run_records_its_timing(
    obj: ProteusBackup,
    outcome: Result<(String, u64), String>,
    run_started_at: Option<String>,
    at: Timestamp,
    action: BackupAction,
)
    requires
        reconciles(obj, BackupEvent::Finished { outcome, run_started_at }, at, action),
        outcome is Ok,
        action->Finish_patch is Some,
    ensures
        ({
            let p = action->Finish_patch->0;
            let bytes = outcome->Ok_0.1;
            let start = match run_started_at {
                Some(t) => rfc3339_value(t@),
                None => None,
            };
            match start {
                Some((secs, nanos)) => {
                    let took = elapsed(at.secs, at.nanos, secs, nanos);
                    let d = if took < 1 {
                        1
                    } else {
                        took
                    };
                    &&& p.duration_seconds == Some(d as u64)
                    &&& p.throughput_bytes_per_sec == Some((bytes as int / d) as u64)
                },
                None => p.duration_seconds is None && p.throughput_bytes_per_sec is None,
            }
        }),
{
}

/// A run whose recipe is known is started with that recipe: it is recorded as running, from when
/// it was first started where it was running already, else from now, and with the last success as
/// it was.
pub proof fn law_resolved_run_is_started(
    obj: ProteusBackup,
    recipe: BackupRecipe,
    at: Timestamp,
    action: BackupAction,
)
    requires
        reconciles(obj, BackupEvent::Resolved(Ok(recipe)), at, action),
    ensures
        ({
            &&& action matches BackupAction::Run { recipe: r, patch, run_started_at }
            &&& r == recipe
            &&& ({
                let after = if patch is Some {
                    patch
                } else {
                    obj.status
                };
                &&& after is Some
                &&& after->0.phase == Some(BackupPhase::Running)
                &&& after->0.progress_percent == Some(0u8)
                &&& after->0.duration_seconds is None
            })
            &&& opt_view(run_started_at) == (match obj.status {
                Some(s) => if s.phase == Some(BackupPhase::Running) && s.started_at is Some {
                    opt_view(s.started_at)
                } else {
                    Some(rfc3339_text(at.secs, at.nanos))
                },
                None => Some(rfc3339_text(at.secs, at.nanos)),
            })
            &&& patch matches Some(p) ==> keeps_last_success(obj.status, p) && opt_view(
                p.started_at,
            ) == opt_view(run_started_at)
        }),
{
}

/// A run whose recipe is not ready waits for it, and is looked at again soon; one whose recipe
/// cannot be had fails with the reason. Neither is run, and both keep the last success.
pub proof fn law_unresolved_run_is_not_started(
    obj: ProteusBackup,
    fault: ResolveRecipeError,
    at: Timestamp,
    action: BackupAction,
)
    requires
        reconciles(obj, BackupEvent::Resolved(Err(fault)), at, action),
    ensures
        ({
            &&& action matches BackupAction::Finish { patch, requeue_secs }
            &&& ({
                let after = if patch is Some {
                    patch
                } else {
                    obj.status
                };
                &&& after is Some
                &&& match fault {
                    ResolveRecipeError::NotReady(_) => requeue_secs == 5 && after->0.phase == Some(
                        BackupPhase::Pending,
                    ),
                    ResolveRecipeError::Failed(_) => requeue_secs == 3600 && after->0.phase == Some(
                        BackupPhase::Failed,
                    ),
                }
            })
            &&& patch matches Some(p) ==> keeps_last_success(obj.status, p) && opt_view(p.message)
                == Some(
                match fault {
                    ResolveRecipeError::NotReady(m) => m@,
                    ResolveRecipeError::Failed(m) => m@,
                },
            )
        }),
{
}

/// A run that is not over is taken up, unless a backup of it is in progress.
pub proof fn law_open_run_is_taken_up(
    obj: ProteusBackup,
    active: bool,
    at: Timestamp,
    action: BackupAction,
)
    requires
        reconciles(obj, BackupEvent::Start { active }, at, action),
        obj.status matches Some(s) ==> s.phase != Some(BackupPhase::Succeeded) && s.phase != Some(
            BackupPhase::Failed,
        ),
    ensures
        action is ResolveRecipe <==> !active,
        action is Requeue <==> active,
        action matches BackupAction::Requeue { requeue_secs } ==> requeue_secs == 5,
{
}

/// A run that succeeded or failed is over, and what it left behind is reaped.
pub proof fn law_ended_run_is_over(
    obj: ProteusBackup,
    active: bool,
    at: Timestamp,
    action: BackupAction,
)
    requires
        reconciles(obj, BackupEvent::Start { active }, at, action),
        obj.status matches Some(s) && (s.phase == Some(BackupPhase::Succeeded) || s.phase == Some(
            BackupPhase::Failed,
        )),
    ensures
        action is Reap,
{
}

/// The message of a run that succeeded tells its size, and how long it took and how fast it was
/// where that is known.
pub proof fn law_success_is_told_in_numbers(bytes: u64, secs: u64, bps: u64)
    ensures
        success_text(bytes, (None, None)) == "backup succeeded ("@ + decimal(bytes as nat)
            + " bytes)"@,
        (decimal(bps as nat) + " B/s)"@).is_suffix_of(
            success_text(bytes, (Some(secs), Some(bps))),
        ),
        ("backup succeeded ("@ + decimal(bytes as nat) + " bytes in "@ + decimal(secs as nat)
            + "s"@).is_prefix_of(success_text(bytes, (Some(secs), Some(bps)))),
{
    reveal_strlit("s");
    reveal_strlit("s, ~");
    let t = success_text(bytes, (Some(secs), Some(bps)));
    let tail = decimal(bps as nat) + " B/s)"@;
    let head = "backup succeeded ("@ + decimal(bytes as nat) + " bytes in "@ + decimal(secs as nat)
        + "s"@;
    assert(t.subrange(t.len() - tail.len(), t.len() as int) =~= tail);
    assert(t.subrange(0, head.len() as int) =~= head);
}

} // verus!
