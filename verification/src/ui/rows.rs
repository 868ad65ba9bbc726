//! What the rows of the backups pages show.
use super::client::{BackupListItem, BackupPolicyListItem, RestoreListItem};
use super::format::{
    format_next_run, format_run_count_label, format_run_when, next_run_text, run_count_text,
    run_when, short_id, short_id_text, SchedulePreset,
};
use super::forms::{is_phase, phase_is};
use crate::text::{blank, decimal, decimal_text, is_blank, join, joined, opt_view, same_text};
use vstd::prelude::*;

verus! {

/// A text, or nothing where there is none.
pub open spec fn or_empty(o: Option<Seq<char>>) -> Seq<char> {
    match o {
        Some(s) => s,
        None => ""@,
    }
}

fn text_or_empty(o: &Option<String>) -> (res: String)
    ensures
        res@ == or_empty(opt_view(*o)),
{
    match o {
        Some(s) => s.clone(),
        None => String::from_str(""),
    }
}

fn is_empty(s: &str) -> (res: bool)
    ensures
        res == (s@.len() == 0),
{
    proof {
        reveal_strlit("");
        if s@.len() == 0 {
            assert(s@ =~= ""@);
        }
    }
    same_text(s, "")
}

/// A phase as a badge shows it.
pub open spec fn phase_label_text(phase: Option<Seq<char>>) -> Seq<char> {
    match phase {
        Some(p) => p,
        None => "—"@,
    }
}

fn phase_label(phase: &Option<String>) -> (res: String)
    ensures
        res@ == phase_label_text(opt_view(*phase)),
{
    match phase {
        Some(p) => p.clone(),
        None => String::from_str("—"),
    }
}

/// The style of the badge of a policy.
pub open spec fn policy_badge_text(phase: Option<String>) -> Seq<char> {
    if phase_is(phase, "Ready"@) {
        "badge phase-ready"@
    } else if phase_is(phase, "Invalid"@) {
        "badge phase-failed"@
    } else {
        "badge"@
    }
}

/// The style of the badge of a policy.
pub fn policy_badge(phase: &Option<String>) -> (res: &'static str)
    ensures
        res@ == policy_badge_text(*phase),
{
    if is_phase(phase, "Ready") {
        "badge phase-ready"
    } else if is_phase(phase, "Invalid") {
        "badge phase-failed"
    } else {
        "badge"
    }
}

/// The style of the badge of a run or restore.
pub open spec fn run_badge_text(phase: Option<String>) -> Seq<char> {
    if phase_is(phase, "Succeeded"@) {
        "badge phase-ready"@
    } else if phase_is(phase, "Failed"@) {
        "badge phase-failed"@
    } else if phase_is(phase, "Running"@) {
        "badge phase-running"@
    } else {
        "badge"@
    }
}

/// The style of the badge of a run or restore.
pub fn run_badge(phase: &Option<String>) -> (res: &'static str)
    ensures
        res@ == run_badge_text(*phase),
{
    if is_phase(phase, "Succeeded") {
        "badge phase-ready"
    } else if is_phase(phase, "Failed") {
        "badge phase-failed"
    } else if is_phase(phase, "Running") {
        "badge phase-running"
    } else {
        "badge"
    }
}

/// What is said of the data plane of a run or restore.
pub open spec fn plane_title_text(plane: Seq<char>, node: Option<Seq<char>>) -> Seq<char> {
    if plane.len() == 0 {
        ""@
    } else {
        match node {
            Some(n) => "dataPlane="@ + plane + " node="@ + n,
            None => "dataPlane="@ + plane,
        }
    }
}

/// What is said of the data plane of a run or restore.
pub fn plane_title(plane: &str, node: &Option<String>) -> (res: String)
    ensures
        res@ == plane_title_text(plane@, opt_view(*node)),
{
    if is_empty(plane) {
        return String::from_str("");
    }
    match node {
        Some(n) => String::from_str("dataPlane=").concat(plane).concat(" node=").concat(n.as_str()),
        None => String::from_str("dataPlane=").concat(plane),
    }
}

/// A snapshot id in short; nothing where there is none.
pub open spec fn snapshot_short(id: Seq<char>) -> Seq<char> {
    if id.len() == 0 {
        ""@
    } else {
        short_id_text(id, 12)
    }
}

fn short_snapshot(id: &str) -> (res: String)
    ensures
        res@ == snapshot_short(id@),
{
    if is_empty(id) {
        String::from_str("")
    } else {
        short_id(id, 12)
    }
}

/// The row of a policy.
pub struct PolicyRow {
    pub message: String,
    pub phase_label: String,
    pub badge: &'static str,
    pub pvcs: String,
    pub can_run: bool,
    pub run_title: &'static str,
    pub has_schedule: bool,
    pub pause_title: &'static str,
    pub show_paused: bool,
    pub target_label: String,
    pub cron_label: String,
    /// When the policy runs next, where it has a schedule and that is known.
    pub next_label: Option<String>,
    pub keep_label: String,
}

/// Whether a policy has a schedule.
pub open spec fn is_scheduled(item: BackupPolicyListItem) -> bool {
    opt_view(item.schedule) matches Some(s) && !blank(s)
}

/// Whether `row` shows the policy.
pub open spec fn shows_policy(item: BackupPolicyListItem, row: PolicyRow) -> bool {
    &&& row.message@ == or_empty(opt_view(item.message))
    &&& row.phase_label@ == phase_label_text(opt_view(item.phase))
    &&& row.badge@ == policy_badge_text(item.phase)
    &&& row.pvcs@ == joined(item.pvc_names.deep_view(), ", "@)
    &&& row.can_run == phase_is(item.phase, "Ready"@)
    &&& row.run_title@ == (if row.can_run {
        "Run now"@
    } else {
        "Policy must be Ready before Run now"@
    })
    &&& row.has_schedule == is_scheduled(item)
    &&& row.pause_title@ == (if item.paused {
        "Resume schedule"@
    } else {
        "Pause schedule"@
    })
    &&& row.show_paused == (is_scheduled(item) && item.paused)
    &&& row.target_label@ == "ns:"@ + item.target_namespace@
    &&& row.cron_label@ == "cron:"@ + (match item.schedule {
        Some(s) => s@,
        None => "off"@,
    })
    &&& opt_view(row.next_label) == (match item.next_run_at {
        Some(t) if is_scheduled(item) => Some("next "@ + next_run_text(t@)),
        _ => None,
    })
    &&& row.keep_label@ == "keep "@ + decimal(item.keep_last as nat)
}

/// The row of a policy.
pub fn policy_row(item: &BackupPolicyListItem) -> (res: PolicyRow)
    ensures
        shows_policy(*item, res),
{
    let can_run = is_phase(&item.phase, "Ready");
    let has_schedule = match &item.schedule {
        Some(s) => !is_blank(s.as_str()),
        None => false,
    };
    let cron = match &item.schedule {
        Some(s) => s.clone(),
        None => String::from_str("off"),
    };
    let next_label: Option<String> = match &item.next_run_at {
        Some(t) => if has_schedule {
            Some(String::from_str("next ").concat(format_next_run(t.as_str()).as_str()))
        } else {
            None
        },
        None => None,
    };
    PolicyRow {
        message: text_or_empty(&item.message),
        phase_label: phase_label(&item.phase),
        badge: policy_badge(&item.phase),
        pvcs: join(&item.pvc_names, ", "),
        can_run,
        run_title: if can_run {
            "Run now"
        } else {
            "Policy must be Ready before Run now"
        },
        has_schedule,
        pause_title: if item.paused {
            "Resume schedule"
        } else {
            "Pause schedule"
        },
        show_paused: has_schedule && item.paused,
        target_label: String::from_str("ns:").concat(item.target_namespace.as_str()),
        cron_label: String::from_str("cron:").concat(cron.as_str()),
        next_label,
        keep_label: String::from_str("keep ").concat(
            decimal_text(item.keep_last as u64).as_str(),
        ),
    }
}

/// The row of a run.
pub struct RunRow {
    pub message: String,
    pub phase_label: String,
    pub badge: &'static str,
    pub plane: String,
    pub plane_title: String,
    pub show_progress: bool,
    pub progress: u8,
    pub can_restore: bool,
    pub restore_title: &'static str,
    pub when: String,
    pub policy: String,
    /// Whether the row leads to the runs of its policy.
    pub open_history: bool,
    pub row_class: &'static str,
    pub row_title: &'static str,
    pub pvcs: String,
    pub snapshot: String,
    pub snapshot_short: String,
    pub duration_label: Option<String>,
    pub count_label: String,
}

/// Whether `row` shows the run, the latest of `count`; `restore_title` is said where it can be
/// restored.
pub open spec fn shows_run(
    item: BackupListItem,
    count: nat,
    restore_title: Seq<char>,
    row: RunRow,
) -> bool {
    let plane = or_empty(opt_view(item.data_plane));
    let policy = or_empty(opt_view(item.policy_ref));
    let snapshot = or_empty(opt_view(item.last_snapshot_id));
    &&& row.message@ == or_empty(opt_view(item.message))
    &&& row.phase_label@ == phase_label_text(opt_view(item.phase))
    &&& row.badge@ == run_badge_text(item.phase)
    &&& row.plane@ == plane
    &&& row.plane_title@ == plane_title_text(plane, opt_view(item.assigned_node))
    &&& row.show_progress == (phase_is(item.phase, "Running"@) || phase_is(
        item.phase,
        "Pending"@,
    ))
    &&& row.progress == (match item.progress_percent {
        Some(p) => p,
        None => 0,
    })
    &&& row.can_restore == phase_is(item.phase, "Succeeded"@)
    &&& row.restore_title@ == (if row.can_restore {
        restore_title
    } else {
        "Only Succeeded runs can be restored"@
    })
    &&& row.when@ == run_when(item)
    &&& row.policy@ == policy
    &&& row.open_history == (policy.len() > 0)
    &&& row.row_class@ == (if row.open_history {
        "resource-row resource-row-clickable"@
    } else {
        "resource-row"@
    })
    &&& row.row_title@ == (if row.open_history {
        "View all runs for this policy"@
    } else {
        ""@
    })
    &&& row.pvcs@ == joined(item.pvc_names.deep_view(), ", "@)
    &&& row.snapshot@ == snapshot
    &&& row.snapshot_short@ == snapshot_short(snapshot)
    &&& opt_view(row.duration_label) == (match item.duration_seconds {
        Some(secs) => Some(decimal(secs as nat) + "s"@),
        None => None,
    })
    &&& row.count_label@ == run_count_text(count)
}

/// The row of a run, the latest of `count`; `restore_title` is said where it can be restored.
pub fn run_row(item: &BackupListItem, count: usize, restore_title: &'static str) -> (res: RunRow)
    ensures
        shows_run(*item, count as nat, restore_title@, res),
{
    let plane = text_or_empty(&item.data_plane);
    let policy = text_or_empty(&item.policy_ref);
    let snapshot = text_or_empty(&item.last_snapshot_id);
    let can_restore = is_phase(&item.phase, "Succeeded");
    let open_history = !is_empty(policy.as_str());
    let progress: u8 = match item.progress_percent {
        Some(p) => p,
        None => 0,
    };
    let duration_label: Option<String> = match item.duration_seconds {
        Some(secs) => Some(decimal_text(secs).concat("s")),
        None => None,
    };
    RunRow {
        message: text_or_empty(&item.message),
        phase_label: phase_label(&item.phase),
        badge: run_badge(&item.phase),
        plane_title: plane_title(plane.as_str(), &item.assigned_node),
        plane,
        show_progress: is_phase(&item.phase, "Running") || is_phase(&item.phase, "Pending"),
        progress,
        can_restore,
        restore_title: if can_restore {
            restore_title
        } else {
            "Only Succeeded runs can be restored"
        },
        when: format_run_when(item),
        policy,
        open_history,
        row_class: if open_history {
            "resource-row resource-row-clickable"
        } else {
            "resource-row"
        },
        row_title: if open_history {
            "View all runs for this policy"
        } else {
            ""
        },
        pvcs: join(&item.pvc_names, ", "),
        snapshot_short: short_snapshot(snapshot.as_str()),
        snapshot,
        duration_label,
        count_label: format_run_count_label(count),
    }
}

/// The row of a restore.
pub struct RestoreRow {
    pub message: String,
    pub phase_label: String,
    pub badge: &'static str,
    pub plane: String,
    pub plane_title: String,
    pub target_label: String,
    pub snapshot: String,
    pub snapshot_short: String,
}

/// Whether `row` shows the restore.
pub open spec fn shows_restore(item: RestoreListItem, row: RestoreRow) -> bool {
    let plane = or_empty(opt_view(item.data_plane));
    let snapshot = or_empty(opt_view(item.restored_snapshot_id));
    &&& row.message@ == or_empty(opt_view(item.message))
    &&& row.phase_label@ == phase_label_text(opt_view(item.phase))
    &&& row.badge@ == run_badge_text(item.phase)
    &&& row.plane@ == plane
    &&& row.plane_title@ == plane_title_text(plane, opt_view(item.assigned_node))
    &&& row.target_label@ == "→ "@ + item.target_namespace@
    &&& row.snapshot@ == snapshot
    &&& row.snapshot_short@ == snapshot_short(snapshot)
}

/// The row of a restore.
pub fn restore_row(item: &RestoreListItem) -> (res: RestoreRow)
    ensures
        shows_restore(*item, res),
{
    let plane = text_or_empty(&item.data_plane);
    let snapshot = text_or_empty(&item.restored_snapshot_id);
    RestoreRow {
        message: text_or_empty(&item.message),
        phase_label: phase_label(&item.phase),
        badge: run_badge(&item.phase),
        plane_title: plane_title(plane.as_str(), &item.assigned_node),
        plane,
        target_label: String::from_str("→ ").concat(item.target_namespace.as_str()),
        snapshot_short: short_snapshot(snapshot.as_str()),
        snapshot,
    }
}

/// What the policy form says of the next run.
#[derive(Debug, Clone, PartialEq, Eq)]
pub enum NextRunNote {
    /// A remark.
    Remark(String),
    /// The time of the next run.
    At(String),
}

/// What the policy form says of the next run, given the preview of its schedule: not there yet, a
/// failure, or the next run where the form stands for a schedule.
pub open spec fn is_next_run_note(
    preset: SchedulePreset,
    preview: Option<Result<Option<String>, String>>,
    note: NextRunNote,
) -> bool {
    if preset is Off {
        note matches NextRunNote::Remark(m) && m@ == "No schedule — use Run now only."@
    } else {
        match preview {
            None => note matches NextRunNote::Remark(m) && m@ == "Computing next run…"@,
            Some(Ok(Some(next))) => note matches NextRunNote::At(t) && t@ == next_run_text(next@),
            Some(Ok(None)) => note matches NextRunNote::Remark(m) && m@
                == "Enter a cron expression."@,
            Some(Err(_)) => note matches NextRunNote::Remark(m) && m@
                == "Fix the cron above to see the next run."@,
        }
    }
}

/// What the policy form says of the next run.
pub fn next_run_note(
    preset: SchedulePreset,
    preview: Option<Result<Option<String>, String>>,
) -> (res: NextRunNote)
    ensures
        is_next_run_note(preset, preview, res),
{
    if let SchedulePreset::Off = preset {
        return NextRunNote::Remark(String::from_str("No schedule — use Run now only."));
    }
    match preview {
        None => NextRunNote::Remark(String::from_str("Computing next run…")),
        Some(Ok(Some(next))) => NextRunNote::At(format_next_run(next.as_str())),
        Some(Ok(None)) => NextRunNote::Remark(String::from_str("Enter a cron expression.")),
        Some(Err(_)) => NextRunNote::Remark(
            String::from_str("Fix the cron above to see the next run."),
        ),
    }
}

/// A run can be restored from its row exactly when it succeeded, and its progress is shown only
/// while it is not over.
pub proof fn law_only_succeeded_runs_can_be_restored(
    item: BackupListItem,
    count: nat,
    restore_title: Seq<char>,
    row: RunRow,
)
    requires
        shows_run(item, count, restore_title, row),
    ensures
        row.can_restore <==> phase_is(item.phase, "Succeeded"@),
        !(row.can_restore && row.show_progress),
{
    reveal_strlit("Succeeded");
    reveal_strlit("Running");
    reveal_strlit("Pending");
    assert("Succeeded"@[0] == 'S' && "Running"@[0] == 'R' && "Pending"@[0] == 'P');
}

/// The badge of a run or a restore tells how it goes: its end, well or badly, or that it runs.
pub proof fn law_badge_tells_the_phase(phase: Option<String>, p: crate::crd::BackupPhase)
    ensures
        phase is None ==> run_badge_text(phase) == "badge"@,
        opt_view(phase) == Some(p.text()) ==> run_badge_text(phase) == (match p {
            crate::crd::BackupPhase::Succeeded => "badge phase-ready"@,
            crate::crd::BackupPhase::Failed => "badge phase-failed"@,
            crate::crd::BackupPhase::Running => "badge phase-running"@,
            crate::crd::BackupPhase::Pending => "badge"@,
        }),
{
    reveal_strlit("Pending");
    reveal_strlit("Running");
    reveal_strlit("Succeeded");
    reveal_strlit("Failed");
    assert("Pending"@[0] == 'P' && "Running"@[0] == 'R' && "Succeeded"@[0] == 'S' && "Failed"@[0]
        == 'F');
}

/// The badge of a policy tells whether it can be run.
pub proof fn law_badge_tells_the_policys_phase(
    phase: Option<String>,
    p: crate::crd::BackupPolicyPhase,
)
    ensures
        phase is None ==> policy_badge_text(phase) == "badge"@,
        opt_view(phase) == Some(p.text()) ==> policy_badge_text(phase) == (match p {
            crate::crd::BackupPolicyPhase::Ready => "badge phase-ready"@,
            crate::crd::BackupPolicyPhase::Invalid => "badge phase-failed"@,
        }),
{
    reveal_strlit("Ready");
    reveal_strlit("Invalid");
    assert("Ready"@[0] == 'R' && "Invalid"@[0] == 'I');
}

/// The row of a policy says what the policy is: it can be run exactly where it is ready, its next
/// run is shown exactly where it is scheduled and known, and it counts as paused only where there
/// is a schedule to pause.
pub proof fn law_policy_row_says_what_the_policy_is(item: BackupPolicyListItem, row: PolicyRow)
    requires
        shows_policy(item, row),
    ensures
        row.can_run <==> opt_view(item.phase) == Some("Ready"@),
        row.can_run <==> row.run_title@ == "Run now"@,
        row.has_schedule <==> (item.schedule is Some && !blank(item.schedule->0@)),
        row.show_paused <==> row.has_schedule && item.paused,
        row.next_label is Some <==> row.has_schedule && item.next_run_at is Some,
        row.next_label matches Some(t) ==> next_run_text(item.next_run_at->0@).is_suffix_of(t@),
        item.target_namespace@.is_suffix_of(row.target_label@),
        item.schedule matches Some(s) ==> s@.is_suffix_of(row.cron_label@),
        item.schedule is None ==> "off"@.is_suffix_of(row.cron_label@),
        decimal(item.keep_last as nat).is_suffix_of(row.keep_label@),
        item.paused <==> row.pause_title@ == "Resume schedule"@,
        item.phase matches Some(p) ==> row.phase_label@ == p@,
        item.message matches Some(m) ==> row.message@ == m@,
        row.pvcs@ == joined(item.pvc_names.deep_view(), ", "@),
{
    reveal_strlit("Run now");
    reveal_strlit("Policy must be Ready before Run now");
    reveal_strlit("Resume schedule");
    reveal_strlit("Pause schedule");
    assert("Run now"@.len() == 7 && "Policy must be Ready before Run now"@.len() == 35);
    assert("Resume schedule"@[0] == 'R' && "Pause schedule"@[0] == 'P');
    lemma_is_tail(row.target_label@, item.target_namespace@);
    lemma_is_tail(row.keep_label@, decimal(item.keep_last as nat));
    if let Some(s) = item.schedule {
        lemma_is_tail(row.cron_label@, s@);
    } else {
        lemma_is_tail(row.cron_label@, "off"@);
    }
    if let Some(t) = row.next_label {
        lemma_is_tail(t@, next_run_text(item.next_run_at->0@));
    }
}

proof fn lemma_is_tail(s: Seq<char>, tail: Seq<char>)
    ensures
        tail.len() <= s.len() && s.skip(s.len() - tail.len()) =~= tail ==> tail.is_suffix_of(s),
{
    if tail.len() <= s.len() && s.skip(s.len() - tail.len()) =~= tail {
        assert(s.subrange(s.len() - tail.len(), s.len() as int) =~= s.skip(s.len() - tail.len()));
    }
}

/// The row of a run says how the run goes: its progress while it is under way, its snapshot, its
/// policy and where it runs.
pub proof fn law_run_row_says_how_the_run_goes(
    item: BackupListItem,
    count: nat,
    restore_title: Seq<char>,
    row: RunRow,
)
    requires
        shows_run(item, count, restore_title, row),
    ensures
        row.show_progress <==> opt_view(item.phase) == Some("Running"@) || opt_view(item.phase)
            == Some("Pending"@),
        item.progress_percent matches Some(p) ==> row.progress == p,
        item.progress_percent is None ==> row.progress == 0,
        row.can_restore <==> opt_view(item.phase) == Some("Succeeded"@),
        row.can_restore ==> row.restore_title@ == restore_title,
        row.open_history <==> item.policy_ref is Some && item.policy_ref->0@.len() > 0,
        item.policy_ref matches Some(p) ==> row.policy@ == p@,
        item.last_snapshot_id matches Some(id) ==> row.snapshot@ == id@ && (id@.len() > 0
            ==> row.snapshot_short@ == short_id_text(id@, 12)),
        item.duration_seconds is Some <==> row.duration_label is Some,
        item.duration_seconds matches Some(n) ==> decimal(n as nat).is_prefix_of(
            row.duration_label->0@,
        ),
        item.data_plane matches Some(p) ==> row.plane@ == p@,
        item.message matches Some(m) ==> row.message@ == m@,
        item.phase matches Some(p) ==> row.phase_label@ == p@,
        row.when@ == run_when(item),
        row.count_label@ == run_count_text(count),
        row.pvcs@ == joined(item.pvc_names.deep_view(), ", "@),
{
    reveal_strlit("");
    if let Some(n) = item.duration_seconds {
        let d = decimal(n as nat);
        assert(row.duration_label->0@.subrange(0, d.len() as int) =~= d);
    }
}

/// The row of a restore says how the restore goes.
pub proof fn law_restore_row_says_how_the_restore_goes(item: RestoreListItem, row: RestoreRow)
    requires
        shows_restore(item, row),
    ensures
        item.target_namespace@.is_suffix_of(row.target_label@),
        item.restored_snapshot_id matches Some(id) ==> row.snapshot@ == id@ && (id@.len() > 0
            ==> row.snapshot_short@ == short_id_text(id@, 12)),
        item.data_plane matches Some(p) ==> row.plane@ == p@,
        item.message matches Some(m) ==> row.message@ == m@,
        item.phase matches Some(p) ==> row.phase_label@ == p@,
        row.badge@ == run_badge_text(item.phase),
{
    lemma_is_tail(row.target_label@, item.target_namespace@);
}

/// Where work runs is told where it is known: the plane, and the node behind it.
pub proof fn law_plane_title_tells_plane_and_node(plane: Seq<char>, node: Seq<char>)
    requires
        plane.len() > 0,
    ensures
        ("dataPlane="@ + plane).is_prefix_of(plane_title_text(plane, Some(node))),
        node.is_suffix_of(plane_title_text(plane, Some(node))),
        plane.is_suffix_of(plane_title_text(plane, None)),
        plane_title_text(seq![], Some(node)).len() == 0,
{
    reveal_strlit("");
    let t = plane_title_text(plane, Some(node));
    let head = "dataPlane="@ + plane;
    assert(t.subrange(0, head.len() as int) =~= head);
    lemma_is_tail(t, node);
    assert(t.skip(t.len() - node.len()) =~= node);
    let s = plane_title_text(plane, None);
    lemma_is_tail(s, plane);
    assert(s.skip(s.len() - plane.len()) =~= plane);
}

/// The next run of a form is shown exactly where there is a schedule and its preview told one.
pub proof fn law_next_run_is_shown_where_known(
    preset: SchedulePreset,
    preview: Option<Result<Option<String>, String>>,
    note: NextRunNote,
)
    requires
        is_next_run_note(preset, preview, note),
    ensures
        note is At <==> preset != SchedulePreset::Off && (preview matches Some(Ok(Some(_)))),
        note matches NextRunNote::At(t) ==> t@ == next_run_text(preview->0->Ok_0->0@),
{
}

} // verus!
