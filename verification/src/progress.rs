//! A backup run on the exec plane: its steps, and the progress it reports on the way.
//!
//! Progress bands:
//! - up to 5: the repository is opened
//! - 6 to 8: the mount pod of a volume is created and the volume measured
//! - 10 to 98: the volumes are streamed, each in its share of the band
//! - 99: the snapshot is sealed
use crate::clock::{rfc3339, rfc3339_text, Timestamp};
use crate::snapshot::{
    assemble_manifest, manifest_of, volumes_total, SnapshotManifest, VolumeSnapshot,
};
use vstd::prelude::*;

verus! {

/// Where the share of the volume at `index` of `count` begins; that of the last one ends where a
/// further one would begin.
pub open spec fn band(index: int, count: int) -> int
    recommends
        0 <= index <= count,
        count > 0,
{
    10 + (index * 88) / count
}

/// The shares of the volumes follow each other from 10 to 98.
pub proof fn law_bands_cover_stream_range(index: int, count: int)
    requires
        0 <= index < count,
    ensures
        band(0, count) == 10,
        band(count, count) == 98,
        10 <= band(index, count) <= band(index + 1, count) <= 98,
{
    let n = count;
    assert((0 * 88int) / n == 0) by (nonlinear_arith)
        requires
            n > 0,
    ;
    assert((n * 88) / n == 88) by (nonlinear_arith)
        requires
            n > 0,
    ;
    assert(index * 88 <= (index + 1) * 88 <= n * 88);
    vstd::arithmetic::div_mod::lemma_div_is_ordered(index * 88, (index + 1) * 88, n);
    vstd::arithmetic::div_mod::lemma_div_is_ordered((index + 1) * 88, n * 88, n);
    vstd::arithmetic::div_mod::lemma_div_pos_is_pos(index * 88, n);
}

/// The share of the volume at `index` of `count`.
pub fn pvc_range(index: usize, count: usize) -> (res: (u8, u8))
    requires
        index < count,
    ensures
        res.0 == band(index as int, count as int),
        res.1 == band(index + 1, count as int),
        10 <= res.0 <= res.1 <= 98,
{
    proof {
        law_bands_cover_stream_range(index as int, count as int);
    }
    let i: u128 = index as u128;
    let n: u128 = count as u128;
    let start: u128 = (i * 88) / n;
    let end: u128 = ((i + 1) * 88) / n;
    (10 + start as u8, 10 + end as u8)
}

/// The share of `done` in `total`, scaled to the range.
pub open spec fn scaled(start: int, end: int, done: int, total: int) -> int {
    start + ((end - start) * (if done < total {
        done
    } else {
        total
    })) / total
}

/// A scaled progress stays in its range and never goes back as more is done.
pub proof fn law_scaled_progress_is_monotone(
    start: int,
    end: int,
    done: int,
    later: int,
    total: int,
)
    requires
        0 <= start <= end,
        0 <= done <= later,
        total > 0,
    ensures
        start <= scaled(start, end, done, total) <= scaled(start, end, later, total) <= end,
        scaled(start, end, 0, total) == start,
        later >= total ==> scaled(start, end, later, total) == end,
{
    let span = end - start;
    let a = if done < total {
        done
    } else {
        total
    };
    let b = if later < total {
        later
    } else {
        total
    };
    assert(0 <= span * a <= span * b <= span * total) by (nonlinear_arith)
        requires
            0 <= span,
            0 <= a <= b <= total,
    ;
    vstd::arithmetic::div_mod::lemma_div_is_ordered(span * a, span * b, total);
    vstd::arithmetic::div_mod::lemma_div_is_ordered(span * b, span * total, total);
    vstd::arithmetic::div_mod::lemma_div_pos_is_pos(span * a, total);
    assert((span * total) / total == span) by (nonlinear_arith)
        requires
            total > 0,
    ;
    assert((span * 0) / total == 0) by (nonlinear_arith)
        requires
            total > 0,
    ;
}

/// The share of `done` in `total`, scaled to the range.
pub fn map_range(start: u8, end: u8, done: u64, total: u64) -> (res: u8)
    requires
        start <= end,
        total > 0,
    ensures
        res == scaled(start as int, end as int, done as int, total as int),
        start <= res <= end,
{
    let part: u64 = if done < total {
        done
    } else {
        total
    };
    let span: u128 = (end - start) as u128;
    proof {
        law_scaled_progress_is_monotone(
            start as int,
            end as int,
            done as int,
            done as int,
            total as int,
        );
        assert(span * part <= 255 * 0xffff_ffff_ffff_ffff) by (nonlinear_arith)
            requires
                0 <= span <= 255,
                0 <= part <= 0xffff_ffff_ffff_ffff,
        ;
        assert(0 <= span * part) by (nonlinear_arith)
            requires
                0 <= span,
                0 <= part,
        ;
    }
    let share: u128 = (span * (part as u128)) / (total as u128);
    start + share as u8
}

/// How many bytes move the progress by one point where the total is not known.
pub const CREEP_BYTES: u64 = 4_194_304;

/// The progress of a stream of which `read` bytes have passed: scaled where the total is known,
/// else one point for every four MiB, short of the end of the range.
pub open spec fn stream_progress(start: int, end: int, read: int, total_hint: Option<u64>) -> int {
    if total_hint matches Some(total) && total > 0 {
        scaled(start, end, read, total_hint->0 as int)
    } else {
        let span = if end - start < 1 {
            1
        } else {
            end - start
        };
        let creep = read / CREEP_BYTES as int;
        start + (if creep < span - 1 {
            creep
        } else {
            span - 1
        })
    }
}

/// The progress of a stream of which `read` bytes have passed.
pub fn stream_percent(start: u8, end: u8, read: u64, total_hint: Option<u64>) -> (res: u8)
    requires
        start <= end <= 100,
    ensures
        res == stream_progress(start as int, end as int, read as int, total_hint),
        start <= res <= end,
{
    if let Some(total) = total_hint {
        if total > 0 {
            return map_range(start, end, read, total);
        }
    }
    let span: u8 = if end - start < 1 {
        1
    } else {
        end - start
    };
    let creep: u64 = read / CREEP_BYTES;
    if creep < (span - 1) as u64 {
        start + creep as u8
    } else {
        start + (span - 1)
    }
}

/// Where the mount pod of a volume stands.
#[derive(Debug, Clone, Copy, PartialEq, Eq, Structural)]
pub enum MountStage {
    CreatingPod,
    WaitingPodRunning,
    MeasuringSize,
    StreamingTar,
}

/// What is reported at a stage of the mount pod.
pub open spec fn stage_report(stage: MountStage, pvc: Seq<char>) -> (u8, Seq<char>) {
    match stage {
        MountStage::CreatingPod => (6, "PVC '"@ + pvc + "': creating mount pod"@),
        MountStage::WaitingPodRunning => (
            7,
            "PVC '"@ + pvc + "': waiting for mount pod (pull image / attach volume)"@,
        ),
        MountStage::MeasuringSize => (8, "PVC '"@ + pvc + "': measuring volume size"@),
        MountStage::StreamingTar => (10, "PVC '"@ + pvc + "': streaming to repository"@),
    }
}

/// What is reported at a stage of the mount pod.
pub fn mount_stage_report(stage: MountStage, pvc: &str) -> (res: (u8, String))
    ensures
        (res.0, res.1@) == stage_report(stage, pvc@),
{
    let lead = String::from_str("PVC '").concat(pvc);
    match stage {
        MountStage::CreatingPod => (6, lead.concat("': creating mount pod")),
        MountStage::WaitingPodRunning => (
            7,
            lead.concat("': waiting for mount pod (pull image / attach volume)"),
        ),
        MountStage::MeasuringSize => (8, lead.concat("': measuring volume size")),
        MountStage::StreamingTar => (10, lead.concat("': streaming to repository")),
    }
}

/// What is reported while a volume is streamed, for the amounts as they are shown.
pub fn stream_message(pvc: &str, read: &str, total: Option<&str>) -> (res: String)
    ensures
        res@ == (match total {
            Some(t) => "PVC '"@ + pvc@ + "': "@ + read@ + " / "@ + t@ + " \u{2192} repository"@,
            None => "PVC '"@ + pvc@ + "': "@ + read@ + " \u{2192} repository"@,
        }),
{
    let lead = String::from_str("PVC '").concat(pvc).concat("': ").concat(read);
    match total {
        Some(t) => lead.concat(" / ").concat(t).concat(" \u{2192} repository"),
        None => lead.concat(" \u{2192} repository"),
    }
}

/// What a backup run waits for.
#[derive(Debug, Clone, Copy, PartialEq, Eq, Structural)]
pub enum RunPhase {
    Begin,
    OpenReport,
    Open,
    ReadyReport,
    Cleanup,
    Stream,
    StoredReport,
    SealReport,
    Seal,
    Over,
}

/// What happened to a backup run.
pub enum RunEvent {
    /// The run begins.
    Begin,
    /// The last report was delivered; `cancelled` tells whether the backup was deleted meanwhile.
    Reported { cancelled: bool },
    /// The repository was opened.
    Opened { encrypted: bool },
    /// Pods left by an interrupted run were removed.
    Cleaned,
    /// The current volume was stored; `size` is its size as it is shown.
    Streamed { volume: VolumeSnapshot, size: String },
    /// The manifest was stored under this id.
    Sealed { id: String },
    /// The step that was due failed.
    Failed { message: String },
}

/// What a backup run does next.
pub enum RunAction {
    Report { percent: u8, message: String },
    OpenRepository,
    CleanupLeftovers,
    /// Stream this volume claim into the repository, with progress in the given range.
    StreamVolume { pvc_name: String, range_start: u8, range_end: u8 },
    SealManifest(SnapshotManifest),
    Done { snapshot_id: String, total_bytes: u64 },
    Fail { message: String },
}

/// A backup run of the given volume claims.
pub struct BackupRun {
    pub pvc_names: Vec<String>,
    pub phase: RunPhase,
    pub index: usize,
    pub encrypted: bool,
    pub volumes: Vec<VolumeSnapshot>,
    pub total_bytes: u64,
}

impl BackupRun {
    /// The volumes stored so far are those of the claims up to the position, in order, and their
    /// sizes add up.
    pub open spec fn wf(&self) -> bool {
        let n = self.pvc_names@.len();
        &&& self.index <= n
        &&& (self.phase is Stream || self.phase is StoredReport) ==> self.index < n
        &&& self.phase is SealReport ==> self.index == n
        &&& self.phase !is Over && self.phase !is Seal ==> {
            &&& self.volumes@.len() == (if self.phase is StoredReport {
                self.index + 1
            } else {
                self.index as int
            })
            &&& self.total_bytes == volumes_total(self.volumes.deep_view())
            &&& forall|i: int|
                0 <= i < self.volumes@.len() ==> (#[trigger] self.volumes@[i]).pvc_name@
                    == self.pvc_names@[i]@
        }
    }

    /// A run that has not begun.
    pub fn new(pvc_names: Vec<String>) -> (res: Self)
        ensures
            res.wf(),
            res.pvc_names == pvc_names,
            res.phase is Begin,
            res.index == 0,
            res.volumes@.len() == 0,
            res.total_bytes == 0,
    {
        BackupRun {
            pvc_names,
            phase: RunPhase::Begin,
            index: 0,
            encrypted: false,
            volumes: Vec::new(),
            total_bytes: 0,
        }
    }
}

/// Whether the event is one that a run in this phase waits for.
pub open spec fn awaits(phase: RunPhase, event: RunEvent) -> bool {
    match event {
        RunEvent::Begin => phase is Begin,
        RunEvent::Reported { .. } => phase is OpenReport || phase is ReadyReport
            || phase is StoredReport || phase is SealReport,
        RunEvent::Opened { .. } => phase is Open,
        RunEvent::Cleaned => phase is Cleanup,
        RunEvent::Streamed { .. } => phase is Stream,
        RunEvent::Sealed { .. } => phase is Seal,
        RunEvent::Failed { .. } => phase !is Over,
    }
}

/// Whether `action` goes on with the volume at the run's position, or seals after the last one.
pub open spec fn goes_on(run: BackupRun, action: RunAction) -> bool {
    let n = run.pvc_names@.len();
    if run.index < n {
        &&& run.phase is Stream
        &&& action matches RunAction::StreamVolume { pvc_name, range_start, range_end }
        &&& pvc_name@ == run.pvc_names@[run.index as int]@
        &&& range_start == band(run.index as int, n as int)
        &&& range_end == band(run.index + 1, n as int)
    } else {
        &&& run.phase is SealReport
        &&& action matches RunAction::Report { percent, message }
        &&& percent == 99
        &&& message@ == "sealing snapshot"@
    }
}

/// The message for a step that failed.
pub open spec fn failure_text(run: BackupRun, message: Seq<char>) -> Seq<char> {
    match run.phase {
        RunPhase::Stream => "PVC '"@ + run.pvc_names@[run.index as int]@ + "': "@ + message,
        RunPhase::Seal => "seal snapshot failed: "@ + message,
        _ => message,
    }
}

/// Whether a run goes from `before` to `after` by `action`, for the event, at the time `at`.
pub open spec fn run_steps(
    before: BackupRun,
    event: RunEvent,
    at: Timestamp,
    after: BackupRun,
    action: RunAction,
) -> bool {
    let n = before.pvc_names@.len();
    &&& after.pvc_names == before.pvc_names
    &&& match event {
        RunEvent::Begin => {
            &&& after == (BackupRun { phase: RunPhase::OpenReport, ..before })
            &&& action matches RunAction::Report { percent, message }
            &&& percent == 1
            &&& message@ == "opening repository"@
        },
        RunEvent::Reported { cancelled } => match before.phase {
            RunPhase::OpenReport => {
                &&& after == (BackupRun { phase: RunPhase::Open, ..before })
                &&& action is OpenRepository
            },
            RunPhase::ReadyReport => {
                &&& after == (BackupRun { phase: RunPhase::Cleanup, ..before })
                &&& action is CleanupLeftovers
            },
            RunPhase::StoredReport => if cancelled {
                &&& after.phase is Over
                &&& action matches RunAction::Fail { message }
                &&& message@ == "backup deleted; cancelling"@
            } else {
                &&& after.index == before.index + 1
                &&& after.volumes == before.volumes
                &&& after.total_bytes == before.total_bytes
                &&& after.encrypted == before.encrypted
                &&& goes_on(after, action)
            },
            _ => {
                &&& after.phase is Seal
                &&& after.total_bytes == before.total_bytes
                &&& action matches RunAction::SealManifest(m)
                &&& m.deep_view() == manifest_of(
                    rfc3339_text(at.secs, at.nanos),
                    before.encrypted,
                    before.volumes.deep_view(),
                )
            },
        },
        RunEvent::Opened { encrypted } => {
            &&& after == (BackupRun { phase: RunPhase::ReadyReport, encrypted, ..before })
            &&& action matches RunAction::Report { percent, message }
            &&& percent == 5
            &&& message@ == "repository ready"@
        },
        RunEvent::Cleaned => {
            &&& after == (BackupRun { phase: after.phase, ..before })
            &&& goes_on(after, action)
        },
        RunEvent::Streamed { volume, size } => {
            &&& after.phase is StoredReport
            &&& after.index == before.index
            &&& after.encrypted == before.encrypted
            &&& after.volumes@ == before.volumes@.push(volume)
            &&& after.total_bytes == before.total_bytes + volume.bytes
            &&& action matches RunAction::Report { percent, message }
            &&& percent == band(before.index + 1, n as int)
            &&& message@ == "PVC '"@ + before.pvc_names@[before.index as int]@ + "': stored ("@
                + size@ + ")"@
        },
        RunEvent::Sealed { id } => {
            &&& after.phase is Over
            &&& action matches RunAction::Done { snapshot_id, total_bytes }
            &&& snapshot_id == id
            &&& total_bytes == before.total_bytes
        },
        RunEvent::Failed { message } => {
            &&& after.phase is Over
            &&& action matches RunAction::Fail { message: m }
            &&& m@ == failure_text(before, message@)
        },
    }
}

fn go_on(run: &mut BackupRun) -> (res: RunAction)
    requires
        old(run).index <= old(run).pvc_names@.len(),
    ensures
        *final(run) == (BackupRun { phase: final(run).phase, ..*old(run) }),
        goes_on(*final(run), res),
{
    if run.index < run.pvc_names.len() {
        let range = pvc_range(run.index, run.pvc_names.len());
        let pvc_name = run.pvc_names[run.index].clone();
        run.phase = RunPhase::Stream;
        RunAction::StreamVolume { pvc_name, range_start: range.0, range_end: range.1 }
    } else {
        run.phase = RunPhase::SealReport;
        RunAction::Report { percent: 99, message: String::from_str("sealing snapshot") }
    }
}

/// What a backup run does next, for what happened last.
pub fn run_backup(run: &mut BackupRun, event: RunEvent, at: Timestamp) -> (res: RunAction)
    requires
        old(run).wf(),
        at.valid(),
        awaits(old(run).phase, event),
        event matches RunEvent::Streamed { volume, .. } ==> old(run).total_bytes + volume.bytes
            <= u64::MAX && volume.pvc_name@ == old(run).pvc_names@[old(run).index as int]@,
    ensures
        final(run).wf(),
        run_steps(*old(run), event, at, *final(run), res),
{
    match event {
        RunEvent::Begin => {
            run.phase = RunPhase::OpenReport;
            RunAction::Report { percent: 1, message: String::from_str("opening repository") }
        },
        RunEvent::Reported { cancelled } => match run.phase {
            RunPhase::OpenReport => {
                run.phase = RunPhase::Open;
                RunAction::OpenRepository
            },
            RunPhase::ReadyReport => {
                run.phase = RunPhase::Cleanup;
                RunAction::CleanupLeftovers
            },
            RunPhase::StoredReport => {
                if cancelled {
                    run.phase = RunPhase::Over;
                    RunAction::Fail { message: String::from_str("backup deleted; cancelling") }
                } else {
                    let n: usize = run.pvc_names.len();
                    assert(run.index < n);
                    run.index = run.index + 1;
                    go_on(run)
                }
            },
            _ => {
                let mut volumes: Vec<VolumeSnapshot> = Vec::new();
                std::mem::swap(&mut volumes, &mut run.volumes);
                let manifest = assemble_manifest(rfc3339(at), run.encrypted, volumes);
                run.phase = RunPhase::Seal;
                RunAction::SealManifest(manifest)
            },
        },
        RunEvent::Opened { encrypted } => {
            run.encrypted = encrypted;
            run.phase = RunPhase::ReadyReport;
            RunAction::Report { percent: 5, message: String::from_str("repository ready") }
        },
        RunEvent::Cleaned => go_on(run),
        RunEvent::Streamed { volume, size } => {
            let range = pvc_range(run.index, run.pvc_names.len());
            let message = String::from_str("PVC '").concat(
                run.pvc_names[run.index].as_str(),
            ).concat("': stored (").concat(size.as_str()).concat(")");
            let ghost before = run.volumes.deep_view();
            run.total_bytes = run.total_bytes + volume.bytes;
            run.volumes.push(volume);
            run.phase = RunPhase::StoredReport;
            proof {
                assert(run.volumes.deep_view().drop_last() =~= before);
            }
            RunAction::Report { percent: range.1, message }
        },
        RunEvent::Sealed { id } => {
            run.phase = RunPhase::Over;
            RunAction::Done { snapshot_id: id, total_bytes: run.total_bytes }
        },
        RunEvent::Failed { message } => {
            let text = match run.phase {
                RunPhase::Stream => String::from_str("PVC '").concat(
                    run.pvc_names[run.index].as_str(),
                ).concat("': ").concat(message.as_str()),
                RunPhase::Seal => String::from_str("seal snapshot failed: ").concat(
                    message.as_str(),
                ),
                _ => message,
            };
            run.phase = RunPhase::Over;
            RunAction::Fail { message: text }
        },
    }
}

/// The manifest of a run is sealed only once every volume claim was stored: it holds one volume for
/// each claim, in order and under its name, and the bytes it reports are the sum of theirs.
pub proof fn law_manifest_holds_every_volume(
    before: BackupRun,
    event: RunEvent,
    at: Timestamp,
    after: BackupRun,
    action: RunAction,
)
    requires
        before.wf(),
        awaits(before.phase, event),
        run_steps(before, event, at, after, action),
        action matches RunAction::SealManifest(_),
    ensures
        before.phase is SealReport,
        action->SealManifest_0.volumes@.len() == before.pvc_names@.len(),
        forall|i: int|
            0 <= i < before.pvc_names@.len() ==> (
            #[trigger] action->SealManifest_0.volumes@[i]).pvc_name@ == before.pvc_names@[i]@,
        action->SealManifest_0.encrypted == before.encrypted,
        action->SealManifest_0.total_bytes == volumes_total(before.volumes.deep_view()),
        after.total_bytes == action->SealManifest_0.total_bytes,
{
    let sealed = action->SealManifest_0.volumes;
    let stored = before.volumes;
    assert(sealed.deep_view() == stored.deep_view());
    assert(sealed@.len() == sealed.deep_view().len());
    assert(stored@.len() == stored.deep_view().len());
    assert forall|i: int| 0 <= i < before.pvc_names@.len() implies (#[trigger] sealed@[i]).pvc_name@
        == before.pvc_names@[i]@ by {
        assert(sealed.deep_view()[i] == sealed@[i].deep_view());
        assert(stored.deep_view()[i] == stored@[i].deep_view());
    }
}

/// The shares of the volumes are even: each begins after its part of the eighty-eight points, to
/// the point.
pub proof fn law_shares_are_even(index: int, count: int)
    requires
        0 <= index <= count,
        count > 0,
    ensures
        count * (band(index, count) - 10) <= 88 * index,
        88 * index < count * (band(index, count) - 10) + count,
{
    let q = (index * 88) / count;
    vstd::arithmetic::div_mod::lemma_fundamental_div_mod(index * 88, count);
    vstd::arithmetic::div_mod::lemma_mod_bound(index * 88, count);
    assert(count * (band(index, count) - 10) == count * q);
}

/// A scaled progress is the share of what is done in the total, to the point.
pub proof fn law_scaled_progress_is_the_share(start: int, end: int, done: int, total: int)
    requires
        0 <= start <= end,
        0 <= done <= total,
        total > 0,
    ensures
        total * (scaled(start, end, done, total) - start) <= (end - start) * done,
        (end - start) * done < total * (scaled(start, end, done, total) - start) + total,
{
    let n = (end - start) * done;
    assert((end - start) * (if done < total {
        done
    } else {
        total
    }) == n) by {
        if done >= total {
            assert(done == total);
        }
    }
    vstd::arithmetic::div_mod::lemma_fundamental_div_mod(n, total);
    vstd::arithmetic::div_mod::lemma_mod_bound(n, total);
    assert(total * (scaled(start, end, done, total) - start) == total * (n / total));
}

/// A stream whose size is known is scaled to its range. One whose size is not known starts with the
/// range, goes up by a point with every four MiB until it is a point short of the end, and never
/// reaches it or goes back.
pub proof fn law_stream_progress_goes_up(
    start: int,
    end: int,
    read: int,
    later: int,
    total_hint: Option<u64>,
)
    requires
        0 <= start < end,
        0 <= read <= later,
    ensures
        total_hint matches Some(t) && t > 0 ==> stream_progress(start, end, read, total_hint)
            == scaled(start, end, read, total_hint->0 as int),
        total_hint is None || total_hint == Some(0u64) ==> {
            &&& stream_progress(start, end, 0, total_hint) == start
            &&& start <= stream_progress(start, end, read, total_hint) <= stream_progress(
                start,
                end,
                later,
                total_hint,
            ) < end
            &&& stream_progress(start, end, read, total_hint) < end - 1 ==> stream_progress(
                start,
                end,
                read + 4 * 1024 * 1024,
                total_hint,
            ) == stream_progress(start, end, read, total_hint) + 1
        },
{
    vstd::arithmetic::div_mod::lemma_div_is_ordered(read, later, CREEP_BYTES as int);
    assert((read + 4_194_304) / 4_194_304 == read / 4_194_304 + 1);
}

/// What is reported of a mount pod names the claim, and goes up from stage to stage below the range
/// of the streams.
pub proof fn law_stages_go_up(pvc: Seq<char>, stage: MountStage)
    ensures
        stage_report(MountStage::CreatingPod, pvc).0 < stage_report(
            MountStage::WaitingPodRunning,
            pvc,
        ).0 < stage_report(MountStage::MeasuringSize, pvc).0 < stage_report(
            MountStage::StreamingTar,
            pvc,
        ).0 <= 10,
        stage_report(MountStage::CreatingPod, pvc).0 > 5,
        ("PVC '"@ + pvc + "': "@).is_prefix_of(stage_report(stage, pvc).1),
{
    let text = stage_report(stage, pvc).1;
    let head = "PVC '"@ + pvc + "': "@;
    reveal_strlit("': ");
    reveal_strlit("': creating mount pod");
    reveal_strlit("': waiting for mount pod (pull image / attach volume)");
    reveal_strlit("': measuring volume size");
    reveal_strlit("': streaming to repository");
    assert(text.subrange(0, head.len() as int) =~= head);
}

/// A backup goes on while its steps go well: the repository is opened, what an earlier run left is
/// removed, and the claims are streamed one after the other, in order; then the snapshot is sealed.
/// It is done exactly when the snapshot is sealed, under the id that it got and with the bytes that
/// were stored.
pub proof fn law_backup_goes_on_while_steps_go_well(
    before: BackupRun,
    event: RunEvent,
    at: Timestamp,
    after: BackupRun,
    action: RunAction,
)
    requires
        before.wf(),
        awaits(before.phase, event),
        run_steps(before, event, at, after, action),
    ensures
        action is Done <==> event is Sealed,
        action is Fail <==> event is Failed || (event matches RunEvent::Reported { cancelled }
            && cancelled && before.phase is StoredReport),
        event matches RunEvent::Sealed { id } ==> action->snapshot_id@ == id@
            && action->Done_total_bytes == before.total_bytes,
        event is Reported && before.phase is OpenReport ==> action is OpenRepository
            && after.phase is Open,
        event is Reported && before.phase is ReadyReport ==> action is CleanupLeftovers
            && after.phase is Cleanup,
        event is Reported && before.phase is SealReport ==> action is SealManifest
            && after.phase is Seal,
        event matches RunEvent::Opened { encrypted } ==> after.encrypted == encrypted
            && after.phase is ReadyReport && action is Report,
        event is Cleaned ==> after.index == before.index && (if before.index
            < before.pvc_names@.len() {
            action matches RunAction::StreamVolume { pvc_name, .. } && pvc_name@
                == before.pvc_names@[before.index as int]@
        } else {
            action is Report && after.phase is SealReport
        }),
        event matches RunEvent::Reported { cancelled } && !cancelled && before.phase is StoredReport
            ==> after.index == before.index + 1 && (if before.index + 1 < before.pvc_names@.len() {
            action matches RunAction::StreamVolume { pvc_name, .. } && pvc_name@
                == before.pvc_names@[before.index + 1]@
        } else {
            action is Report && after.phase is SealReport
        }),
        event matches RunEvent::Streamed { volume, .. } ==> after.volumes@ == before.volumes@.push(
            volume,
        ) && after.total_bytes == before.total_bytes + volume.bytes && after.index == before.index
            && action is Report,
        event !is Streamed && action !is SealManifest && action !is Fail && action !is Done ==> after
            .volumes@ == before.volumes@ && after.total_bytes == before.total_bytes,
        event !is Opened && action !is Fail && action !is Done && action !is SealManifest
            ==> after.encrypted == before.encrypted,
        after.pvc_names@ == before.pvc_names@,
{
}

/// A backup that fails says what failed: the message of the step ends the message, and a claim that
/// could not be streamed is named.
pub proof fn law_failed_backup_says_what_failed(
    before: BackupRun,
    message: String,
    at: Timestamp,
    after: BackupRun,
    action: RunAction,
)
    requires
        before.wf(),
        run_steps(before, RunEvent::Failed { message }, at, after, action),
    ensures
        action matches RunAction::Fail { message: m } && message@.is_suffix_of(m@) && (
        before.phase is Stream ==> ("PVC '"@ + before.pvc_names@[before.index as int]@
            + "': "@).is_prefix_of(m@)),
        after.phase is Over,
{
    let m = action->Fail_message@;
    assert(m.subrange(m.len() - message@.len(), m.len() as int) =~= message@);
    if before.phase is Stream {
        let head = "PVC '"@ + before.pvc_names@[before.index as int]@ + "': "@;
        assert(m.subrange(0, head.len() as int) =~= head);
    }
}

/// The reported progress never claims more than was done: it opens with 1 and 5, is between 10 and
/// 98 after a volume, 98 only after the last of them, and 99 while the snapshot is sealed.
pub proof fn law_reported_progress_fits_the_step(
    before: BackupRun,
    event: RunEvent,
    at: Timestamp,
    after: BackupRun,
    action: RunAction,
)
    requires
        before.wf(),
        awaits(before.phase, event),
        run_steps(before, event, at, after, action),
        action is Report,
    ensures
        event is Begin ==> action->percent == 1,
        event is Opened ==> action->percent == 5,
        event is Streamed ==> 10 <= action->percent <= 98,
        event is Streamed && before.index + 1 == before.pvc_names@.len() ==> action->percent == 98,
        event is Reported || event is Cleaned ==> action->percent == 99 && after.index
            == after.pvc_names@.len(),
        action->percent < 100,
{
    if event is Streamed {
        law_bands_cover_stream_range(before.index as int, before.pvc_names@.len() as int);
    }
}

/// The claim that is streamed has its share of the progress: where the share of the claim before it
/// ended, up to where that of the next begins.
pub proof fn law_streams_share_the_progress(run: BackupRun, action: RunAction)
    requires
        goes_on(run, action),
        run.index < run.pvc_names@.len(),
    ensures
        action matches RunAction::StreamVolume { range_start, range_end, .. } && range_start
            == band(run.index as int, run.pvc_names@.len() as int) && range_end == band(
            run.index + 1,
            run.pvc_names@.len() as int,
        ) && 10 <= range_start <= range_end <= 98,
{
    law_bands_cover_stream_range(run.index as int, run.pvc_names@.len() as int);
}

/// After each step the run waits for the answer to what it asked for, and for nothing once it
/// ended.
pub proof fn law_run_waits_for_what_it_asked_for(
    before: BackupRun,
    event: RunEvent,
    at: Timestamp,
    after: BackupRun,
    action: RunAction,
    answer: RunEvent,
)
    requires
        before.wf(),
        awaits(before.phase, event),
        run_steps(before, event, at, after, action),
        answer !is Failed,
    ensures
        action is Report ==> (awaits(after.phase, answer) <==> answer is Reported),
        action is OpenRepository ==> (awaits(after.phase, answer) <==> answer is Opened),
        action is CleanupLeftovers ==> (awaits(after.phase, answer) <==> answer is Cleaned),
        action is StreamVolume ==> (awaits(after.phase, answer) <==> answer is Streamed),
        action is SealManifest ==> (awaits(after.phase, answer) <==> answer is Sealed),
        action is Done || action is Fail ==> !awaits(after.phase, answer) && after.phase is Over,
{
}

/// The manifest that is sealed describes what was stored: the volumes, in order, their bytes, and
/// whether they are encrypted, at the time of sealing.
pub proof fn law_sealed_run_describes_what_was_stored(
    before: BackupRun,
    event: RunEvent,
    at: Timestamp,
    after: BackupRun,
    action: RunAction,
)
    requires
        before.wf(),
        awaits(before.phase, event),
        run_steps(before, event, at, after, action),
        action is SealManifest,
    ensures
        ({
            let m = action->SealManifest_0;
            &&& m.volumes.deep_view() == before.volumes.deep_view()
            &&& m.total_bytes == before.total_bytes
            &&& m.encrypted == before.encrypted
            &&& m.created_at@ == rfc3339_text(at.secs, at.nanos)
            &&& m.version == 1
        }),
        before.index == before.pvc_names@.len(),
        after.total_bytes == before.total_bytes,
{
}

} // verus!
