//! The preview of a schedule: its next fire time.
use super::common::{bad_request, refuses, ApiError, ApiResult};
use crate::clock::{now, rfc3339, rfc3339_text, Timestamp};
use crate::schedule::{next_run, next_run_after, parse_of, parsed_schedule, validate_schedule};
use crate::text::{blank, is_blank, trim, trimmed};
use vstd::prelude::*;

verus! {

/// A schedule to preview.
#[derive(Debug, Clone, PartialEq, Eq)]
pub struct SchedulePreviewRequest {
    pub schedule: String,
}

/// A schedule and when it fires next.
#[derive(Debug, Clone, PartialEq, Eq)]
pub struct SchedulePreviewResponse {
    pub schedule: String,
    pub next_run_at: String,
}

/// What a preview is answered, for the time of its asking.
pub open spec fn previews(
    schedule: Seq<char>,
    at: Timestamp,
    res: ApiResult<SchedulePreviewResponse>,
) -> bool {
    let s = trim(schedule);
    if blank(schedule) {
        res matches Err(e) && refuses(e, "schedule must not be empty"@)
    } else {
        match parsed_schedule(s, parse_of(s)) {
            Err(m) => res matches Err(e) && refuses(e, m),
            Ok(_) => match next_run(s, at) {
                Err(m) => res matches Err(e) && refuses(e, m),
                Ok((secs, nanos)) => res matches Ok(r) && r.schedule@ == s && r.next_run_at@
                    == rfc3339_text(secs, nanos),
            },
        }
    }
}

/// The next fire time of a schedule after `at`.
pub fn preview_schedule_at(req: SchedulePreviewRequest, at: Timestamp) -> (res: ApiResult<
    SchedulePreviewResponse,
>)
    requires
        at.valid(),
    ensures
        previews(req.schedule@, at, res),
{
    if is_blank(req.schedule.as_str()) {
        return Err(bad_request("schedule must not be empty"));
    }
    let schedule = trimmed(req.schedule.as_str());
    if let Err(m) = validate_schedule(schedule.as_str()) {
        return Err(ApiError::BadRequest(m));
    }
    match next_run_after(schedule.as_str(), at) {
        Ok(next) => Ok(SchedulePreviewResponse { schedule, next_run_at: rfc3339(next) }),
        Err(m) => Err(ApiError::BadRequest(m)),
    }
}

/// The next fire time of a schedule from now on.
pub fn preview_schedule(req: SchedulePreviewRequest) -> (res: ApiResult<SchedulePreviewResponse>)
    ensures
        exists|at: Timestamp| at.valid() && #[trigger] previews(req.schedule@, at, res),
{
    let at = now();
    preview_schedule_at(req, at)
}

/// A preview tells the next fire time of a schedule that cron takes, and refuses every other: a
/// schedule is previewed exactly where it is not blank, can be read and fires once more.
pub proof fn law_preview_is_the_next_fire_time(
    schedule: Seq<char>,
    at: Timestamp,
    res: ApiResult<SchedulePreviewResponse>,
)
    requires
        previews(schedule, at, res),
    ensures
        res is Ok <==> !blank(schedule) && parsed_schedule(
            trim(schedule),
            parse_of(trim(schedule)),
        ) is Ok && next_run(trim(schedule), at) is Ok,
        res matches Ok(r) ==> r.schedule@ == trim(schedule) && r.next_run_at@ == rfc3339_text(
            next_run(trim(schedule), at)->Ok_0.0,
            next_run(trim(schedule), at)->Ok_0.1,
        ),
        res matches Err(e) ==> e is BadRequest,
{
}

} // verus!
