//! Cron schedules and run names.
use chrono::TimeZone;
use proteus::api::schedule::{preview_schedule, preview_schedule_at, SchedulePreviewRequest};
use proteus::clock::Timestamp;
use proteus::schedule::{
    backup_run_name, last_tick_at_or_before, next_run_after, normalize_cron_expression,
    parse_schedule, run_name_for, schedule_is_due, schedule_outcome, validate_schedule,
};

fn at(y: i32, mo: u32, d: u32, h: u32, mi: u32, s: u32) -> Timestamp {
    let t = chrono::Utc.with_ymd_and_hms(y, mo, d, h, mi, s).unwrap();
    Timestamp { secs: t.timestamp(), nanos: t.timestamp_subsec_nanos() }
}

#[test]
fn normalize_five_field_prepends_seconds() {
    assert_eq!(normalize_cron_expression("0 2 * * *").expect("ok"), "0 0 2 * * *");
}

#[test]
fn parse_daily_two_am() {
    parse_schedule("0 2 * * *").expect("valid");
}

#[test]
fn reject_empty() {
    assert!(normalize_cron_expression("").is_err());
}

#[test]
fn next_run_after_is_deterministic() {
    let after = at(2026, 8, 3, 1, 0, 0);
    let next = next_run_after("0 2 * * *", after).expect("next");
    assert_eq!(next, at(2026, 8, 3, 2, 0, 0));
}

#[test]
fn validate_rejects_garbage() {
    assert!(validate_schedule("not a cron").is_err());
}

#[test]
fn schedule_due_when_next_passed() {
    let now = at(2026, 8, 3, 3, 0, 0);
    let next = at(2026, 8, 3, 2, 0, 0);
    assert!(schedule_is_due(now, Some(next)));
    assert!(!schedule_is_due(now, None));
}

#[test]
fn last_tick_skips_missed_hours() {
    let from = at(2026, 8, 3, 0, 0, 0);
    let now = at(2026, 8, 3, 3, 30, 0);
    let last = last_tick_at_or_before("0 * * * *", from, now).expect("ok").expect("tick");
    assert_eq!(last, at(2026, 8, 3, 3, 0, 0));
}

#[test]
fn no_tick_before_the_first() {
    let from = at(2026, 8, 3, 0, 0, 0);
    let now = at(2026, 8, 3, 0, 30, 0);
    assert_eq!(last_tick_at_or_before("0 * * * *", from, now), Ok(None));
}

#[test]
fn backup_run_name_truncates() {
    let long = "a".repeat(80);
    let name = backup_run_name(&long, at(2026, 8, 3, 2, 0, 0));
    assert!(name.len() <= 63);
    assert!(name.ends_with("-20260803020000"));
}

#[test]
fn backup_run_name_keeps_short_names_whole() {
    assert_eq!(backup_run_name("nightly", at(2026, 8, 3, 2, 0, 0)), "nightly-20260803020000");
    assert_eq!(run_name_for("p", "20260803020000"), "p-20260803020000");
}

#[test]
fn cron_fields_are_counted() {
    assert_eq!(normalize_cron_expression(" 0 0  2 * * * ").expect("ok"), "0 0 2 * * *");
    assert_eq!(
        normalize_cron_expression("0 2 * *").expect_err("four fields"),
        "schedule must have 5 or 6 fields (got 4); example: '0 2 * * *' (daily 02:00 UTC)"
    );
    let once = normalize_cron_expression("0 2 * * *").expect("ok");
    assert_eq!(normalize_cron_expression(&once).expect("ok"), once);
}

#[test]
fn parse_failure_is_reported() {
    assert!(parse_schedule("0 2 * * nope").is_err());
    let refused = schedule_outcome("x", "0 x".into(), Err("broken".into()));
    match refused {
        Ok(_) => panic!("refusal expected"),
        Err(m) => assert!(m.contains("broken")),
    }
    match schedule_outcome("0 2 * * *", "0 0 2 * * *".into(), Ok(())) {
        Ok(s) => assert_eq!(s, "0 0 2 * * *"),
        Err(m) => panic!("{m}"),
    }
}

#[test]
fn preview_daily() {
    let res =
        preview_schedule(SchedulePreviewRequest { schedule: "0 2 * * *".into() }).expect("ok");
    assert!(res.next_run_at.contains('T'));
}

#[test]
fn preview_rejects_garbage() {
    assert!(preview_schedule(SchedulePreviewRequest { schedule: "nope".into() }).is_err());
}

#[test]
fn preview_gives_the_next_fire_time() {
    let req = SchedulePreviewRequest { schedule: " 0 2 * * * ".into() };
    let res = preview_schedule_at(req, at(2026, 8, 3, 1, 0, 0)).expect("ok");
    assert_eq!(res.schedule, "0 2 * * *");
    assert_eq!(res.next_run_at, "2026-08-03T02:00:00+00:00");
    let empty = SchedulePreviewRequest { schedule: "  ".into() };
    let err = preview_schedule_at(empty, at(2026, 8, 3, 1, 0, 0)).expect_err("empty");
    assert_eq!(err.message(), "bad request: schedule must not be empty");
}

#[test]
fn weekly_preset_fires_on_sunday() {
    validate_schedule("0 2 * * 0").expect("valid");
    let monday = at(2026, 8, 3, 3, 0, 0);
    assert_eq!(next_run_after("0 2 * * 0", monday), Ok(at(2026, 8, 9, 2, 0, 0)));
    assert_eq!(next_run_after("0 2 * * 7", monday), Ok(at(2026, 8, 9, 2, 0, 0)));
    assert_eq!(next_run_after("0 2 * * 1", monday), Ok(at(2026, 8, 10, 2, 0, 0)));
    assert_eq!(next_run_after("0 2 * * Sun", monday), Ok(at(2026, 8, 9, 2, 0, 0)));
}

#[test]
fn crontab_weekdays_are_counted_from_sunday() {
    let monday = at(2026, 8, 3, 3, 0, 0);
    assert_eq!(next_run_after("0 2 * * 5-7", monday), Ok(at(2026, 8, 7, 2, 0, 0)));
    assert_eq!(next_run_after("0 2 * * 1-5", monday), Ok(at(2026, 8, 4, 2, 0, 0)));
    assert_eq!(next_run_after("0 2 * * 0,3", monday), Ok(at(2026, 8, 5, 2, 0, 0)));
    let saturday = at(2026, 8, 8, 3, 0, 0);
    assert_eq!(next_run_after("0 2 * * 5-7", saturday), Ok(at(2026, 8, 9, 2, 0, 0)));
    assert!(validate_schedule("0 2 * * 8").is_err());
}

#[test]
fn six_fields_count_weekdays_as_the_parser_does() {
    let monday = at(2026, 8, 3, 3, 0, 0);
    assert_eq!(next_run_after("0 0 2 * * 1", monday), Ok(at(2026, 8, 9, 2, 0, 0)));
    assert!(validate_schedule("0 0 2 * * 0").is_err());
}

#[test]
fn last_tick_is_found_however_many_were_missed() {
    let from = at(2026, 8, 3, 0, 0, 0);
    for (h, mi, s) in [(3, 0, 0), (2, 46, 40), (2, 46, 41)] {
        let now = at(2026, 8, 3, h, mi, s);
        assert_eq!(last_tick_at_or_before("* * * * * *", from, now), Ok(Some(now)));
    }
}

#[test]
fn last_tick_reports_what_stops_it() {
    let from = at(2026, 8, 3, 0, 0, 0);
    let now = at(2026, 8, 3, 3, 0, 0);
    assert!(last_tick_at_or_before("not a cron", from, now).is_err());
    assert_eq!(
        last_tick_at_or_before("0 0 2 3 8 * 2026", from, now),
        Err("schedule '0 0 2 3 8 * 2026' has no upcoming fire time".to_string())
    );
    assert_eq!(last_tick_at_or_before("0 * * * *", now, from), Ok(None));
}

#[test]
fn run_names_are_dns_labels() {
    let long = format!("a{}", "-".repeat(60));
    for policy in ["nightly", "a", long.as_str()] {
        let name = backup_run_name(policy, at(2026, 8, 3, 2, 0, 0));
        assert!(name.len() <= 63);
        assert!(name
            .chars()
            .all(|c| c.is_ascii_lowercase() || c.is_ascii_digit() || c == '-'));
        assert!(name.starts_with(|c: char| c.is_ascii_lowercase()));
        assert!(name[name.len() - 14..].chars().all(|c| c.is_ascii_digit()));
    }
}
