//! The web console: requests, forms, rows and lists.
use proteus::ui::client::{
    api_url, body_method, empty_method, failure_message, get_json, inventory_path, item_path,
    read_error_body, send_empty, send_json, urlencoding_lite, Answer, BackupListItem,
    BackupPolicyListItem, Collection, NamespaceItem, RepositoryListItem, RestoreListItem,
    WriteMethod,
};
use proteus::ui::format::{
    delete_backup_question, delete_policy_question, form_schedule_cron, format_next_run,
    format_run_count_label, format_run_when, friendly_api_error, preset_cron, restore_question,
    short_id, stamp_from_run_name, SchedulePreset,
};
use proteus::ui::forms::{
    backup_select_value, backups_need_poll, keep_namespace, keep_offered, keep_selected,
    namespace_options, ns_name_value, parse_ns_name_select, pause_request, policy_request,
    prefilled_restore, ready_repositories, repo_select_value, restore_request,
    restore_run_request, restores_need_poll, run_now_request, succeeded_backups, toggle_selected,
    PolicyForm, RestoreForm,
};
use proteus::ui::rows::{next_run_note, plane_title, policy_row, restore_row, run_row, NextRunNote};
use proteus::ui::runs::{group_runs_for_list, matches_policy, policy_runs, sort_runs};
use proteus::ui::theme::{load_color_scheme, ColorScheme, STORAGE_KEY};

fn run(name: &str, policy: Option<&str>, phase: &str) -> BackupListItem {
    BackupListItem {
        name: name.into(),
        namespace: "ns".into(),
        policy_ref: policy.map(str::to_string),
        repository_ref: "repo".into(),
        target_namespace: "ns".into(),
        pvc_names: vec![],
        schedule: None,
        phase: Some(phase.into()),
        message: None,
        last_snapshot_id: None,
        progress_percent: None,
        duration_seconds: None,
        throughput_bytes_per_sec: None,
        started_at: None,
        created_at: None,
        data_plane: None,
        assigned_node: None,
    }
}

fn strings(list: &[&str]) -> Vec<String> {
    list.iter().map(|s| s.to_string()).collect()
}

#[test]
fn format_run_count_label_caps_at_ten_plus() {
    assert_eq!(format_run_count_label(1), "1 run");
    assert_eq!(format_run_count_label(3), "3 runs");
    assert_eq!(format_run_count_label(11), "10+ runs");
}

#[test]
fn friendly_api_error_strips_http_prefix() {
    assert_eq!(
        friendly_api_error(
            "HTTP 400: bad request: schedule must have 5 or 6 fields (got 4); example: '0 2 * * *'"
        ),
        "schedule must have 5 or 6 fields (got 4); example: '0 2 * * *'"
    );
}

#[test]
fn friendly_api_error_keeps_other_texts() {
    assert_eq!(friendly_api_error(" HTTP 500: broken "), "broken");
    assert_eq!(friendly_api_error("request failed: offline"), "request failed: offline");
    assert_eq!(friendly_api_error("HTTP 500"), "HTTP 500");
}

#[test]
fn group_runs_keeps_latest_per_policy() {
    let items = vec![
        run("p-20260804044729", Some("p"), "Succeeded"),
        run("p-20260804044744", Some("p"), "Succeeded"),
        run("p-20260804044737", Some("p"), "Succeeded"),
        run("other-1", Some("other"), "Succeeded"),
    ];
    let groups = group_runs_for_list(&items);
    assert_eq!(groups.len(), 2);
    let p = groups.iter().find(|(i, _)| i.policy_ref.as_deref() == Some("p")).expect("p");
    assert_eq!(p.0.name, "p-20260804044744");
    assert_eq!(p.1, 3);
    assert_eq!(format_run_count_label(p.1), "3 runs");
}

#[test]
fn group_runs_prefers_active_over_newer_succeeded() {
    let items = vec![
        run("p-20260804050000", Some("p"), "Succeeded"),
        run("p-20260804040000", Some("p"), "Running"),
    ];
    let groups = group_runs_for_list(&items);
    assert_eq!(groups[0].0.name, "p-20260804040000");
    assert_eq!(groups[0].1, 2);
}

#[test]
fn group_runs_gives_each_orphan_a_row() {
    let items = vec![
        run("a", None, "Succeeded"),
        run("b", Some("  "), "Succeeded"),
        run("c", Some("p"), "Failed"),
    ];
    let groups = group_runs_for_list(&items);
    let names: Vec<&str> = groups.iter().map(|(i, _)| i.name.as_str()).collect();
    assert_eq!(names, vec!["c", "b", "a"]);
    assert!(groups.iter().all(|(_, n)| *n == 1));
    assert!(group_runs_for_list(&vec![]).is_empty());
}

#[test]
fn group_runs_orders_equal_names_by_group() {
    let mut a = run("same", Some("z"), "Succeeded");
    a.namespace = "b".into();
    let mut b = run("same", Some("z"), "Succeeded");
    b.namespace = "a".into();
    let items = vec![a, b];
    let groups = group_runs_for_list(&items);
    assert_eq!(groups[0].0.namespace, "a");
    assert_eq!(groups[1].0.namespace, "b");
}

#[test]
fn runs_are_sorted_active_first() {
    let sorted = sort_runs(vec![
        run("p-1", Some("p"), "Succeeded"),
        run("p-3", Some("p"), "Failed"),
        run("p-0", Some("p"), "Pending"),
        run("p-2", Some("p"), "Running"),
    ]);
    let names: Vec<&str> = sorted.iter().map(|r| r.name.as_str()).collect();
    assert_eq!(names, vec!["p-2", "p-0", "p-3", "p-1"]);
}

#[test]
fn equal_runs_keep_their_order() {
    let mut a = run("same", Some("p"), "Succeeded");
    a.message = Some("first".into());
    let mut b = run("same", Some("p"), "Failed");
    b.message = Some("second".into());
    let sorted = sort_runs(vec![a, b]);
    assert_eq!(sorted[0].message.as_deref(), Some("first"));
}

#[test]
fn policy_page_lists_its_own_runs() {
    let mine = run("p-1", Some(" p "), "Succeeded");
    assert!(matches_policy(&mine, "ns", "p"));
    assert!(!matches_policy(&mine, "other", "p"));
    assert!(!matches_policy(&run("x", None, "Succeeded"), "ns", "p"));
    let listed =
        policy_runs(vec![mine, run("q-1", Some("q"), "Running"), run("p-2", Some("p"), "Failed")], "ns", "p");
    let names: Vec<&str> = listed.iter().map(|r| r.name.as_str()).collect();
    assert_eq!(names, vec!["p-2", "p-1"]);
}

#[test]
fn stamp_from_run_name_parses_suffix() {
    assert_eq!(
        stamp_from_run_name("test-20260804045042").as_deref(),
        Some("2026-08-04 04:50 UTC")
    );
    assert_eq!(stamp_from_run_name("test-2026080404504"), None);
    assert_eq!(stamp_from_run_name("test-2026080404504x"), None);
    assert_eq!(stamp_from_run_name("20260804045042").as_deref(), Some("2026-08-04 04:50 UTC"));
}

#[test]
fn format_run_when_prefers_started_at() {
    let mut item = run("test-20260804045042", Some("test"), "Succeeded");
    item.started_at = Some("2026-08-04T04:50:42Z".into());
    item.created_at = Some("2026-08-04T04:49:00Z".into());
    assert_eq!(format_run_when(&item), "2026-08-04 04:50 UTC");
}

#[test]
fn format_run_when_falls_back_to_name_stamp() {
    let mut item = run("daily-data-20260803120000", None, "");
    item.phase = None;
    assert_eq!(format_run_when(&item), "2026-08-03 12:00 UTC");
    item.name = "manual".into();
    assert_eq!(format_run_when(&item), "Unknown time");
}

#[test]
fn generated_run_name_tells_its_time() {
    let at = proteus::clock::Timestamp { secs: 1_785_722_400, nanos: 0 };
    let name = proteus::schedule::backup_run_name("nightly-data", at);
    assert_eq!(stamp_from_run_name(&name).as_deref(), Some("2026-08-03 02:00 UTC"));
}

#[test]
fn next_run_is_shortened() {
    assert_eq!(format_next_run(" 2026-08-03T02:00:00+00:00 "), "2026-08-03 02:00 UTC");
    assert_eq!(format_next_run("2026-08-03T0é:"), "2026-08-03 0é: UTC");
    assert_eq!(format_next_run("soon"), "soon");
    assert_eq!(format_next_run("  "), "—");
}

#[test]
fn ids_are_shortened() {
    assert_eq!(short_id(" abcdef ", 12), "abcdef");
    assert_eq!(short_id("abcdef", 3), "abc…");
    assert_eq!(short_id("   ", 3), "—");
}

#[test]
fn presets_stand_for_cron_expressions() {
    assert_eq!(preset_cron(SchedulePreset::Hourly), Some("0 * * * *"));
    assert_eq!(preset_cron(SchedulePreset::Daily), Some("0 2 * * *"));
    assert_eq!(preset_cron(SchedulePreset::Weekly), Some("0 2 * * 0"));
    assert_eq!(preset_cron(SchedulePreset::Off), None);
    for p in [
        SchedulePreset::Off,
        SchedulePreset::Hourly,
        SchedulePreset::Daily,
        SchedulePreset::Weekly,
        SchedulePreset::Custom,
    ] {
        assert_eq!(SchedulePreset::from_value(p.value()), p);
    }
    assert_eq!(SchedulePreset::from_value("nope"), SchedulePreset::Off);
    assert_eq!(
        form_schedule_cron(SchedulePreset::Custom, " 1 2 * * * ").as_deref(),
        Some("1 2 * * *")
    );
    assert_eq!(form_schedule_cron(SchedulePreset::Custom, "  "), None);
    assert_eq!(form_schedule_cron(SchedulePreset::Daily, "x").as_deref(), Some("0 2 * * *"));
}

#[test]
fn questions_name_what_is_at_stake() {
    assert_eq!(delete_policy_question("p", "ns"), "Delete backup policy p in namespace ns?");
    assert!(delete_backup_question("r", "ns").starts_with("Delete backup run r in ns?\n\n"));
    assert!(restore_question("today", "r", "ns")
        .starts_with("Restore backup from today\n\nRun: r\nNamespace: ns\n\n"));
}

#[test]
fn errors_are_read_from_the_body() {
    assert_eq!(read_error_body(400, "{\"error\":\"bad request: x\"}"), "HTTP 400: bad request: x");
    assert_eq!(read_error_body(500, "{\"error\":7}"), "HTTP 500: {\"error\":7}");
    assert_eq!(read_error_body(500, "oops"), "HTTP 500: oops");
    assert_eq!(read_error_body(502, ""), "HTTP 502");
    assert_eq!(failure_message(404, "body", Some("gone".into())), "HTTP 404: gone");
}

#[test]
fn refusals_are_shown_as_written() {
    let refusal = proteus::api::common::ApiError::BadRequest("keepLast must be >= 1".into());
    let body = format!("{{\"error\":\"{}\"}}", refusal.message());
    let message = read_error_body(refusal.status(), &body);
    assert_eq!(message, "HTTP 400: bad request: keepLast must be >= 1");
    assert_eq!(friendly_api_error(&message), "keepLast must be >= 1");
}

#[test]
fn answers_are_checked_before_they_are_parsed() {
    let answer = |status: u16, body: &str| Answer { status, body: Ok(body.to_string()) };
    assert_eq!(get_json(answer(200, " {} ")), Ok(" {} ".to_string()));
    let html = get_json(answer(200, "\n <!doctype html>")).expect_err("html");
    assert!(html.message.starts_with("API returned HTML instead of JSON — start the controller"));
    assert_eq!(send_json(answer(201, "<x>")), Ok("<x>".to_string()));
    assert_eq!(get_json(answer(404, "gone")).expect_err("404").message, "HTTP 404: gone");
    let unread = Answer { status: 200, body: Err("reset".into()) };
    assert_eq!(
        send_json(unread).expect_err("unread").message,
        "failed to read body: reset"
    );
    assert_eq!(send_empty(answer(204, "")), Ok(()));
    let unread = Answer { status: 500, body: Err("reset".into()) };
    assert_eq!(send_empty(unread).expect_err("500").message, "HTTP 500");
}

#[test]
fn methods_are_checked() {
    assert_eq!(body_method("POST"), Ok(WriteMethod::Post));
    assert_eq!(body_method("PATCH"), Ok(WriteMethod::Patch));
    assert_eq!(empty_method("DELETE"), Ok(WriteMethod::Delete));
    assert_eq!(body_method("PUT").expect_err("put").message, "unsupported method PUT");
    assert!(empty_method("POST").is_err());
}

#[test]
fn paths_are_encoded() {
    assert_eq!(urlencoding_lite("aZ09-_.~"), "aZ09-_.~");
    assert_eq!(urlencoding_lite("a b/é%"), "a%20b%2F%C3%A9%25");
    assert_eq!(api_url("", "/x"), "/x");
    assert_eq!(api_url("http://h", "/x"), "http://h/x");
    assert_eq!(item_path(Collection::Backups, "ns", "a/b"), "/api/v1/backups/ns/a%2Fb");
    assert_ne!(
        item_path(Collection::Backups, "a/b", "c"),
        item_path(Collection::Backups, "a", "b/c")
    );
    assert_eq!(Collection::BackupPolicies.path(), "/api/v1/backup-policies");
    assert_eq!(inventory_path(None, None, None), "/api/v1/inventory");
    assert_eq!(inventory_path(Some(""), Some("All"), Some("")), "/api/v1/inventory");
    assert_eq!(
        inventory_path(Some("ns"), Some("Pod"), Some("a b")),
        "/api/v1/inventory?namespace=ns&kind=Pod&q=a%20b"
    );
}

fn repo(name: &str, phase: Option<&str>) -> RepositoryListItem {
    RepositoryListItem {
        name: name.into(),
        namespace: "ns".into(),
        phase: phase.map(str::to_string),
        backend: None,
        message: None,
    }
}

#[test]
fn only_usable_objects_are_offered() {
    let repos = vec![repo("a", Some("Failed")), repo("b", Some("Ready")), repo("c", None)];
    let ready: Vec<String> = ready_repositories(&repos).iter().map(|r| repo_select_value(r)).collect();
    assert_eq!(ready, strings(&["ns/b"]));
    let runs = vec![run("a", None, "Failed"), run("b", None, "Succeeded")];
    let done: Vec<String> = succeeded_backups(&runs).iter().map(|r| backup_select_value(r)).collect();
    assert_eq!(done, strings(&["ns/b"]));
}

#[test]
fn picked_values_are_read_back() {
    assert_eq!(
        parse_ns_name_select(&ns_name_value("ns", "name")),
        Some(("ns".to_string(), "name".to_string()))
    );
    assert_eq!(parse_ns_name_select("a/b/c"), Some(("a".to_string(), "b/c".to_string())));
    for value in ["", "/", "ns/", " / ", "plain"] {
        assert_eq!(parse_ns_name_select(value), None);
    }
}

#[test]
fn selections_follow_what_is_offered() {
    let ns = |n: &str| NamespaceItem { name: n.into() };
    let options = namespace_options(&vec![ns("b"), ns("default"), ns("a"), ns("b")]);
    assert_eq!(options, strings(&["a", "b", "default"]));
    assert_eq!(keep_namespace(&options, "b"), "b");
    assert_eq!(keep_namespace(&options, "gone"), "default");
    assert_eq!(keep_namespace(&strings(&["x", "y"]), "gone"), "x");
    assert_eq!(keep_namespace(&vec![], "gone"), "default");
    assert_eq!(keep_selected(&strings(&["x", "y"]), "y"), "y");
    assert_eq!(keep_selected(&strings(&["x", "y"]), "z"), "x");
    assert_eq!(keep_selected(&vec![], "z"), "");
    assert_eq!(keep_offered(&strings(&["a", "b", "a"]), &strings(&["a"])), strings(&["a", "a"]));
    assert_eq!(toggle_selected(strings(&["a"]), "b", true), strings(&["a", "b"]));
    assert_eq!(toggle_selected(strings(&["a"]), "a", true), strings(&["a"]));
    assert_eq!(toggle_selected(strings(&["a", "b", "a"]), "a", false), strings(&["b"]));
}

fn restore_item(phase: Option<&str>) -> RestoreListItem {
    RestoreListItem {
        name: "r".into(),
        namespace: "ns".into(),
        backup_ref: "b".into(),
        target_namespace: "ns".into(),
        phase: phase.map(str::to_string),
        message: None,
        restored_snapshot_id: Some("0123456789abcdef".into()),
        data_plane: Some("agent".into()),
        assigned_node: Some("n1".into()),
    }
}

#[test]
fn open_work_is_polled() {
    assert!(!backups_need_poll(&vec![run("a", None, "Failed")]));
    assert!(backups_need_poll(&vec![run("a", None, "Failed"), run("b", None, "Pending")]));
    assert!(!restores_need_poll(&vec![]));
    assert!(restores_need_poll(&vec![restore_item(None)]));
    assert!(restores_need_poll(&vec![restore_item(Some("Running"))]));
    assert!(!restores_need_poll(&vec![restore_item(Some("Succeeded"))]));
}

fn form() -> PolicyForm {
    PolicyForm {
        name: " nightly ".into(),
        namespace: "ns".into(),
        selected_repo: "repos/main".into(),
        selected_pvcs: strings(&["data"]),
        schedule_preset: SchedulePreset::Daily,
        custom_cron: "".into(),
        keep_last: " 5 ".into(),
    }
}

#[test]
fn policy_form_makes_a_request() {
    let req = policy_request(&form()).expect("valid");
    assert_eq!(req.name, "nightly");
    assert_eq!(req.target_namespace, "ns");
    assert_eq!(req.repository_ref, "main");
    assert_eq!(req.repository_namespace.as_deref(), Some("repos"));
    assert_eq!(req.schedule.as_deref(), Some("0 2 * * *"));
    assert_eq!(req.keep_last, Some(5));
    assert_eq!(req.paused, None);
}

#[test]
fn policy_form_faults_are_named() {
    let fault = |f: PolicyForm| policy_request(&f).expect_err("fault");
    assert_eq!(fault(PolicyForm { name: " ".into(), ..form() }), "name is required");
    assert_eq!(fault(PolicyForm { namespace: "".into(), ..form() }), "namespace is required");
    assert_eq!(
        fault(PolicyForm { selected_repo: "".into(), ..form() }),
        "pick a Ready repository"
    );
    assert_eq!(fault(PolicyForm { selected_pvcs: vec![], ..form() }), "pick at least one PVC");
    assert_eq!(
        fault(PolicyForm { schedule_preset: SchedulePreset::Custom, ..form() }),
        "custom cron is required"
    );
    for keep in ["0", "", "-1", "x", "4294967296"] {
        assert_eq!(
            fault(PolicyForm { keep_last: keep.into(), ..form() }),
            "keepLast must be >= 1"
        );
    }
    let plus = policy_request(&PolicyForm { keep_last: "+7".into(), ..form() }).expect("valid");
    assert_eq!(plus.keep_last, Some(7));
}

#[test]
fn restore_form_makes_a_request() {
    let filled = prefilled_restore("ns", "run-1");
    let req = restore_request(&filled).expect("valid");
    assert_eq!(req, restore_run_request("ns", "run-1"));
    assert_eq!(req.name, "run-1-restore");
    let blank = RestoreForm { name: "".into(), ..prefilled_restore("ns", "r") };
    assert_eq!(restore_request(&blank), Err("name is required".to_string()));
    let blank = RestoreForm { namespace: " ".into(), ..prefilled_restore("ns", "r") };
    assert_eq!(restore_request(&blank), Err("target namespace is required".to_string()));
    let blank = RestoreForm { selected_backup: "".into(), ..prefilled_restore("ns", "r") };
    assert_eq!(restore_request(&blank), Err("pick a Succeeded backup".to_string()));
}

#[test]
fn policy_actions_make_requests() {
    let now = run_now_request("ns", "p");
    assert_eq!(now.policy_ref, "p");
    assert_eq!(now.namespace.as_deref(), Some("ns"));
    assert_eq!(pause_request(false).paused, Some(true));
    assert_eq!(pause_request(true).paused, Some(false));
}

#[test]
fn policy_rows_show_schedule_and_state() {
    let item = BackupPolicyListItem {
        name: "p".into(),
        namespace: "ns".into(),
        repository_ref: "repo".into(),
        repository_namespace: None,
        target_namespace: "work".into(),
        pvc_names: strings(&["a", "b"]),
        schedule: Some("0 2 * * *".into()),
        paused: true,
        keep_last: 7,
        max_age_days: None,
        phase: Some("Ready".into()),
        message: None,
        next_run_at: Some("2026-08-03T02:00:00Z".into()),
    };
    let row = policy_row(&item);
    assert!(row.can_run);
    assert!(row.show_paused);
    assert_eq!(row.badge, "badge phase-ready");
    assert_eq!(row.pvcs, "a, b");
    assert_eq!(row.cron_label, "cron:0 2 * * *");
    assert_eq!(row.next_label.as_deref(), Some("next 2026-08-03 02:00 UTC"));
    assert_eq!(row.keep_label, "keep 7");
    assert_eq!(row.pause_title, "Resume schedule");
    let off = BackupPolicyListItem { schedule: None, phase: None, ..item };
    let row = policy_row(&off);
    assert!(!row.has_schedule && !row.show_paused && !row.can_run);
    assert_eq!(row.cron_label, "cron:off");
    assert_eq!(row.next_label, None);
    assert_eq!(row.phase_label, "—");
    assert_eq!(row.run_title, "Policy must be Ready before Run now");
}

#[test]
fn run_rows_show_progress_and_snapshot() {
    let mut item = run("p-20260804045042", Some("p"), "Running");
    item.progress_percent = Some(40);
    item.duration_seconds = Some(12);
    item.last_snapshot_id = Some("0123456789abcdef".into());
    item.data_plane = Some("exec".into());
    let row = run_row(&item, 3, "Restore from this latest run");
    assert!(row.show_progress && !row.can_restore && row.open_history);
    assert_eq!(row.progress, 40);
    assert_eq!(row.restore_title, "Only Succeeded runs can be restored");
    assert_eq!(row.snapshot_short, "0123456789ab…");
    assert_eq!(row.duration_label.as_deref(), Some("12s"));
    assert_eq!(row.plane_title, "dataPlane=exec");
    assert_eq!(row.count_label, "3 runs");
    assert_eq!(row.when, "2026-08-04 04:50 UTC");
    let row = run_row(&run("x", None, "Succeeded"), 1, "Restore from this latest run");
    assert!(row.can_restore && !row.open_history);
    assert_eq!(row.restore_title, "Restore from this latest run");
    assert_eq!(row.row_class, "resource-row");
    assert_eq!(row.snapshot_short, "");
}

#[test]
fn restore_rows_show_plane_and_target() {
    let row = restore_row(&restore_item(Some("Failed")));
    assert_eq!(row.badge, "badge phase-failed");
    assert_eq!(row.plane_title, "dataPlane=agent node=n1");
    assert_eq!(row.target_label, "→ ns");
    assert_eq!(plane_title("", &Some("n1".into())), "");
}

#[test]
fn next_run_note_follows_the_preview() {
    let daily = SchedulePreset::Daily;
    let remark = |n: NextRunNote| match n {
        NextRunNote::Remark(m) => m,
        NextRunNote::At(_) => panic!("remark expected"),
    };
    assert_eq!(
        remark(next_run_note(SchedulePreset::Off, None)),
        "No schedule — use Run now only."
    );
    assert_eq!(remark(next_run_note(daily, None)), "Computing next run…");
    assert_eq!(remark(next_run_note(daily, Some(Ok(None)))), "Enter a cron expression.");
    assert_eq!(
        remark(next_run_note(daily, Some(Err("x".into())))),
        "Fix the cron above to see the next run."
    );
    assert_eq!(
        next_run_note(daily, Some(Ok(Some("2026-08-03T02:00:00Z".into())))),
        NextRunNote::At("2026-08-03 02:00 UTC".into())
    );
}

#[test]
fn colour_scheme_is_remembered() {
    assert_eq!(STORAGE_KEY, "proteus-color-scheme");
    for s in [ColorScheme::Dark, ColorScheme::Light] {
        assert_eq!(ColorScheme::from_id(s.id()), Some(s));
        assert_eq!(s.toggle().toggle(), s);
        assert_ne!(s.toggle(), s);
    }
    assert_eq!(ColorScheme::from_id("blue"), None);
    assert_eq!(load_color_scheme(Some("light"), Some(false)), ColorScheme::Light);
    assert_eq!(load_color_scheme(Some("blue"), Some(true)), ColorScheme::Light);
    assert_eq!(load_color_scheme(None, Some(false)), ColorScheme::Dark);
    assert_eq!(load_color_scheme(None, None), ColorScheme::Dark);
}
