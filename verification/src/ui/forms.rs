//! The forms of the backups page: what can be picked and what a filled form asks for.
use super::client::{
    BackupListItem, CreateBackupPolicyRequest, CreateBackupRequest, CreateRestoreRequest,
    NamespaceItem, PatchBackupPolicyRequest, RepositoryListItem, RestoreListItem,
};
use super::format::{form_cron, form_schedule_cron, SchedulePreset};
use crate::order::{contains_text, is_sorted_set, sorted_set};
use crate::search::{lemma_first_at, occurs_at, parse_u32, split_first, split_once, u32_value};
use crate::text::{
    blank, copy_list, is_blank, lemma_trim_empty_iff_blank, lemma_trimmed_ends, named, opt_view,
    same_text, trim, trimmed,
};
use vstd::prelude::*;

verus! {

/// Whether a phase is the one of that label.
pub open spec fn phase_is(phase: Option<String>, label: Seq<char>) -> bool {
    opt_view(phase) == Some(label)
}

/// Whether a phase is the one of that label.
pub fn is_phase(phase: &Option<String>, label: &str) -> (res: bool)
    ensures
        res == phase_is(*phase, label@),
{
    match phase {
        Some(p) => same_text(p.as_str(), label),
        None => false,
    }
}

/// The ready repositories, in order.
pub open spec fn ready_of(repos: Seq<RepositoryListItem>) -> Seq<RepositoryListItem>
    decreases repos.len(),
{
    if repos.len() == 0 {
        seq![]
    } else {
        let rest = ready_of(repos.drop_last());
        if phase_is(repos.last().phase, "Ready"@) {
            rest.push(repos.last())
        } else {
            rest
        }
    }
}

/// The repositories that a policy can be made for.
pub fn ready_repositories(repos: &Vec<RepositoryListItem>) -> (res: Vec<&RepositoryListItem>)
    ensures
        res@.len() == ready_of(repos@).len(),
        forall|k: int| 0 <= k < res@.len() ==> *(#[trigger] res@[k]) == ready_of(repos@)[k],
{
    let ghost all = repos@;
    let mut out: Vec<&RepositoryListItem> = Vec::new();
    let mut i: usize = 0;
    assert(all.take(0) =~= seq![]);
    while i < repos.len()
        invariant
            i <= repos@.len(),
            all == repos@,
            out@.len() == ready_of(all.take(i as int)).len(),
            forall|k: int|
                0 <= k < out@.len() ==> *(#[trigger] out@[k]) == ready_of(all.take(i as int))[k],
        decreases repos@.len() - i,
    {
        proof {
            assert(all.take(i + 1).drop_last() =~= all.take(i as int));
            assert(all.take(i + 1).last() == all[i as int]);
        }
        if is_phase(&repos[i].phase, "Ready") {
            out.push(&repos[i]);
        }
        i += 1;
    }
    assert(all.take(i as int) =~= all);
    out
}

/// The succeeded runs, in order.
pub open spec fn succeeded_of(backups: Seq<BackupListItem>) -> Seq<BackupListItem>
    decreases backups.len(),
{
    if backups.len() == 0 {
        seq![]
    } else {
        let rest = succeeded_of(backups.drop_last());
        if phase_is(backups.last().phase, "Succeeded"@) {
            rest.push(backups.last())
        } else {
            rest
        }
    }
}

/// The runs that can be restored.
pub fn succeeded_backups(backups: &Vec<BackupListItem>) -> (res: Vec<&BackupListItem>)
    ensures
        res@.len() == succeeded_of(backups@).len(),
        forall|k: int| 0 <= k < res@.len() ==> *(#[trigger] res@[k]) == succeeded_of(backups@)[k],
{
    let ghost all = backups@;
    let mut out: Vec<&BackupListItem> = Vec::new();
    let mut i: usize = 0;
    assert(all.take(0) =~= seq![]);
    while i < backups.len()
        invariant
            i <= backups@.len(),
            all == backups@,
            out@.len() == succeeded_of(all.take(i as int)).len(),
            forall|k: int|
                0 <= k < out@.len() ==> *(#[trigger] out@[k]) == succeeded_of(
                    all.take(i as int),
                )[k],
        decreases backups@.len() - i,
    {
        proof {
            assert(all.take(i + 1).drop_last() =~= all.take(i as int));
            assert(all.take(i + 1).last() == all[i as int]);
        }
        if is_phase(&backups[i].phase, "Succeeded") {
            out.push(&backups[i]);
        }
        i += 1;
    }
    assert(all.take(i as int) =~= all);
    out
}

/// The value of an object in a list to pick from.
pub open spec fn ns_name_text(namespace: Seq<char>, name: Seq<char>) -> Seq<char> {
    namespace + "/"@ + name
}

/// The value of an object in a list to pick from: `namespace/name`, so that objects of several
/// namespaces are told apart.
pub fn ns_name_value(namespace: &str, name: &str) -> (res: String)
    ensures
        res@ == ns_name_text(namespace@, name@),
{
    String::from_str(namespace).concat("/").concat(name)
}

/// The value of a repository in the list to pick from.
pub fn repo_select_value(repo: &RepositoryListItem) -> (res: String)
    ensures
        res@ == ns_name_text(repo.namespace@, repo.name@),
{
    ns_name_value(repo.namespace.as_str(), repo.name.as_str())
}

/// The value of a run in the list to pick from.
pub fn backup_select_value(backup: &BackupListItem) -> (res: String)
    ensures
        res@ == ns_name_text(backup.namespace@, backup.name@),
{
    ns_name_value(backup.namespace.as_str(), backup.name.as_str())
}

/// The namespace and name of a picked object.
pub open spec fn picked(value: Seq<char>) -> Option<(Seq<char>, Seq<char>)> {
    match split_first(value, "/"@) {
        Some((ns, name)) => if trim(ns).len() == 0 || trim(name).len() == 0 {
            None
        } else {
            Some((trim(ns), trim(name)))
        },
        None => None,
    }
}

/// The namespace and name of a picked object.
pub fn parse_ns_name_select(value: &str) -> (res: Option<(String, String)>)
    ensures
        match (res, picked(value@)) {
            (Some((ns, name)), Some((n, m))) => ns@ == n && name@ == m,
            (None, None) => true,
            _ => false,
        },
{
    match split_once(value, "/") {
        Some((ns, name)) => {
            if is_blank(ns.as_str()) || is_blank(name.as_str()) {
                None
            } else {
                Some((trimmed(ns.as_str()), trimmed(name.as_str())))
            }
        },
        None => None,
    }
}

/// A picked object is the one that was offered, for every namespace without a slash and every
/// namespace and name without white space around them.
pub proof fn law_picked_object_is_the_offered_one(namespace: Seq<char>, name: Seq<char>)
    requires
        namespace.len() > 0,
        name.len() > 0,
        trim(namespace) == namespace,
        trim(name) == name,
        !namespace.contains('/'),
    ensures
        picked(ns_name_text(namespace, name)) == Some((namespace, name)),
{
    reveal_strlit("/");
    let s = ns_name_text(namespace, name);
    let n = namespace.len() as int;
    assert(occurs_at(s, "/"@, n)) by {
        assert(s.subrange(n, n + 1) =~= "/"@);
    }
    assert forall|k: int| 0 <= k < n implies !#[trigger] occurs_at(s, "/"@, k) by {
        if occurs_at(s, "/"@, k) {
            assert(s.subrange(k, k + 1)[0] == s[k]);
            assert(s[k] == namespace[k]);
            assert(namespace.contains('/'));
        }
    }
    lemma_first_at(s, "/"@, 0);
    assert(s.take(n) =~= namespace);
    assert(s.skip(n + 1) =~= name);
}

/// The texts of namespaces.
pub open spec fn namespace_names(items: Seq<NamespaceItem>) -> Seq<Seq<char>> {
    items.map_values(|n: NamespaceItem| n.name@)
}

/// The namespaces to pick from, sorted and each once.
pub fn namespace_options(items: &Vec<NamespaceItem>) -> (res: Vec<String>)
    ensures
        is_sorted_set(res.deep_view()),
        forall|t: Seq<char>|
            #[trigger] res.deep_view().contains(t) <==> namespace_names(items@).contains(t),
{
    let mut names: Vec<String> = Vec::new();
    let mut i: usize = 0;
    assert(names.deep_view() =~= namespace_names(items@).take(0));
    while i < items.len()
        invariant
            i <= items@.len(),
            names.deep_view() == namespace_names(items@).take(i as int),
        decreases items@.len() - i,
    {
        let ghost before = names.deep_view();
        names.push(items[i].name.clone());
        assert(names.deep_view() =~= before.push(items@[i as int].name@));
        assert(names.deep_view() =~= namespace_names(items@).take(i + 1));
        i += 1;
    }
    assert(namespace_names(items@).take(i as int) =~= namespace_names(items@));
    sorted_set(&names)
}

/// The namespace that a form shows.
pub open spec fn shown_namespace(options: Seq<Seq<char>>, current: Seq<char>) -> Seq<char> {
    if options.contains(current) {
        current
    } else if options.contains("default"@) || options.len() == 0 {
        "default"@
    } else {
        options[0]
    }
}

/// The namespace that a form shows: the current one while it can be picked, else `default` where
/// there is one, else the first.
pub fn keep_namespace(options: &Vec<String>, current: &str) -> (res: String)
    ensures
        res@ == shown_namespace(options.deep_view(), current@),
{
    assert(options.deep_view().len() == options@.len());
    if contains_text(options, current) {
        current.to_owned()
    } else if contains_text(options, "default") || options.len() == 0 {
        String::from_str("default")
    } else {
        options[0].clone()
    }
}

/// The value that a list to pick from shows.
pub open spec fn shown_value(values: Seq<Seq<char>>, current: Seq<char>) -> Seq<char> {
    if values.contains(current) {
        current
    } else if values.len() > 0 {
        values[0]
    } else {
        ""@
    }
}

/// The value that a list to pick from shows: the current one while it is offered, else the first.
pub fn keep_selected(values: &Vec<String>, current: &str) -> (res: String)
    ensures
        res@ == shown_value(values.deep_view(), current@),
{
    assert(values.deep_view().len() == values@.len());
    if contains_text(values, current) {
        current.to_owned()
    } else if values.len() > 0 {
        values[0].clone()
    } else {
        String::from_str("")
    }
}

/// The chosen names that are still offered, in order.
pub open spec fn still_offered(selected: Seq<Seq<char>>, names: Seq<Seq<char>>) -> Seq<Seq<char>>
    decreases selected.len(),
{
    if selected.len() == 0 {
        seq![]
    } else {
        let rest = still_offered(selected.drop_last(), names);
        if names.contains(selected.last()) {
            rest.push(selected.last())
        } else {
            rest
        }
    }
}

/// The chosen volumes that the namespace still has, in order.
pub fn keep_offered(selected: &Vec<String>, names: &Vec<String>) -> (res: Vec<String>)
    ensures
        res.deep_view() == still_offered(selected.deep_view(), names.deep_view()),
{
    let ghost all = selected.deep_view();
    let mut out: Vec<String> = Vec::new();
    let mut i: usize = 0;
    assert(all.take(0) =~= seq![]);
    assert(out.deep_view() =~= seq![]);
    while i < selected.len()
        invariant
            i <= selected@.len(),
            all == selected.deep_view(),
            out.deep_view() == still_offered(all.take(i as int), names.deep_view()),
        decreases selected@.len() - i,
    {
        let ghost before = out.deep_view();
        proof {
            assert(all.take(i + 1).drop_last() =~= all.take(i as int));
            assert(all.take(i + 1).last() == selected@[i as int]@);
        }
        if contains_text(names, selected[i].as_str()) {
            out.push(selected[i].clone());
            assert(out.deep_view() =~= before.push(selected@[i as int]@));
        }
        i += 1;
    }
    assert(all.take(i as int) =~= all);
    out
}

/// The chosen names without `name`, in order.
pub open spec fn without(selected: Seq<Seq<char>>, name: Seq<char>) -> Seq<Seq<char>>
    decreases selected.len(),
{
    if selected.len() == 0 {
        seq![]
    } else {
        let rest = without(selected.drop_last(), name);
        if selected.last() != name {
            rest.push(selected.last())
        } else {
            rest
        }
    }
}

/// The chosen names once one was checked or unchecked.
pub open spec fn toggled(selected: Seq<Seq<char>>, name: Seq<char>, checked: bool) -> Seq<
    Seq<char>,
> {
    if !checked {
        without(selected, name)
    } else if selected.contains(name) {
        selected
    } else {
        selected.push(name)
    }
}

/// The chosen volumes once one was checked or unchecked.
pub fn toggle_selected(selected: Vec<String>, name: &str, checked: bool) -> (res: Vec<String>)
    ensures
        res.deep_view() == toggled(selected.deep_view(), name@, checked),
{
    if checked {
        if contains_text(&selected, name) {
            return selected;
        }
        let mut out = selected;
        out.push(name.to_owned());
        assert(out.deep_view() =~= selected.deep_view().push(name@));
        return out;
    }
    let ghost all = selected.deep_view();
    let mut out: Vec<String> = Vec::new();
    let mut i: usize = 0;
    assert(all.take(0) =~= seq![]);
    assert(out.deep_view() =~= seq![]);
    while i < selected.len()
        invariant
            i <= selected@.len(),
            all == selected.deep_view(),
            out.deep_view() == without(all.take(i as int), name@),
        decreases selected@.len() - i,
    {
        let ghost before = out.deep_view();
        proof {
            assert(all.take(i + 1).drop_last() =~= all.take(i as int));
            assert(all.take(i + 1).last() == selected@[i as int]@);
        }
        if !same_text(selected[i].as_str(), name) {
            out.push(selected[i].clone());
            assert(out.deep_view() =~= before.push(selected@[i as int]@));
        }
        i += 1;
    }
    assert(all.take(i as int) =~= all);
    out
}

/// Checking and unchecking does what it says, and leaves the other names alone.
pub proof fn law_toggle_changes_one_name(
    selected: Seq<Seq<char>>,
    name: Seq<char>,
    checked: bool,
    other: Seq<char>,
)
    ensures
        toggled(selected, name, checked).contains(name) == checked,
        other != name ==> toggled(selected, name, checked).contains(other) == selected.contains(
            other,
        ),
{
    if checked {
        if !selected.contains(name) {
            let after = selected.push(name);
            assert(after[selected.len() as int] == name);
            if selected.contains(other) {
                let k = choose|k: int| 0 <= k < selected.len() && selected[k] == other;
                assert(after[k] == other);
            }
        }
    } else {
        lemma_without(selected, name, name);
        lemma_without(selected, name, other);
    }
}

proof fn lemma_without(selected: Seq<Seq<char>>, name: Seq<char>, x: Seq<char>)
    ensures
        without(selected, name).contains(x) <==> (selected.contains(x) && x != name),
    decreases selected.len(),
{
    if selected.len() > 0 {
        let front = selected.drop_last();
        let last = selected.last();
        let rest = without(front, name);
        let all = without(selected, name);
        lemma_without(front, name, x);
        if selected.contains(x) {
            let k = choose|k: int| 0 <= k < selected.len() && selected[k] == x;
            if k < front.len() {
                assert(front[k] == x);
            }
        }
        if front.contains(x) {
            let k = choose|k: int| 0 <= k < front.len() && front[k] == x;
            assert(selected[k] == x);
        }
        if last == x {
            assert(selected[selected.len() - 1] == x);
            if x != name {
                assert(all[rest.len() as int] == x);
            }
        }
        if rest.contains(x) {
            let k = choose|k: int| 0 <= k < rest.len() && rest[k] == x;
            assert(all[k] == x);
        }
        if all.contains(x) {
            let k = choose|k: int| 0 <= k < all.len() && all[k] == x;
            if k < rest.len() {
                assert(rest[k] == x);
            }
        }
    }
}

/// Whether a run or restore in this phase is not over.
pub open spec fn is_open_phase(phase: Option<String>) -> bool {
    phase is None || phase_is(phase, "Pending"@) || phase_is(phase, "Running"@)
}

fn open_phase(phase: &Option<String>) -> (res: bool)
    ensures
        res == is_open_phase(*phase),
{
    phase.is_none() || is_phase(phase, "Pending") || is_phase(phase, "Running")
}

/// Whether the list of runs is to be read again soon: while any run is not over.
pub fn backups_need_poll(items: &Vec<BackupListItem>) -> (res: bool)
    ensures
        res == exists|i: int| 0 <= i < items@.len() && is_open_phase((#[trigger] items@[i]).phase),
{
    let mut i: usize = 0;
    while i < items.len()
        invariant
            i <= items@.len(),
            forall|k: int| 0 <= k < i ==> !is_open_phase((#[trigger] items@[k]).phase),
        decreases items@.len() - i,
    {
        if open_phase(&items[i].phase) {
            return true;
        }
        i += 1;
    }
    false
}

/// Whether the list of restores is to be read again soon: while any restore is not over.
pub fn restores_need_poll(items: &Vec<RestoreListItem>) -> (res: bool)
    ensures
        res == exists|i: int| 0 <= i < items@.len() && is_open_phase((#[trigger] items@[i]).phase),
{
    let mut i: usize = 0;
    while i < items.len()
        invariant
            i <= items@.len(),
            forall|k: int| 0 <= k < i ==> !is_open_phase((#[trigger] items@[k]).phase),
        decreases items@.len() - i,
    {
        if open_phase(&items[i].phase) {
            return true;
        }
        i += 1;
    }
    false
}

/// The form for a new policy.
pub struct PolicyForm {
    pub name: String,
    pub namespace: String,
    pub selected_repo: String,
    pub selected_pvcs: Vec<String>,
    pub schedule_preset: SchedulePreset,
    pub custom_cron: String,
    pub keep_last: String,
}

/// The number of runs to keep that a field stands for; zero where it is no number.
pub open spec fn keep_value(field: Seq<char>) -> u32 {
    match u32_value(trim(field)) {
        Some(n) => n,
        None => 0,
    }
}

/// What is wrong with the form for a new policy, if anything.
pub open spec fn policy_form_fault(form: PolicyForm) -> Option<Seq<char>> {
    if blank(form.name@) {
        Some("name is required"@)
    } else if blank(form.namespace@) {
        Some("namespace is required"@)
    } else if picked(trim(form.selected_repo@)) is None {
        Some("pick a Ready repository"@)
    } else if form.selected_pvcs@.len() == 0 {
        Some("pick at least one PVC"@)
    } else if form.schedule_preset is Custom && blank(form.custom_cron@) {
        Some("custom cron is required"@)
    } else if keep_value(form.keep_last@) == 0 {
        Some("keepLast must be >= 1"@)
    } else {
        None
    }
}

/// Whether `req` is what the form for a new policy asks for.
pub open spec fn is_request_of_policy_form(
    form: PolicyForm,
    req: CreateBackupPolicyRequest,
) -> bool {
    let (repo_ns, repo_name) = picked(trim(form.selected_repo@))->0;
    &&& req.name@ == trim(form.name@)
    &&& req.namespace@ == trim(form.namespace@)
    &&& req.repository_ref@ == repo_name
    &&& opt_view(req.repository_namespace) == Some(repo_ns)
    &&& req.target_namespace@ == trim(form.namespace@)
    &&& req.pvc_names.deep_view() == form.selected_pvcs.deep_view()
    &&& opt_view(req.schedule) == form_cron(form.schedule_preset, form.custom_cron@)
    &&& req.paused is None
    &&& req.keep_last == Some(keep_value(form.keep_last@))
}

/// What the form for a new policy asks for, or what is wrong with it.
pub fn policy_request(form: &PolicyForm) -> (res: Result<CreateBackupPolicyRequest, String>)
    ensures
        match res {
            Ok(req) => policy_form_fault(*form) is None && is_request_of_policy_form(*form, req),
            Err(m) => policy_form_fault(*form) == Some(m@),
        },
{
    if is_blank(form.name.as_str()) {
        return Err(String::from_str("name is required"));
    }
    if is_blank(form.namespace.as_str()) {
        return Err(String::from_str("namespace is required"));
    }
    let repo = parse_ns_name_select(trimmed(form.selected_repo.as_str()).as_str());
    let (repo_ns, repo_name) = match repo {
        Some(r) => r,
        None => {
            return Err(String::from_str("pick a Ready repository"));
        },
    };
    if form.selected_pvcs.len() == 0 {
        return Err(String::from_str("pick at least one PVC"));
    }
    let custom = match form.schedule_preset {
        SchedulePreset::Custom => true,
        _ => false,
    };
    if custom && is_blank(form.custom_cron.as_str()) {
        return Err(String::from_str("custom cron is required"));
    }
    let keep: u32 = match parse_u32(trimmed(form.keep_last.as_str()).as_str()) {
        Some(n) => n,
        None => 0,
    };
    if keep == 0 {
        return Err(String::from_str("keepLast must be >= 1"));
    }
    let req = CreateBackupPolicyRequest {
        name: trimmed(form.name.as_str()),
        namespace: trimmed(form.namespace.as_str()),
        repository_ref: repo_name,
        repository_namespace: Some(repo_ns),
        target_namespace: trimmed(form.namespace.as_str()),
        pvc_names: copy_list(&form.selected_pvcs),
        schedule: form_schedule_cron(form.schedule_preset, form.custom_cron.as_str()),
        paused: None,
        keep_last: Some(keep),
    };
    assert(req.pvc_names.deep_view() =~= form.selected_pvcs.deep_view());
    Ok(req)
}

/// The form for a new restore.
pub struct RestoreForm {
    pub name: String,
    pub namespace: String,
    pub selected_backup: String,
    pub snapshot_id: String,
    pub overwrite: bool,
}

/// What is wrong with the form for a new restore, if anything.
pub open spec fn restore_form_fault(form: RestoreForm) -> Option<Seq<char>> {
    if blank(form.name@) {
        Some("name is required"@)
    } else if blank(form.namespace@) {
        Some("target namespace is required"@)
    } else if picked(trim(form.selected_backup@)) is None {
        Some("pick a Succeeded backup"@)
    } else {
        None
    }
}

/// Whether `req` is what the form for a new restore asks for.
pub open spec fn is_request_of_restore_form(form: RestoreForm, req: CreateRestoreRequest) -> bool {
    let (backup_ns, backup_name) = picked(trim(form.selected_backup@))->0;
    &&& req.name@ == trim(form.name@)
    &&& req.namespace@ == trim(form.namespace@)
    &&& req.backup_ref@ == backup_name
    &&& opt_view(req.backup_namespace) == Some(backup_ns)
    &&& opt_view(req.snapshot_id) == named(Some(form.snapshot_id@))
    &&& req.target_namespace@ == trim(form.namespace@)
    &&& req.overwrite == form.overwrite
}

/// What the form for a new restore asks for, or what is wrong with it.
pub fn restore_request(form: &RestoreForm) -> (res: Result<CreateRestoreRequest, String>)
    ensures
        match res {
            Ok(req) => restore_form_fault(*form) is None && is_request_of_restore_form(*form, req),
            Err(m) => restore_form_fault(*form) == Some(m@),
        },
{
    if is_blank(form.name.as_str()) {
        return Err(String::from_str("name is required"));
    }
    if is_blank(form.namespace.as_str()) {
        return Err(String::from_str("target namespace is required"));
    }
    let backup = parse_ns_name_select(trimmed(form.selected_backup.as_str()).as_str());
    let (backup_ns, backup_name) = match backup {
        Some(b) => b,
        None => {
            return Err(String::from_str("pick a Succeeded backup"));
        },
    };
    Ok(
        CreateRestoreRequest {
            name: trimmed(form.name.as_str()),
            namespace: trimmed(form.namespace.as_str()),
            backup_ref: backup_name,
            backup_namespace: Some(backup_ns),
            snapshot_id: if is_blank(form.snapshot_id.as_str()) {
                None
            } else {
                Some(trimmed(form.snapshot_id.as_str()))
            },
            target_namespace: trimmed(form.namespace.as_str()),
            overwrite: form.overwrite,
        },
    )
}

/// Whether the form is filled in for a restore of one run into its own namespace.
pub open spec fn is_prefilled(form: RestoreForm, namespace: Seq<char>, run: Seq<char>) -> bool {
    &&& form.name@ == run + "-restore"@
    &&& form.namespace@ == namespace
    &&& form.selected_backup@ == ns_name_text(namespace, run)
    &&& form.snapshot_id@ == ""@
    &&& !form.overwrite
}

/// The form for a restore of one run, filled in.
pub fn prefilled_restore(namespace: &str, run: &str) -> (res: RestoreForm)
    ensures
        is_prefilled(res, namespace@, run@),
{
    RestoreForm {
        name: String::from_str(run).concat("-restore"),
        namespace: namespace.to_owned(),
        selected_backup: ns_name_value(namespace, run),
        snapshot_id: String::from_str(""),
        overwrite: false,
    }
}

/// The restore of one run into its own namespace.
pub fn restore_run_request(namespace: &str, run: &str) -> (res: CreateRestoreRequest)
    ensures
        res.name@ == run@ + "-restore"@,
        res.namespace@ == namespace@,
        res.backup_ref@ == run@,
        opt_view(res.backup_namespace) == Some(namespace@),
        res.snapshot_id is None,
        res.target_namespace@ == namespace@,
        !res.overwrite,
{
    CreateRestoreRequest {
        name: String::from_str(run).concat("-restore"),
        namespace: namespace.to_owned(),
        backup_ref: run.to_owned(),
        backup_namespace: Some(namespace.to_owned()),
        snapshot_id: None,
        target_namespace: namespace.to_owned(),
        overwrite: false,
    }
}

/// The filled-in form for a run can be sent as it is, and asks for the last snapshot of that run
/// without overwriting, for every namespace without a slash and every namespace and run name
/// without white space around them.
pub proof fn law_prefilled_form_restores_the_run(
    form: RestoreForm,
    namespace: Seq<char>,
    run: Seq<char>,
)
    requires
        is_prefilled(form, namespace, run),
        namespace.len() > 0,
        run.len() > 0,
        trim(namespace) == namespace,
        trim(run) == run,
        !namespace.contains('/'),
    ensures
        restore_form_fault(form) is None,
        forall|req: CreateRestoreRequest| #[trigger]
            is_request_of_restore_form(form, req) ==> req.backup_ref@ == run && opt_view(
                req.backup_namespace,
            ) == Some(namespace) && req.snapshot_id is None && req.target_namespace@ == namespace
                && !req.overwrite,
{
    let value = ns_name_text(namespace, run);
    reveal_strlit("");
    reveal_strlit("/");
    reveal_strlit("-restore");
    law_picked_object_is_the_offered_one(namespace, run);
    lemma_trimmed_ends(namespace);
    lemma_trimmed_ends(run);
    assert(value[0] == namespace[0]);
    assert(value.last() == run.last());
    lemma_trimmed_ends(value);
    lemma_trim_empty_iff_blank(namespace);
    assert(!blank(form.name@)) by {
        assert(form.name@[0] == run[0]);
    }
    assert(trim(""@).len() == 0);
}

/// A run of a policy now.
pub fn run_now_request(namespace: &str, policy: &str) -> (res: CreateBackupRequest)
    ensures
        res.name is None,
        opt_view(res.namespace) == Some(namespace@),
        res.policy_ref@ == policy@,
        res.policy_namespace@ == namespace@,
{
    CreateBackupRequest {
        name: None,
        namespace: Some(namespace.to_owned()),
        policy_ref: policy.to_owned(),
        policy_namespace: namespace.to_owned(),
    }
}

/// Pauses a policy that is not paused, and resumes one that is; nothing else is changed.
pub fn pause_request(paused: bool) -> (res: PatchBackupPolicyRequest)
    ensures
        res.schedule is None,
        res.paused == Some(!paused),
        res.keep_last is None,
{
    PatchBackupPolicyRequest { schedule: None, paused: Some(!paused), keep_last: None }
}

/// Of a list of repositories those that are ready are offered, in order.
pub proof fn law_ready_repositories_are_offered(
    a: Seq<RepositoryListItem>,
    b: Seq<RepositoryListItem>,
    x: RepositoryListItem,
)
    ensures
        ready_of(a + b) == ready_of(a) + ready_of(b),
        opt_view(x.phase) == Some("Ready"@) ==> ready_of(seq![x]) == seq![x],
        !(opt_view(x.phase) == Some("Ready"@)) ==> ready_of(seq![x]).len() == 0,
    decreases b.len(),
{
    assert(seq![x].drop_last() =~= seq![]);
    assert(ready_of(seq![]) =~= seq![]);
    if b.len() == 0 {
        assert(a + b =~= a);
        assert(ready_of(a) + ready_of(b) =~= ready_of(a));
    } else {
        assert((a + b).drop_last() =~= a + b.drop_last());
        law_ready_repositories_are_offered(a, b.drop_last(), x);
        assert(ready_of(a + b) =~= ready_of(a) + ready_of(b));
    }
    if opt_view(x.phase) == Some("Ready"@) {
        assert(ready_of(seq![x]) =~= seq![x]);
    }
}

/// Of a list of backups those that succeeded are offered, in order.
pub proof fn law_succeeded_backups_are_offered(
    a: Seq<BackupListItem>,
    b: Seq<BackupListItem>,
    x: BackupListItem,
)
    ensures
        succeeded_of(a + b) == succeeded_of(a) + succeeded_of(b),
        opt_view(x.phase) == Some("Succeeded"@) ==> succeeded_of(seq![x]) == seq![x],
        !(opt_view(x.phase) == Some("Succeeded"@)) ==> succeeded_of(seq![x]).len() == 0,
    decreases b.len(),
{
    assert(seq![x].drop_last() =~= seq![]);
    assert(succeeded_of(seq![]) =~= seq![]);
    if b.len() == 0 {
        assert(a + b =~= a);
        assert(succeeded_of(a) + succeeded_of(b) =~= succeeded_of(a));
    } else {
        assert((a + b).drop_last() =~= a + b.drop_last());
        law_succeeded_backups_are_offered(a, b.drop_last(), x);
        assert(succeeded_of(a + b) =~= succeeded_of(a) + succeeded_of(b));
    }
    if opt_view(x.phase) == Some("Succeeded"@) {
        assert(succeeded_of(seq![x]) =~= seq![x]);
    }
}

/// Of the selected names those that are still offered stay selected, in order.
pub proof fn law_offered_names_stay_selected(
    a: Seq<Seq<char>>,
    b: Seq<Seq<char>>,
    x: Seq<char>,
    names: Seq<Seq<char>>,
)
    ensures
        still_offered(a + b, names) == still_offered(a, names) + still_offered(b, names),
        names.contains(x) ==> still_offered(seq![x], names) == seq![x],
        !(names.contains(x)) ==> still_offered(seq![x], names).len() == 0,
    decreases b.len(),
{
    assert(seq![x].drop_last() =~= seq![]);
    assert(still_offered(seq![], names) =~= seq![]);
    if b.len() == 0 {
        assert(a + b =~= a);
        assert(still_offered(a, names) + still_offered(b, names) =~= still_offered(a, names));
    } else {
        assert((a + b).drop_last() =~= a + b.drop_last());
        law_offered_names_stay_selected(a, b.drop_last(), x, names);
        assert(still_offered(a + b, names) =~= still_offered(a, names) + still_offered(b, names));
    }
    if names.contains(x) {
        assert(still_offered(seq![x], names) =~= seq![x]);
    }
}

/// Taking a name off leaves the others, in order.
pub proof fn law_other_names_stay_selected(
    a: Seq<Seq<char>>,
    b: Seq<Seq<char>>,
    x: Seq<char>,
    name: Seq<char>,
)
    ensures
        without(a + b, name) == without(a, name) + without(b, name),
        x != name ==> without(seq![x], name) == seq![x],
        !(x != name) ==> without(seq![x], name).len() == 0,
    decreases b.len(),
{
    assert(seq![x].drop_last() =~= seq![]);
    assert(without(seq![], name) =~= seq![]);
    if b.len() == 0 {
        assert(a + b =~= a);
        assert(without(a, name) + without(b, name) =~= without(a, name));
    } else {
        assert((a + b).drop_last() =~= a + b.drop_last());
        law_other_names_stay_selected(a, b.drop_last(), x, name);
        assert(without(a + b, name) =~= without(a, name) + without(b, name));
    }
    if x != name {
        assert(without(seq![x], name) =~= seq![x]);
    }
}

/// What was selected stays shown while it is offered; else something that is offered is shown.
pub proof fn law_selection_is_kept_while_offered(values: Seq<Seq<char>>, current: Seq<char>)
    ensures
        values.contains(current) ==> shown_value(values, current) == current && shown_namespace(
            values,
            current,
        ) == current,
        values.len() > 0 ==> values.contains(shown_value(values, current)) && values.contains(
            shown_namespace(values, current),
        ),
        values.len() == 0 ==> shown_value(values, current) == ""@ && shown_namespace(
            values,
            current,
        ) == "default"@,
        !values.contains(current) && values.contains("default"@) ==> shown_namespace(values, current)
            == "default"@,
        !values.contains(current) && values.len() > 0 ==> shown_value(values, current) == values[0],
{
}

/// Checking a name that is selected changes nothing, and checking one that is not puts it last.
pub proof fn law_checked_names_come_last(selected: Seq<Seq<char>>, name: Seq<char>)
    ensures
        selected.contains(name) ==> toggled(selected, name, true) == selected,
        !selected.contains(name) ==> toggled(selected, name, true) == selected + seq![name],
{
    assert(selected.push(name) =~= selected + seq![name]);
}

/// A number in the field is read as it is written, and everything else as nothing to keep.
pub proof fn law_keep_field_is_read_as_written(n: u32, field: Seq<char>)
    ensures
        keep_value(crate::text::decimal(n as nat)) == n,
        u32_value(trim(field)) is None ==> keep_value(field) == 0,
        u32_value(trim(field)) is Some ==> keep_value(field) == u32_value(trim(field))->0,
{
    let d = crate::text::decimal(n as nat);
    crate::search::law_decimal_reads_back(n as nat);
    assert(crate::search::all_digits(d));
    assert(crate::text::is_digit(d[0]) && crate::text::is_digit(d[d.len() - 1]));
    lemma_trimmed_ends(d);
}

/// A policy form is taken exactly where it is filled in: a name, a namespace, a repository, a
/// claim, a schedule where it is custom, and a number of runs to keep.
pub proof fn law_filled_policy_forms_are_taken(form: PolicyForm)
    ensures
        policy_form_fault(form) is None <==> !blank(form.name@) && !blank(form.namespace@) && picked(
            trim(form.selected_repo@),
        ) is Some && form.selected_pvcs@.len() > 0 && !(form.schedule_preset
            == SchedulePreset::Custom && blank(form.custom_cron@)) && keep_value(form.keep_last@)
            > 0,
{
}

/// A filled policy form asks for a policy for its own namespace, with the claims that were selected
/// and in the repository that was picked.
pub proof fn law_policy_form_asks_for_what_was_filled_in(
    form: PolicyForm,
    req: CreateBackupPolicyRequest,
    namespace: Seq<char>,
    name: Seq<char>,
)
    requires
        is_request_of_policy_form(form, req),
        policy_form_fault(form) is None,
        form.selected_repo@ == ns_name_text(namespace, name),
        namespace.len() > 0,
        name.len() > 0,
        trim(namespace) == namespace,
        trim(name) == name,
        !namespace.contains('/'),
    ensures
        req.repository_ref@ == name,
        opt_view(req.repository_namespace) == Some(namespace),
        Some(req.name@) == named(Some(form.name@)),
        Some(req.namespace@) == named(Some(form.namespace@)),
        req.target_namespace@ == req.namespace@,
        req.pvc_names.deep_view() == form.selected_pvcs.deep_view(),
        req.keep_last == Some(keep_value(form.keep_last@)) && req.keep_last->0 > 0,
        opt_view(req.schedule) == form_cron(form.schedule_preset, form.custom_cron@),
        form.schedule_preset != SchedulePreset::Off ==> req.schedule is Some,
        req.paused is None,
{
    lemma_picked_trimmed(namespace, name);
    lemma_trim_empty_iff_blank(form.name@);
    lemma_trim_empty_iff_blank(form.namespace@);
    lemma_trim_empty_iff_blank(form.custom_cron@);
}

proof fn lemma_picked_trimmed(namespace: Seq<char>, name: Seq<char>)
    requires
        namespace.len() > 0,
        name.len() > 0,
        trim(namespace) == namespace,
        trim(name) == name,
        !namespace.contains('/'),
    ensures
        picked(trim(ns_name_text(namespace, name))) == Some((namespace, name)),
{
    let value = ns_name_text(namespace, name);
    reveal_strlit("/");
    law_picked_object_is_the_offered_one(namespace, name);
    lemma_trimmed_ends(namespace);
    lemma_trimmed_ends(name);
    assert(value[0] == namespace[0]);
    assert(value.last() == name.last());
    lemma_trimmed_ends(value);
}

/// A restore form is taken exactly where it is filled in: a name, a namespace and a backup.
pub proof fn law_filled_restore_forms_are_taken(form: RestoreForm)
    ensures
        restore_form_fault(form) is None <==> !blank(form.name@) && !blank(form.namespace@) && picked(
            trim(form.selected_backup@),
        ) is Some,
{
}

/// A filled restore form asks for the backup that was picked, into its own namespace.
pub proof fn law_restore_form_asks_for_what_was_filled_in(
    form: RestoreForm,
    req: CreateRestoreRequest,
    namespace: Seq<char>,
    name: Seq<char>,
)
    requires
        is_request_of_restore_form(form, req),
        restore_form_fault(form) is None,
        form.selected_backup@ == ns_name_text(namespace, name),
        namespace.len() > 0,
        name.len() > 0,
        trim(namespace) == namespace,
        trim(name) == name,
        !namespace.contains('/'),
    ensures
        req.backup_ref@ == name,
        opt_view(req.backup_namespace) == Some(namespace),
        Some(req.name@) == named(Some(form.name@)),
        Some(req.namespace@) == named(Some(form.namespace@)),
        req.target_namespace@ == req.namespace@,
        opt_view(req.snapshot_id) == named(Some(form.snapshot_id@)),
        req.overwrite == form.overwrite,
{
    lemma_picked_trimmed(namespace, name);
    lemma_trim_empty_iff_blank(form.name@);
    lemma_trim_empty_iff_blank(form.namespace@);
}

/// A form that is filled in for a run names the restore after it.
pub proof fn law_prefilled_form_is_named_after_the_run(
    form: RestoreForm,
    namespace: Seq<char>,
    run: Seq<char>,
)
    requires
        is_prefilled(form, namespace, run),
    ensures
        run.is_prefix_of(form.name@),
        form.name@.len() > run.len(),
        form.namespace@ == namespace,
        form.snapshot_id@.len() == 0,
        !form.overwrite,
{
    reveal_strlit("-restore");
    reveal_strlit("");
    assert(form.name@.subrange(0, run.len() as int) =~= run);
}

/// Nothing is picked where the text has no slash, or nothing on one side of it.
pub proof fn law_half_a_choice_is_none(value: Seq<char>)
    ensures
        picked(value) matches Some((ns, name)) ==> ns.len() > 0 && name.len() > 0 && (split_first(
            value,
            "/"@,
        ) matches Some((a, b)) && ns == trim(a) && name == trim(b)),
        picked(value) is None ==> (split_first(value, "/"@) matches Some((a, b)) ==> blank(a) || blank(
            b,
        )),
{
    if let Some((a, b)) = split_first(value, "/"@) {
        lemma_trim_empty_iff_blank(a);
        lemma_trim_empty_iff_blank(b);
    }
}

/// A run or a restore is polled for exactly while its phase is not final.
pub proof fn law_open_phases_are_those_not_final(
    phase: Option<String>,
    b: crate::crd::BackupPhase,
    r: crate::crd::RestorePhase,
)
    ensures
        phase is None ==> is_open_phase(phase),
        opt_view(phase) == Some(b.text()) ==> (is_open_phase(phase) <==> !b.terminal()),
        opt_view(phase) == Some(r.text()) ==> (is_open_phase(phase) <==> !r.terminal()),
{
    reveal_strlit("Pending");
    reveal_strlit("Running");
    reveal_strlit("Succeeded");
    reveal_strlit("Failed");
    assert("Pending"@[0] == 'P' && "Running"@[0] == 'R' && "Succeeded"@[0] == 'S' && "Failed"@[0]
        == 'F');
}

} // verus!
