//! Backup policies over the API.
use super::common::{
    bad_request, named_list, named_of, refuses, require_non_empty, required_text, ApiResult,
    DEFAULT_NAMESPACE,
};
use crate::crd::{
    ObjectMeta, ProteusBackupPolicy, ProteusBackupPolicySpec, RetentionPolicy,
};
use crate::text::{blank, copy_list, copy_option, named, opt_view, optional_trimmed, trim};
use vstd::prelude::*;

verus! {

/// A policy as it is listed.
#[derive(Debug, Clone, PartialEq, Eq)]
pub struct BackupPolicyListItem {
    pub name: String,
    pub namespace: String,
    pub repository_ref: String,
    pub repository_namespace: Option<String>,
    pub target_namespace: String,
    pub pvc_names: Vec<String>,
    pub schedule: Option<String>,
    pub keep_last: u32,
    pub max_age_days: Option<u32>,
    pub phase: Option<String>,
    pub message: Option<String>,
}

/// A policy to create.
#[derive(Debug, Clone, PartialEq, Eq)]
pub struct CreateBackupPolicyRequest {
    pub name: String,
    pub namespace: Option<String>,
    pub repository_ref: String,
    pub repository_namespace: Option<String>,
    pub target_namespace: String,
    pub pvc_names: Vec<String>,
    pub schedule: Option<String>,
    pub keep_last: Option<u32>,
    pub max_age_days: Option<u32>,
}

/// Whether `item` lists the policy.
pub open spec fn lists_policy(obj: ProteusBackupPolicy, item: BackupPolicyListItem) -> bool {
    &&& item.name@ == obj.metadata.any_name()
    &&& item.namespace@ == obj.metadata.namespace_or("default"@)
    &&& item.repository_ref@ == obj.spec.repository_ref@
    &&& opt_view(item.repository_namespace) == opt_view(obj.spec.repository_namespace)
    &&& item.target_namespace@ == obj.spec.target_namespace@
    &&& item.pvc_names.deep_view() == obj.spec.pvc_names.deep_view()
    &&& opt_view(item.schedule) == opt_view(obj.spec.schedule)
    &&& item.keep_last == obj.spec.retention.keep_last
    &&& item.max_age_days == obj.spec.retention.max_age_days
    &&& opt_view(item.phase) == (match obj.status {
        Some(s) => match s.phase {
            Some(p) => Some(p.text()),
            None => None,
        },
        None => None,
    })
    &&& opt_view(item.message) == (match obj.status {
        Some(s) => opt_view(s.message),
        None => None,
    })
}

/// A policy as it is listed.
pub fn policy_list_item(obj: &ProteusBackupPolicy) -> (res: BackupPolicyListItem)
    ensures
        lists_policy(*obj, res),
{
    let (phase, message) = match &obj.status {
        Some(s) => {
            let phase: Option<String> = match s.phase {
                Some(p) => Some(p.label()),
                None => None,
            };
            (phase, copy_option(&s.message))
        },
        None => (None, None),
    };
    let res = BackupPolicyListItem {
        name: obj.metadata.name_any(),
        namespace: obj.metadata.namespace_or_else("default"),
        repository_ref: obj.spec.repository_ref.clone(),
        repository_namespace: copy_option(&obj.spec.repository_namespace),
        target_namespace: obj.spec.target_namespace.clone(),
        pvc_names: copy_list(&obj.spec.pvc_names),
        schedule: copy_option(&obj.spec.schedule),
        keep_last: obj.spec.retention.keep_last,
        max_age_days: obj.spec.retention.max_age_days,
        phase,
        message,
    };
    assert(res.pvc_names.deep_view() =~= obj.spec.pvc_names.deep_view());
    res
}

/// The policies as they are listed, in order.
pub fn list_backup_policies(objs: &Vec<ProteusBackupPolicy>) -> (res: Vec<BackupPolicyListItem>)
    ensures
        res@.len() == objs@.len(),
        forall|i: int| 0 <= i < res@.len() ==> lists_policy(objs@[i], #[trigger] res@[i]),
{
    let mut out: Vec<BackupPolicyListItem> = Vec::new();
    let mut i: usize = 0;
    while i < objs.len()
        invariant
            i <= objs@.len(),
            out@.len() == i,
            forall|k: int| 0 <= k < i ==> lists_policy(objs@[k], #[trigger] out@[k]),
        decreases objs@.len() - i,
    {
        out.push(policy_list_item(&objs[i]));
        i += 1;
    }
    out
}

/// How many runs are kept: as many as asked for, else seven.
pub open spec fn kept_runs(keep_last: Option<u32>) -> u32 {
    match keep_last {
        Some(k) => k,
        None => 7,
    }
}

/// Why a request for a policy is refused, if it is.
pub open spec fn policy_refusal(req: CreateBackupPolicyRequest) -> Option<Seq<char>> {
    if blank(req.name@) {
        Some(required_text("name"@))
    } else if blank(req.target_namespace@) {
        Some(required_text("targetNamespace"@))
    } else if blank(req.repository_ref@) {
        Some(required_text("repositoryRef"@))
    } else if named_of(req.pvc_names.deep_view()).len() == 0 {
        Some("pvcNames must contain at least one PVC name"@)
    } else if kept_runs(req.keep_last) == 0 {
        Some("keepLast must be >= 1"@)
    } else {
        None
    }
}

/// Whether `ns` and `policy` are what the request asks for.
pub open spec fn is_policy_of(
    req: CreateBackupPolicyRequest,
    ns: Seq<char>,
    policy: ProteusBackupPolicy,
) -> bool {
    &&& ns == (match named(opt_view(req.namespace)) {
        Some(n) => n,
        None => DEFAULT_NAMESPACE@,
    })
    &&& opt_view(policy.metadata.name) == Some(trim(req.name@))
    &&& opt_view(policy.metadata.namespace) == Some(ns)
    &&& policy.metadata.generate_name is None
    &&& policy.metadata.uid is None
    &&& policy.metadata.creation_timestamp is None
    &&& policy.spec.repository_ref@ == trim(req.repository_ref@)
    &&& opt_view(policy.spec.repository_namespace) == named(opt_view(req.repository_namespace))
    &&& policy.spec.target_namespace@ == trim(req.target_namespace@)
    &&& policy.spec.pvc_names.deep_view() == named_of(req.pvc_names.deep_view())
    &&& policy.spec.label_selector is None
    &&& opt_view(policy.spec.schedule) == named(opt_view(req.schedule))
    &&& !policy.spec.paused
    &&& policy.spec.retention.keep_last == kept_runs(req.keep_last)
    &&& policy.spec.retention.max_age_days == req.max_age_days
    &&& policy.spec.include_volumes
    &&& !policy.spec.include_cluster_resources
    &&& policy.status is None
}

/// The policy that a request asks for, and its namespace.
pub fn build_backup_policy(req: &CreateBackupPolicyRequest) -> (res: ApiResult<
    (String, ProteusBackupPolicy),
>)
    ensures
        match res {
            Ok((ns, policy)) => policy_refusal(*req) is None && is_policy_of(*req, ns@, policy),
            Err(e) => policy_refusal(*req) is Some && refuses(e, policy_refusal(*req)->0),
        },
{
    let name = match require_non_empty("name", Some(req.name.as_str())) {
        Ok(s) => s,
        Err(e) => {
            return Err(e);
        },
    };
    let target_namespace = match require_non_empty(
        "targetNamespace",
        Some(req.target_namespace.as_str()),
    ) {
        Ok(s) => s,
        Err(e) => {
            return Err(e);
        },
    };
    let repository_ref = match require_non_empty(
        "repositoryRef",
        Some(req.repository_ref.as_str()),
    ) {
        Ok(s) => s,
        Err(e) => {
            return Err(e);
        },
    };
    let namespace = match optional_trimmed(&req.namespace) {
        Some(ns) => ns,
        None => DEFAULT_NAMESPACE.to_owned(),
    };
    let pvc_names = named_list(&req.pvc_names);
    if pvc_names.len() == 0 {
        return Err(bad_request("pvcNames must contain at least one PVC name"));
    }
    let keep_last: u32 = match req.keep_last {
        Some(k) => k,
        None => 7,
    };
    if keep_last == 0 {
        return Err(bad_request("keepLast must be >= 1"));
    }
    let policy = ProteusBackupPolicy {
        metadata: ObjectMeta {
            name: Some(name),
            namespace: Some(namespace.clone()),
            ..ObjectMeta::default()
        },
        spec: ProteusBackupPolicySpec {
            repository_ref,
            repository_namespace: optional_trimmed(&req.repository_namespace),
            target_namespace,
            pvc_names,
            label_selector: None,
            schedule: optional_trimmed(&req.schedule),
            paused: false,
            retention: RetentionPolicy { keep_last, max_age_days: req.max_age_days },
            include_volumes: true,
            include_cluster_resources: false,
        },
        status: None,
    };
    Ok((namespace, policy))
}

/// A policy is refused exactly where a name is blank, no claim is named or no run would be kept.
pub proof fn law_complete_policies_are_taken(req: CreateBackupPolicyRequest)
    ensures
        policy_refusal(req) is None <==> !blank(req.name@) && !blank(req.target_namespace@) && !blank(
            req.repository_ref@,
        ) && (exists|i: int| 0 <= i < req.pvc_names@.len() && !blank(#[trigger] req.pvc_names@[i]@))
            && req.keep_last != Some(0u32),
{
    let list = req.pvc_names.deep_view();
    super::common::law_list_names_nothing_where_all_is_blank(list);
    if forall|i: int| 0 <= i < list.len() ==> blank(#[trigger] list[i]) {
        assert forall|i: int| 0 <= i < req.pvc_names@.len() implies blank(
            #[trigger] req.pvc_names@[i]@,
        ) by {
            assert(list[i] == req.pvc_names@[i]@);
        }
    } else {
        let i = choose|i: int| 0 <= i < list.len() && !blank(#[trigger] list[i]);
        assert(list[i] == req.pvc_names@[i]@);
    }
}

/// A policy that was created is listed with what the request asked for, without the white space
/// round it, and with nothing said of its state.
pub proof fn law_created_policy_is_listed(
    req: CreateBackupPolicyRequest,
    ns: Seq<char>,
    policy: ProteusBackupPolicy,
    item: BackupPolicyListItem,
)
    requires
        policy_refusal(req) is None,
        is_policy_of(req, ns, policy),
        lists_policy(policy, item),
    ensures
        item.name@ == trim(req.name@),
        item.namespace@ == ns,
        item.repository_ref@ == trim(req.repository_ref@),
        opt_view(item.repository_namespace) == named(opt_view(req.repository_namespace)),
        item.target_namespace@ == trim(req.target_namespace@),
        item.pvc_names.deep_view() == named_of(req.pvc_names.deep_view()),
        opt_view(item.schedule) == named(opt_view(req.schedule)),
        item.keep_last == (if req.keep_last is Some {
            req.keep_last->0
        } else {
            7u32
        }),
        item.max_age_days == req.max_age_days,
        item.phase is None,
        item.message is None,
        named(opt_view(req.namespace)) is Some ==> ns == named(opt_view(req.namespace))->0,
        named(opt_view(req.namespace)) is None ==> ns == "proteus-system"@,
{
}

/// A policy that was created has all that a run needs, and is not paused.
pub proof fn law_created_policy_can_be_run(
    req: CreateBackupPolicyRequest,
    ns: Seq<char>,
    policy: ProteusBackupPolicy,
)
    requires
        policy_refusal(req) is None,
        is_policy_of(req, ns, policy),
    ensures
        crate::recipe::policy_recipe(policy).fault() is None,
        policy.spec.include_volumes,
        !policy.spec.paused,
{
    crate::text::lemma_trim_empty_iff_blank(req.repository_ref@);
    crate::text::lemma_trim_empty_iff_blank(req.target_namespace@);
}

/// A listed policy tells its state: the label of its phase and its message, and what its spec says.
pub proof fn law_listed_policy_tells_its_state(
    obj: ProteusBackupPolicy,
    item: BackupPolicyListItem,
)
    requires
        lists_policy(obj, item),
    ensures
        obj.status is None ==> item.phase is None && item.message is None,
        obj.status matches Some(s) ==> opt_view(item.message) == opt_view(s.message) && (s.phase
            == Some(crate::crd::BackupPolicyPhase::Ready) <==> opt_view(item.phase) == Some(
            "Ready"@,
        )) && (s.phase == Some(crate::crd::BackupPolicyPhase::Invalid) <==> opt_view(item.phase)
            == Some("Invalid"@)),
        item.keep_last == obj.spec.retention.keep_last,
        item.max_age_days == obj.spec.retention.max_age_days,
        opt_view(obj.metadata.namespace) == Some(item.namespace@) || (obj.metadata.namespace is None
            && item.namespace@ == "default"@),
{
    reveal_strlit("Ready");
    reveal_strlit("Invalid");
    assert("Ready"@[0] == 'R' && "Invalid"@[0] == 'I');
}

} // verus!
