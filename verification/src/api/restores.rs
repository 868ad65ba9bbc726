//! Restores over the API.
use super::common::{refuses, require_non_empty, required_text, ApiResult};
use crate::crd::{ObjectMeta, ProteusRestore, ProteusRestoreSpec};
use crate::text::{blank, copy_option, named, opt_view, optional_trimmed, trim};
use vstd::prelude::*;

verus! {

/// A restore as it is listed.
#[derive(Debug, Clone, PartialEq, Eq)]
pub struct RestoreListItem {
    pub name: String,
    pub namespace: String,
    pub backup_ref: String,
    pub target_namespace: String,
    pub phase: Option<String>,
    pub message: Option<String>,
    pub restored_snapshot_id: Option<String>,
    pub data_plane: Option<String>,
    pub assigned_node: Option<String>,
}

/// A restore to create.
#[derive(Debug, Clone, PartialEq, Eq)]
pub struct CreateRestoreRequest {
    pub name: String,
    /// Namespace of the restore itself; the target namespace where unset.
    pub namespace: Option<String>,
    pub backup_ref: String,
    /// Namespace of the source backup; the restore's own where unset.
    pub backup_namespace: Option<String>,
    /// The backup's latest snapshot where unset.
    pub snapshot_id: Option<String>,
    pub target_namespace: String,
    pub overwrite: bool,
}

/// Whether `item` lists the restore.
pub open spec fn lists_restore(obj: ProteusRestore, item: RestoreListItem) -> bool {
    let s = obj.status_view();
    &&& item.name@ == obj.metadata.any_name()
    &&& item.namespace@ == obj.metadata.namespace_or("default"@)
    &&& item.backup_ref@ == obj.spec.backup_ref@
    &&& item.target_namespace@ == obj.spec.target_namespace@
    &&& opt_view(item.phase) == (match s.phase {
        Some(p) => Some(p.text()),
        None => None,
    })
    &&& opt_view(item.message) == s.message
    &&& opt_view(item.restored_snapshot_id) == s.restored_snapshot_id
    &&& opt_view(item.data_plane) == (match s.data_plane {
        Some(p) => Some(p.text()),
        None => None,
    })
    &&& opt_view(item.assigned_node) == s.assigned_node
}

/// A restore as it is listed.
pub fn restore_list_item(obj: &ProteusRestore) -> (res: RestoreListItem)
    ensures
        lists_restore(*obj, res),
{
    let name = obj.metadata.name_any();
    let namespace = obj.metadata.namespace_or_else("default");
    let backup_ref = obj.spec.backup_ref.clone();
    let target_namespace = obj.spec.target_namespace.clone();
    match &obj.status {
        Some(s) => {
            let phase: Option<String> = match s.phase {
                Some(p) => Some(p.label()),
                None => None,
            };
            let data_plane: Option<String> = match s.data_plane {
                Some(p) => Some(p.label()),
                None => None,
            };
            RestoreListItem {
                name,
                namespace,
                backup_ref,
                target_namespace,
                phase,
                message: copy_option(&s.message),
                restored_snapshot_id: copy_option(&s.restored_snapshot_id),
                data_plane,
                assigned_node: copy_option(&s.assigned_node),
            }
        },
        None => RestoreListItem {
            name,
            namespace,
            backup_ref,
            target_namespace,
            phase: None,
            message: None,
            restored_snapshot_id: None,
            data_plane: None,
            assigned_node: None,
        },
    }
}

/// The restores as they are listed, in order.
pub fn list_restores(objs: &Vec<ProteusRestore>) -> (res: Vec<RestoreListItem>)
    ensures
        res@.len() == objs@.len(),
        forall|i: int| 0 <= i < res@.len() ==> lists_restore(objs@[i], #[trigger] res@[i]),
{
    let mut out: Vec<RestoreListItem> = Vec::new();
    let mut i: usize = 0;
    while i < objs.len()
        invariant
            i <= objs@.len(),
            out@.len() == i,
            forall|k: int| 0 <= k < i ==> lists_restore(objs@[k], #[trigger] out@[k]),
        decreases objs@.len() - i,
    {
        out.push(restore_list_item(&objs[i]));
        i += 1;
    }
    out
}

/// Why a request for a restore is refused, if it is.
pub open spec fn restore_refusal(req: CreateRestoreRequest) -> Option<Seq<char>> {
    if blank(req.name@) {
        Some(required_text("name"@))
    } else if blank(req.target_namespace@) {
        Some(required_text("targetNamespace"@))
    } else if blank(req.backup_ref@) {
        Some(required_text("backupRef"@))
    } else {
        None
    }
}

/// Whether `ns` and `restore` are what the request asks for.
pub open spec fn is_restore_of(
    req: CreateRestoreRequest,
    ns: Seq<char>,
    restore: ProteusRestore,
) -> bool {
    &&& ns == (match named(opt_view(req.namespace)) {
        Some(n) => n,
        None => trim(req.target_namespace@),
    })
    &&& opt_view(restore.metadata.name) == Some(trim(req.name@))
    &&& opt_view(restore.metadata.namespace) == Some(ns)
    &&& restore.metadata.generate_name is None
    &&& restore.metadata.uid is None
    &&& restore.metadata.creation_timestamp is None
    &&& restore.spec.backup_ref@ == trim(req.backup_ref@)
    &&& opt_view(restore.spec.backup_namespace) == named(opt_view(req.backup_namespace))
    &&& opt_view(restore.spec.snapshot_id) == named(opt_view(req.snapshot_id))
    &&& restore.spec.target_namespace@ == trim(req.target_namespace@)
    &&& restore.spec.overwrite == req.overwrite
    &&& restore.spec.include_resources is None
    &&& restore.status is None
}

/// The restore that a request asks for, and its namespace.
pub fn build_restore(req: &CreateRestoreRequest) -> (res: ApiResult<(String, ProteusRestore)>)
    ensures
        match res {
            Ok((ns, restore)) => restore_refusal(*req) is None && is_restore_of(*req, ns@, restore),
            Err(e) => restore_refusal(*req) is Some && refuses(e, restore_refusal(*req)->0),
        },
{
    let name = match require_non_empty("name", Some(req.name.as_str())) {
        Ok(s) => s,
        Err(e) => {
            return Err(e);
        },
    };
    let target_namespace = match require_non_empty(
        "targetNamespace",
        Some(req.target_namespace.as_str()),
    ) {
        Ok(s) => s,
        Err(e) => {
            return Err(e);
        },
    };
    let backup_ref = match require_non_empty("backupRef", Some(req.backup_ref.as_str())) {
        Ok(s) => s,
        Err(e) => {
            return Err(e);
        },
    };
    let namespace = match optional_trimmed(&req.namespace) {
        Some(ns) => ns,
        None => target_namespace.clone(),
    };
    let restore = ProteusRestore {
        metadata: ObjectMeta {
            name: Some(name),
            namespace: Some(namespace.clone()),
            ..ObjectMeta::default()
        },
        spec: ProteusRestoreSpec {
            backup_ref,
            backup_namespace: optional_trimmed(&req.backup_namespace),
            snapshot_id: optional_trimmed(&req.snapshot_id),
            target_namespace,
            overwrite: req.overwrite,
            include_resources: None,
        },
        status: None,
    };
    Ok((namespace, restore))
}

/// A restore is refused exactly where a name is blank.
pub proof fn law_complete_restores_are_taken(req: CreateRestoreRequest)
    ensures
        restore_refusal(req) is None <==> !blank(req.name@) && !blank(req.target_namespace@) && !blank(
            req.backup_ref@,
        ),
{
}

/// A restore that was created asks for what the request asked for, without the white space round
/// it, and is listed so, with nothing said of its state.
pub proof fn law_created_restore_is_listed(
    req: CreateRestoreRequest,
    ns: Seq<char>,
    restore: ProteusRestore,
    item: RestoreListItem,
)
    requires
        restore_refusal(req) is None,
        is_restore_of(req, ns, restore),
        lists_restore(restore, item),
    ensures
        item.name@ == trim(req.name@),
        item.namespace@ == ns,
        item.backup_ref@ == trim(req.backup_ref@),
        item.target_namespace@ == trim(req.target_namespace@),
        item.phase is None,
        item.message is None,
        item.restored_snapshot_id is None,
        item.data_plane is None,
        item.assigned_node is None,
        opt_view(restore.spec.backup_namespace) == named(opt_view(req.backup_namespace)),
        opt_view(restore.spec.snapshot_id) == named(opt_view(req.snapshot_id)),
        restore.spec.overwrite == req.overwrite,
        named(opt_view(req.namespace)) is Some ==> ns == named(opt_view(req.namespace))->0,
        named(opt_view(req.namespace)) is None ==> ns == item.target_namespace@,
{
}

/// A listed restore tells its state as its status has it.
pub proof fn law_listed_restore_tells_its_state(obj: ProteusRestore, item: RestoreListItem)
    requires
        lists_restore(obj, item),
        obj.status is Some,
    ensures
        ({
            let s = obj.status->0;
            &&& opt_view(item.message) == opt_view(s.message)
            &&& opt_view(item.restored_snapshot_id) == opt_view(s.restored_snapshot_id)
            &&& opt_view(item.assigned_node) == opt_view(s.assigned_node)
            &&& item.phase is None <==> s.phase is None
            &&& opt_view(item.phase) == Some("Succeeded"@) <==> s.phase == Some(
                crate::crd::RestorePhase::Succeeded,
            )
            &&& opt_view(item.phase) == Some("Failed"@) <==> s.phase == Some(
                crate::crd::RestorePhase::Failed,
            )
            &&& opt_view(item.phase) == Some("Running"@) <==> s.phase == Some(
                crate::crd::RestorePhase::Running,
            )
            &&& opt_view(item.phase) == Some("Pending"@) <==> s.phase == Some(
                crate::crd::RestorePhase::Pending,
            )
            &&& item.data_plane is None <==> s.data_plane is None
            &&& opt_view(item.data_plane) == Some("agent"@) <==> s.data_plane == Some(
                crate::crd::DataPlane::Agent,
            )
            &&& opt_view(item.data_plane) == Some("exec"@) <==> s.data_plane == Some(
                crate::crd::DataPlane::Exec,
            )
        }),
        opt_view(obj.metadata.namespace) == Some(item.namespace@) || (obj.metadata.namespace is None
            && item.namespace@ == "default"@),
{
    reveal_strlit("Pending");
    reveal_strlit("Running");
    reveal_strlit("Succeeded");
    reveal_strlit("Failed");
    reveal_strlit("agent");
    reveal_strlit("exec");
    assert("Pending"@[0] == 'P' && "Running"@[0] == 'R' && "Succeeded"@[0] == 'S' && "Failed"@[0]
        == 'F');
    assert("agent"@[0] == 'a' && "exec"@[0] == 'e');
}

} // verus!
