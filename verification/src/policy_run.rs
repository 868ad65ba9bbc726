//! The reconcile of a backup policy: whether it can be run. It never starts a backup.
use crate::crd::{
    BackupPolicyPhase, ProteusBackupPolicy, ProteusBackupPolicyStatus,
};
use crate::recipe::{policy_fault, validate_policy_spec};
use crate::text::{opt_view, same_option};
use vstd::prelude::*;

verus! {

/// Whether `next` is to replace `current`.
pub open spec fn changed(
    current: Option<&ProteusBackupPolicyStatus>,
    next: ProteusBackupPolicyStatus,
) -> bool {
    match current {
        None => true,
        Some(cur) => cur.phase != next.phase || opt_view(cur.message) != opt_view(next.message),
    }
}

/// Whether `next` is to replace `current`.
pub fn status_changed(
    current: Option<&ProteusBackupPolicyStatus>,
    next: &ProteusBackupPolicyStatus,
) -> (res: bool)
    ensures
        res == changed(current, *next),
{
    match current {
        None => true,
        Some(cur) => cur.phase != next.phase || !same_option(&cur.message, &next.message),
    }
}

/// Whether `status` says of a policy what its check found.
pub open spec fn is_status_of(
    policy: ProteusBackupPolicy,
    status: ProteusBackupPolicyStatus,
) -> bool {
    match policy_fault(policy) {
        None => status.phase == Some(BackupPolicyPhase::Ready) && opt_view(status.message) == Some(
            "policy is valid"@,
        ),
        Some(m) => status.phase == Some(BackupPolicyPhase::Invalid) && opt_view(status.message)
            == Some(m),
    }
}

/// What the check of a policy found.
pub fn policy_status(policy: &ProteusBackupPolicy) -> (res: ProteusBackupPolicyStatus)
    ensures
        is_status_of(*policy, res),
{
    match validate_policy_spec(policy) {
        Ok(_) => ProteusBackupPolicyStatus {
            phase: Some(BackupPolicyPhase::Ready),
            message: Some(String::from_str("policy is valid")),
        },
        Err(message) => ProteusBackupPolicyStatus {
            phase: Some(BackupPolicyPhase::Invalid),
            message: Some(message),
        },
    }
}

/// What a reconcile of a policy does: write the status where there is one, and look again after
/// the given seconds.
pub struct PolicyAction {
    pub patch: Option<ProteusBackupPolicyStatus>,
    pub requeue_secs: u64,
}

/// What a reconcile of a policy does.
pub fn reconcile_backup_policy(obj: &ProteusBackupPolicy) -> (res: PolicyAction)
    ensures
        res.requeue_secs == 300,
        match res.patch {
            Some(status) => is_status_of(*obj, status) && changed(
                match obj.status {
                    Some(s) => Some(&s),
                    None => None,
                },
                status,
            ),
            None => obj.status matches Some(s) && exists|status: ProteusBackupPolicyStatus| #[trigger]
                is_status_of(*obj, status) && !changed(Some(&s), status),
        },
{
    let status = policy_status(obj);
    if status_changed(obj.status.as_ref(), &status) {
        PolicyAction { patch: Some(status), requeue_secs: 300 }
    } else {
        PolicyAction { patch: None, requeue_secs: 300 }
    }
}

/// Once a policy's status says what its check found, a reconcile writes nothing.
pub proof fn law_reconciled_policy_is_stable(
    policy: ProteusBackupPolicy,
    written: ProteusBackupPolicyStatus,
    next: ProteusBackupPolicyStatus,
)
    requires
        is_status_of(policy, written),
        is_status_of(policy, next),
    ensures
        !changed(Some(&written), next),
{
}

/// A policy is recorded as ready exactly where it can be run, and else as invalid, with what is
/// wrong with it.
pub proof fn law_policy_status_says_whether_it_can_be_run(
    policy: ProteusBackupPolicy,
    status: ProteusBackupPolicyStatus,
)
    requires
        is_status_of(policy, status),
    ensures
        status.phase == Some(BackupPolicyPhase::Ready) <==> policy_fault(policy) is None,
        status.phase == Some(BackupPolicyPhase::Invalid) <==> policy_fault(policy) is Some,
        policy_fault(policy) is Some ==> opt_view(status.message) == policy_fault(policy),
{
}

/// A status is written where phase or message change, and only there.
pub proof fn law_policy_changes_are_written(
    cur: ProteusBackupPolicyStatus,
    next: ProteusBackupPolicyStatus,
)
    ensures
        changed(Some(&cur), next) <==> cur.phase != next.phase || opt_view(cur.message) != opt_view(
            next.message,
        ),
        changed(None, next),
{
}

} // verus!
