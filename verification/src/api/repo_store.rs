//! Which snapshots of a repository outlive the deletion of a backup.
use super::backups::{backup_repository, resolve_backup_repository};
use crate::crd::{ProteusBackup, ProteusBackupPolicy};
use crate::order::reversed;
use crate::text::{named, opt_view, optional_trimmed, same_text};
use vstd::prelude::*;

verus! {

/// The snapshot that a backup refers to.
pub open spec fn snapshot_of(backup: ProteusBackup) -> Option<Seq<char>> {
    named(backup.status_view().last_snapshot_id)
}

/// The snapshot that a backup refers to.
pub fn snapshot_id(backup: &ProteusBackup) -> (res: Option<String>)
    ensures
        opt_view(res) == snapshot_of(*backup),
{
    match &backup.status {
        Some(s) => optional_trimmed(&s.last_snapshot_id),
        None => None,
    }
}

/// A backup of the cluster, with what came back for its policy where it names one.
pub struct ListedBackup {
    pub backup: ProteusBackup,
    pub policy: Option<Result<ProteusBackupPolicy, String>>,
}

impl ListedBackup {
    /// The namespace of the backup.
    pub open spec fn namespace(&self) -> Seq<char> {
        self.backup.metadata.namespace_or("default"@)
    }

    /// Whether this is the backup of that namespace and name.
    pub open spec fn is(&self, namespace: Seq<char>, name: Seq<char>) -> bool {
        self.namespace() == namespace && self.backup.metadata.any_name() == name
    }

    /// Whether the backup may hold data in the repository: it does, or its repository is not
    /// known.
    pub open spec fn may_use(&self, repo_namespace: Seq<char>, repo_ref: Seq<char>) -> bool {
        match backup_repository(self.backup, self.namespace(), self.policy) {
            Ok(r) => r == (repo_namespace, repo_ref),
            Err(_) => true,
        }
    }
}

/// The snapshots of all backups but the deleted one that may be in the repository, in order.
pub open spec fn kept_snapshots(
    listed: Seq<ListedBackup>,
    deleting_namespace: Seq<char>,
    deleting_name: Seq<char>,
    repo_namespace: Seq<char>,
    repo_ref: Seq<char>,
) -> Seq<Seq<char>>
    decreases listed.len(),
{
    if listed.len() == 0 {
        seq![]
    } else {
        let rest = kept_snapshots(
            listed.drop_last(),
            deleting_namespace,
            deleting_name,
            repo_namespace,
            repo_ref,
        );
        let b = listed.last();
        match snapshot_of(b.backup) {
            Some(id) => if !b.is(deleting_namespace, deleting_name) && b.may_use(
                repo_namespace,
                repo_ref,
            ) {
                rest.push(id)
            } else {
                rest
            },
            None => rest,
        }
    }
}

fn keeps(
    b: ListedBackup,
    deleting_namespace: &str,
    deleting_name: &str,
    repo_namespace: &str,
    repo_ref: &str,
) -> (res: Option<String>)
    ensures
        opt_view(res) == (if !b.is(deleting_namespace@, deleting_name@) && b.may_use(
            repo_namespace@,
            repo_ref@,
        ) {
            snapshot_of(b.backup)
        } else {
            None
        }),
{
    let ns = b.backup.metadata.namespace_or_else("default");
    let name = b.backup.metadata.name_any();
    if same_text(ns.as_str(), deleting_namespace) && same_text(name.as_str(), deleting_name) {
        return None;
    }
    match resolve_backup_repository(&b.backup, ns.as_str(), b.policy) {
        Ok((other_ns, other_ref)) => {
            if same_text(other_ref.as_str(), repo_ref) && same_text(
                other_ns.as_str(),
                repo_namespace,
            ) {
                snapshot_id(&b.backup)
            } else {
                None
            }
        },
        Err(_) => snapshot_id(&b.backup),
    }
}

/// The snapshots to keep when a backup is deleted: those of the other backups that share its
/// repository, and those of backups whose repository is not known.
pub fn gc_repository_after_backup_delete(
    listed: Vec<ListedBackup>,
    deleting_namespace: &str,
    deleting_name: &str,
    repo_namespace: &str,
    repo_ref: &str,
) -> (res: Vec<String>)
    ensures
        res.deep_view() == kept_snapshots(
            listed@,
            deleting_namespace@,
            deleting_name@,
            repo_namespace@,
            repo_ref@,
        ),
{
    let ghost all = listed@;
    let mut todo = reversed(listed);
    let mut out: Vec<String> = Vec::new();
    assert(out.deep_view() =~= seq![]);
    assert(all.take(0) =~= seq![]);
    while todo.len() > 0
        invariant
            todo@.len() <= all.len(),
            forall|i: int|
                0 <= i < todo@.len() ==> #[trigger] todo@[i] == all[all.len() - 1 - i],
            out.deep_view() == kept_snapshots(
                all.take(all.len() - todo@.len()),
                deleting_namespace@,
                deleting_name@,
                repo_namespace@,
                repo_ref@,
            ),
        decreases todo@.len(),
    {
        let ghost done = all.len() - todo@.len();
        let ghost before = out.deep_view();
        if let Some(b) = todo.pop() {
            proof {
                assert(b == all[done]);
                assert(all.take(done + 1).drop_last() =~= all.take(done));
                assert(all.take(done + 1).last() == all[done]);
            }
            if let Some(id) = keeps(
                b,
                deleting_namespace,
                deleting_name,
                repo_namespace,
                repo_ref,
            ) {
                out.push(id);
                assert(out.deep_view() =~= before.push(id@));
            }
        }
    }
    assert(all.take(all.len() as int) =~= all);
    out
}

/// No other backup loses its snapshot: deleting one backup keeps the snapshot of every other one
/// that shares its repository or whose repository is not known.
pub proof fn law_other_backups_keep_their_snapshots(
    listed: Seq<ListedBackup>,
    deleting_namespace: Seq<char>,
    deleting_name: Seq<char>,
    repo_namespace: Seq<char>,
    repo_ref: Seq<char>,
    i: int,
)
    requires
        0 <= i < listed.len(),
        !listed[i].is(deleting_namespace, deleting_name),
        listed[i].may_use(repo_namespace, repo_ref),
        snapshot_of(listed[i].backup) is Some,
    ensures
        kept_snapshots(
            listed,
            deleting_namespace,
            deleting_name,
            repo_namespace,
            repo_ref,
        ).contains(snapshot_of(listed[i].backup)->0),
    decreases listed.len(),
{
    let id = snapshot_of(listed[i].backup)->0;
    let kept = kept_snapshots(
        listed,
        deleting_namespace,
        deleting_name,
        repo_namespace,
        repo_ref,
    );
    let rest = kept_snapshots(
        listed.drop_last(),
        deleting_namespace,
        deleting_name,
        repo_namespace,
        repo_ref,
    );
    if i == listed.len() - 1 {
        assert(kept == rest.push(id));
        assert(kept[kept.len() - 1] == id);
    } else {
        assert(listed.drop_last()[i] == listed[i]);
        law_other_backups_keep_their_snapshots(
            listed.drop_last(),
            deleting_namespace,
            deleting_name,
            repo_namespace,
            repo_ref,
            i,
        );
        let k = choose|k: int| 0 <= k < rest.len() && rest[k] == id;
        assert(kept[k] == id);
    }
}

/// Nothing else is kept: every kept snapshot is that of another backup that may use the
/// repository.
pub proof fn law_only_other_backups_keep_snapshots(
    listed: Seq<ListedBackup>,
    deleting_namespace: Seq<char>,
    deleting_name: Seq<char>,
    repo_namespace: Seq<char>,
    repo_ref: Seq<char>,
    id: Seq<char>,
)
    requires
        kept_snapshots(
            listed,
            deleting_namespace,
            deleting_name,
            repo_namespace,
            repo_ref,
        ).contains(id),
    ensures
        exists|i: int|
            #![trigger listed[i]]
            0 <= i < listed.len() && !listed[i].is(deleting_namespace, deleting_name)
                && listed[i].may_use(repo_namespace, repo_ref) && snapshot_of(listed[i].backup)
                == Some(id),
    decreases listed.len(),
{
    if listed.len() > 0 {
        let front = listed.drop_last();
        let kept = kept_snapshots(
            listed,
            deleting_namespace,
            deleting_name,
            repo_namespace,
            repo_ref,
        );
        let rest = kept_snapshots(
            front,
            deleting_namespace,
            deleting_name,
            repo_namespace,
            repo_ref,
        );
        let k = choose|k: int| 0 <= k < kept.len() && kept[k] == id;
        if k < rest.len() {
            assert(rest[k] == id);
            assert(rest.contains(id));
            law_only_other_backups_keep_snapshots(
                front,
                deleting_namespace,
                deleting_name,
                repo_namespace,
                repo_ref,
                id,
            );
            let i = choose|i: int|
                #![trigger front[i]]
                0 <= i < front.len() && !front[i].is(deleting_namespace, deleting_name)
                    && front[i].may_use(repo_namespace, repo_ref) && snapshot_of(front[i].backup)
                    == Some(id);
            assert(front[i] == listed[i]);
            assert(0 <= i < listed.len() && !listed[i].is(deleting_namespace, deleting_name));
        } else {
            let i = listed.len() - 1;
            assert(listed[i] == listed.last());
            assert(0 <= i < listed.len() && !listed[i].is(deleting_namespace, deleting_name));
        }
    }
}

/// The snapshot of a run is the one that its status names; a run without a status has none.
pub proof fn law_snapshot_is_the_recorded_one(backup: ProteusBackup)
    ensures
        backup.status is None ==> snapshot_of(backup) is None,
        backup.status matches Some(s) ==> snapshot_of(backup) == named(opt_view(s.last_snapshot_id)),
{
}

/// A run may use a repository exactly where that is its own, or where its own is not known.
pub proof fn law_unknown_repositories_are_spared(
    b: ListedBackup,
    repo_namespace: Seq<char>,
    repo_ref: Seq<char>,
)
    ensures
        b.may_use(repo_namespace, repo_ref) <==> (backup_repository(
            b.backup,
            b.namespace(),
            b.policy,
        ) matches Ok(r) ==> r.0 == repo_namespace && r.1 == repo_ref),
{
}

/// A run is told by its namespace and its name together.
pub proof fn law_runs_are_told_by_namespace_and_name(
    b: ListedBackup,
    namespace: Seq<char>,
    name: Seq<char>,
)
    ensures
        opt_view(b.backup.metadata.namespace) is Some && opt_view(b.backup.metadata.name) is Some
            ==> (b.is(namespace, name) <==> b.backup.metadata.namespace->0@ == namespace
            && b.backup.metadata.name->0@ == name),
{
}

} // verus!
