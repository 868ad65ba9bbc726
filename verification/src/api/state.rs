//! Readiness and the snapshot of the cluster that the API serves.
use crate::text::{decimal, decimal_text};
use vstd::prelude::*;

verus! {

/// What the service depends on.
#[derive(Debug, Clone, Copy, PartialEq, Eq)]
pub struct Readiness {
    pub kube_reachable: bool,
    pub crds_ready: bool,
}

impl Readiness {
    /// Whether the service can do its work.
    pub fn is_ready(&self) -> (res: bool)
        ensures
            res == (self.kube_reachable && self.crds_ready),
    {
        self.kube_reachable && self.crds_ready
    }
}

/// What a readiness probe is answered: an HTTP status and a word.
pub fn readyz(ready: bool) -> (res: (u16, String))
    ensures
        if ready {
            res.0 == 200 && res.1@ == "ready"@
        } else {
            res.0 == 503 && res.1@ == "not ready"@
        },
{
    if ready {
        (200, String::from_str("ready"))
    } else {
        (503, String::from_str("not ready"))
    }
}

/// How many objects of each kind the cluster holds.
#[derive(Debug, Clone, PartialEq, Eq)]
pub struct ClusterSnapshot {
    pub version: String,
    pub repositories: u64,
    pub backups: u64,
    pub restores: u64,
    pub last_reconcile_at: Option<String>,
}

/// One gauge in the text format of metrics.
pub open spec fn gauge(name: Seq<char>, kind: Seq<char>, value: nat) -> Seq<char> {
    "# HELP "@ + name + " Number of "@ + kind + " objects\n# TYPE "@ + name + " gauge\n"@ + name
        + " "@ + decimal(value) + "\n"@
}

fn gauge_text(name: &str, kind: &str, value: u64) -> (res: String)
    ensures
        res@ == gauge(name@, kind@, value as nat),
{
    String::from_str("# HELP ").concat(name).concat(" Number of ").concat(kind).concat(
        " objects\n# TYPE ",
    ).concat(name).concat(" gauge\n").concat(name).concat(" ").concat(
        decimal_text(value).as_str(),
    ).concat("\n")
}

/// The metrics of the cluster.
pub fn metrics_placeholder(snap: &ClusterSnapshot) -> (res: String)
    ensures
        res@ == gauge("proteus_repositories"@, "ProteusRepository"@, snap.repositories as nat)
            + gauge("proteus_backups"@, "ProteusBackup"@, snap.backups as nat) + gauge(
            "proteus_restores"@,
            "ProteusRestore"@,
            snap.restores as nat,
        ),
{
    gauge_text("proteus_repositories", "ProteusRepository", snap.repositories).concat(
        gauge_text("proteus_backups", "ProteusBackup", snap.backups).as_str(),
    ).concat(gauge_text("proteus_restores", "ProteusRestore", snap.restores).as_str())
}

/// A gauge ends with its name and its value, on a line of its own, and two values are told apart.
pub proof fn law_gauge_tells_its_value(name: Seq<char>, kind: Seq<char>, value: nat)
    ensures
        (name + " "@ + decimal(value) + "\n"@).is_suffix_of(gauge(name, kind, value)),
        ("# HELP "@ + name + " "@).is_prefix_of(gauge(name, kind, value)),
{
    let g = gauge(name, kind, value);
    let tail = name + " "@ + decimal(value) + "\n"@;
    assert(g.subrange(g.len() - tail.len(), g.len() as int) =~= tail);
    let head = "# HELP "@ + name + " "@;
    reveal_strlit(" ");
    reveal_strlit(" Number of ");
    assert(g.subrange(0, head.len() as int) =~= head);
}

} // verus!
