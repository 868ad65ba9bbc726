//! Which bulk I/O path a backup or restore takes: the agent plane where a ready node agent covers
//! the volumes' node and the repository is reachable from it, else the exec plane.
use crate::crd::DataPlane;
use crate::order::{contains_text, insert_text, is_sorted_set, sorted_set};
use crate::text::{decimal, decimal_text, join, joined, opt_view, same_text};
use vstd::prelude::*;

verus! {

/// The label that an agent pod carries when it is ready to accept work on its node.
pub const AGENT_READY_LABEL: &'static str = "proteus.io/agent-ready";

/// Whether the repository can be opened from an agent or mover pod.
#[derive(Debug, Clone, Copy, PartialEq, Eq, Structural)]
pub enum RepositoryKind {
    /// Remote, such as S3: the agent plane is eligible.
    Remote,
    /// A directory of the controller: forces the exec plane.
    Local,
}

/// Outcome of plane selection for one backup or restore.
#[derive(Debug, Clone, PartialEq, Eq)]
pub enum PlaneChoice {
    Exec { reason: String },
    Agent { node: String },
}

impl PlaneChoice {
    /// The plane that was chosen.
    pub fn data_plane(&self) -> (res: DataPlane)
        ensures
            res == (if self is Exec {
                DataPlane::Exec
            } else {
                DataPlane::Agent
            }),
    {
        match self {
            PlaneChoice::Exec { .. } => DataPlane::Exec,
            PlaneChoice::Agent { .. } => DataPlane::Agent,
        }
    }

    /// The node that runs the move, on the agent plane.
    pub fn assigned_node(&self) -> (res: Option<&str>)
        ensures
            match (self, res) {
                (PlaneChoice::Agent { node }, Some(n)) => n@ == node@,
                (PlaneChoice::Exec { .. }, None) => true,
                _ => false,
            },
    {
        match self {
            PlaneChoice::Agent { node } => Some(node.as_str()),
            PlaneChoice::Exec { .. } => None,
        }
    }
}

/// The quoted and escaped form of a text.
pub uninterp spec fn str_debug(s: Seq<char>) -> Seq<char>;

/// The `Debug` form of `str` in the standard library: the text in double quotes, escaped. It
/// depends on the text alone.
#[verifier::external_body]
pub(crate) fn debug_text(s: &str) -> (res: String)
    ensures
        res@ == str_debug(s@),
{
    format!("{s:?}")
}

/// The quoted forms of `nodes`.
pub open spec fn quoted(nodes: Seq<Seq<char>>) -> Seq<Seq<char>> {
    nodes.map_values(|n: Seq<char>| str_debug(n))
}

/// A set of names as it is shown in a message.
pub open spec fn shown_set(nodes: Seq<Seq<char>>) -> Seq<char> {
    "{"@ + joined(quoted(nodes), ", "@) + "}"@
}

fn show_set(nodes: &Vec<String>) -> (res: String)
    ensures
        res@ == shown_set(nodes.deep_view()),
{
    let ghost all = nodes.deep_view();
    let mut parts: Vec<String> = Vec::new();
    let mut i: usize = 0;
    while i < nodes.len()
        invariant
            i <= nodes@.len(),
            all == nodes.deep_view(),
            parts.deep_view() == quoted(all.take(i as int)),
        decreases nodes@.len() - i,
    {
        let ghost before = parts.deep_view();
        let part = debug_text(nodes[i].as_str());
        parts.push(part);
        proof {
            assert(parts.deep_view() =~= before.push(str_debug(all[i as int])));
            assert(quoted(all.take(i + 1)) =~= quoted(all.take(i as int)).push(
                str_debug(all[i as int]),
            ));
        }
        i += 1;
    }
    assert(all.take(i as int) =~= all);
    String::from_str("{").concat(join(&parts, ", ").as_str()).concat("}")
}

/// What plane selection needs next, or what it decided.
pub enum PlaneStep {
    /// List the nodes with a ready agent.
    ListAgents,
    /// Find the node that holds this volume claim.
    ResolveNode { pvc_name: String },
    /// The plane is chosen.
    Decided(PlaneChoice),
}

/// Whether `choice` is what the ready nodes and the nodes of the volumes call for: the agent on
/// the one node of all volumes, where one is ready there.
pub open spec fn chosen_for_nodes(
    ready: Seq<Seq<char>>,
    nodes: Seq<Seq<char>>,
    choice: PlaneChoice,
) -> bool {
    if nodes.len() != 1 {
        choice matches PlaneChoice::Exec { reason } && reason@ == "PVCs span "@ + decimal(
            nodes.len(),
        ) + " nodes "@ + shown_set(nodes)
            + "; agent plane requires a single node (using exec)"@
    } else if !ready.contains(nodes[0]) {
        choice matches PlaneChoice::Exec { reason } && reason@ == "no Ready agent on node '"@
            + nodes[0] + "' (agents on "@ + shown_set(ready) + "); using exec data plane"@
    } else {
        choice matches PlaneChoice::Agent { node } && node@ == nodes[0]
    }
}

/// The plane for the given sets of ready nodes and volume nodes.
pub fn plane_for_nodes(ready: &Vec<String>, nodes: &Vec<String>) -> (res: PlaneChoice)
    ensures
        chosen_for_nodes(ready.deep_view(), nodes.deep_view(), res),
{
    if nodes.len() != 1 {
        return PlaneChoice::Exec {
            reason: String::from_str("PVCs span ").concat(
                decimal_text(nodes.len() as u64).as_str(),
            ).concat(" nodes ").concat(show_set(nodes).as_str()).concat(
                "; agent plane requires a single node (using exec)",
            ),
        };
    }
    let node = nodes[0].clone();
    assert(node@ == nodes.deep_view()[0]);
    if !contains_text(ready, node.as_str()) {
        return PlaneChoice::Exec {
            reason: String::from_str("no Ready agent on node '").concat(node.as_str()).concat(
                "' (agents on ",
            ).concat(show_set(ready).as_str()).concat("); using exec data plane"),
        };
    }
    PlaneChoice::Agent { node }
}

/// The model of the nodes that were looked for: the node, or why it was not found.
pub open spec fn lookups(resolved: Seq<Result<String, String>>) -> Seq<
    Result<Seq<char>, Seq<char>>,
> {
    resolved.map_values(
        |r: Result<String, String>|
            match r {
                Ok(n) => Ok(n@),
                Err(m) => Err(m@),
            },
    )
}

/// Why the first volume without a known node has none.
pub open spec fn first_unplaced(resolved: Seq<Result<Seq<char>, Seq<char>>>) -> Option<Seq<char>>
    decreases resolved.len(),
{
    if resolved.len() == 0 {
        None
    } else {
        match resolved[0] {
            Err(m) => Some(m),
            Ok(_) => first_unplaced(resolved.skip(1)),
        }
    }
}

/// The nodes of the volumes that have one, in order.
pub open spec fn found_nodes(resolved: Seq<Result<Seq<char>, Seq<char>>>) -> Seq<Seq<char>> {
    resolved.map_values(|r: Result<Seq<char>, Seq<char>>| r->Ok_0)
}

/// The nodes that were found, or why one was not.
fn take_nodes(resolved: &Vec<Result<String, String>>) -> (res: Result<Vec<String>, String>)
    ensures
        match first_unplaced(lookups(resolved@)) {
            Some(m) => res matches Err(t) && t@ == m,
            None => res matches Ok(v) && v.deep_view() == found_nodes(lookups(resolved@)),
        },
{
    let ghost all = lookups(resolved@);
    let mut nodes: Vec<String> = Vec::new();
    let mut i: usize = 0;
    assert(all.skip(0) =~= all);
    while i < resolved.len()
        invariant
            i <= resolved@.len(),
            all == lookups(resolved@),
            first_unplaced(all) == first_unplaced(all.skip(i as int)),
            nodes.deep_view() == found_nodes(all.take(i as int)),
        decreases resolved@.len() - i,
    {
        proof {
            assert(all.skip(i as int)[0] == all[i as int]);
            assert(all.skip(i as int).skip(1) =~= all.skip(i + 1));
        }
        let ghost before = nodes.deep_view();
        match &resolved[i] {
            Ok(node) => {
                nodes.push(node.clone());
                proof {
                    assert(all[i as int] == Ok::<Seq<char>, Seq<char>>(node@));
                    assert(nodes.deep_view() =~= before.push(node@));
                    assert(found_nodes(all.take(i + 1)) =~= found_nodes(all.take(i as int)).push(
                        node@,
                    ));
                }
            },
            Err(m) => {
                assert(all[i as int] == Err::<Seq<char>, Seq<char>>(m@));
                return Err(m.clone());
            },
        }
        i += 1;
    }
    assert(all.take(i as int) =~= all);
    Ok(nodes)
}

/// Whether `step` is the next step of plane selection: `ready` are the nodes with a ready agent,
/// once known, and `resolved` the nodes of the first volumes, or why one was not found.
pub open spec fn selects(
    repo: RepositoryKind,
    pvc_names: Seq<Seq<char>>,
    ready: Option<Seq<Seq<char>>>,
    resolved: Seq<Result<Seq<char>, Seq<char>>>,
    step: PlaneStep,
) -> bool {
    if repo == RepositoryKind::Local {
        step matches PlaneStep::Decided(PlaneChoice::Exec { reason }) && reason@
            == "local repository is only reachable from the controller; using exec data plane"@
    } else if pvc_names.len() == 0 {
        step matches PlaneStep::Decided(PlaneChoice::Exec { reason }) && reason@
            == "no PVCs to move; using exec data plane"@
    } else {
        match ready {
            None => step is ListAgents,
            Some(r) => if r.len() == 0 {
                step matches PlaneStep::Decided(PlaneChoice::Exec { reason }) && reason@
                    == "no Ready proteus-node-agent Pods; using exec data plane"@
            } else if first_unplaced(resolved) is Some {
                step matches PlaneStep::Decided(PlaneChoice::Exec { reason }) && reason@
                    == first_unplaced(resolved)->0 + "; using exec data plane"@
            } else if resolved.len() < pvc_names.len() {
                step matches PlaneStep::ResolveNode { pvc_name } && pvc_name@
                    == pvc_names[resolved.len() as int]
            } else {
                step matches PlaneStep::Decided(choice) && exists|nodes: Seq<Seq<char>>|
                    #[trigger] is_sorted_set(nodes) && (forall|t: Seq<char>|
                        nodes.contains(t) <==> found_nodes(resolved).contains(t))
                        && chosen_for_nodes(
                        r,
                        nodes,
                        choice,
                    )
            },
        }
    }
}

/// Picks exec or agent for the given volume claims and repository, asking for what it needs. What
/// is not eligible for an agent falls back to exec, a claim whose node is not found among it.
pub fn select_plane(
    repo: RepositoryKind,
    pvc_names: &Vec<String>,
    ready: Option<&Vec<String>>,
    resolved: &Vec<Result<String, String>>,
) -> (res: PlaneStep)
    ensures
        selects(
            repo,
            pvc_names.deep_view(),
            match ready {
                Some(r) => Some(r.deep_view()),
                None => None,
            },
            lookups(resolved@),
            res,
        ),
{
    if repo == RepositoryKind::Local {
        return PlaneStep::Decided(
            PlaneChoice::Exec {
                reason: String::from_str(
                    "local repository is only reachable from the controller; using exec data plane",
                ),
            },
        );
    }
    if pvc_names.len() == 0 {
        return PlaneStep::Decided(
            PlaneChoice::Exec {
                reason: String::from_str("no PVCs to move; using exec data plane"),
            },
        );
    }
    let ready = match ready {
        Some(r) => r,
        None => {
            return PlaneStep::ListAgents;
        },
    };
    if ready.len() == 0 {
        return PlaneStep::Decided(
            PlaneChoice::Exec {
                reason: String::from_str(
                    "no Ready proteus-node-agent Pods; using exec data plane",
                ),
            },
        );
    }
    let found = match take_nodes(resolved) {
        Ok(found) => found,
        Err(m) => {
            return PlaneStep::Decided(
                PlaneChoice::Exec {
                    reason: String::from_str(m.as_str()).concat("; using exec data plane"),
                },
            );
        },
    };
    if resolved.len() < pvc_names.len() {
        let pvc_name = pvc_names[resolved.len()].clone();
        assert(pvc_name@ == pvc_names.deep_view()[lookups(resolved@).len() as int]);
        return PlaneStep::ResolveNode { pvc_name };
    }
    let nodes = sorted_set(&found);
    let choice = plane_for_nodes(ready, &nodes);
    assert(is_sorted_set(nodes.deep_view()));
    PlaneStep::Decided(choice)
}

/// Chooses a plane from known ready nodes and the nodes of the volumes.
pub fn select_plane_from_maps(
    repo: RepositoryKind,
    ready_nodes: &Vec<String>,
    pvc_nodes: &Vec<String>,
) -> (res: PlaneChoice)
    ensures
        ({
            let ready = ready_nodes.deep_view();
            let nodes = pvc_nodes.deep_view();
            let one = nodes.len() > 0 && forall|i: int|
                0 <= i < nodes.len() ==> #[trigger] nodes[i] == nodes[0];
            if repo == RepositoryKind::Local {
                res matches PlaneChoice::Exec { reason } && reason@ == "local repository"@
            } else if nodes.len() == 0 {
                res matches PlaneChoice::Exec { reason } && reason@ == "no PVCs"@
            } else if ready.len() == 0 {
                res matches PlaneChoice::Exec { reason } && reason@ == "no Ready agents"@
            } else if !one {
                res matches PlaneChoice::Exec { reason } && reason@ == "multi-node PVCs"@
            } else if !ready.contains(nodes[0]) {
                res matches PlaneChoice::Exec { reason } && reason@ == "no agent on "@ + nodes[0]
            } else {
                res matches PlaneChoice::Agent { node } && node@ == nodes[0]
            }
        }),
{
    if repo == RepositoryKind::Local {
        return PlaneChoice::Exec { reason: String::from_str("local repository") };
    }
    if pvc_nodes.len() == 0 {
        return PlaneChoice::Exec { reason: String::from_str("no PVCs") };
    }
    if ready_nodes.len() == 0 {
        return PlaneChoice::Exec { reason: String::from_str("no Ready agents") };
    }
    let unique = sorted_set(pvc_nodes);
    proof {
        let nodes = pvc_nodes.deep_view();
        let u = unique.deep_view();
        assert(nodes.contains(nodes[0]));
        assert(u.contains(nodes[0]));
        if u.len() == 1 {
            assert forall|i: int| 0 <= i < nodes.len() implies #[trigger] nodes[i] == nodes[0] by {
                assert(nodes.contains(nodes[i]));
                assert(u.contains(nodes[i]));
            }
        } else {
            assert(u.contains(u[0]));
            assert(u.contains(u[1]));
            assert(nodes.contains(u[0]));
            assert(nodes.contains(u[1]));
        }
    }
    if unique.len() != 1 {
        return PlaneChoice::Exec { reason: String::from_str("multi-node PVCs") };
    }
    let node = unique[0].clone();
    assert(unique.deep_view()[0] == node@);
    if !contains_text(ready_nodes, node.as_str()) {
        return PlaneChoice::Exec {
            reason: String::from_str("no agent on ").concat(node.as_str()),
        };
    }
    PlaneChoice::Agent { node }
}

/// What plane selection reads of a pod.
#[derive(Debug, Clone, PartialEq, Eq)]
pub struct PodInfo {
    pub name: Option<String>,
    pub phase: Option<String>,
    pub node_name: Option<String>,
    /// The volume claims that it mounts.
    pub claims: Vec<String>,
}

/// The node that a pod is bound to, where it is.
pub open spec fn bound_node(pod: PodInfo) -> Option<Seq<char>> {
    match pod.node_name {
        Some(n) => if n@.len() > 0 {
            Some(n@)
        } else {
            None
        },
        None => None,
    }
}

/// The nodes that the given ready agent pods run on, in order, each once.
pub fn list_ready_agent_nodes(pods: &Vec<PodInfo>) -> (res: Vec<String>)
    ensures
        is_sorted_set(res.deep_view()),
        forall|t: Seq<char>|
            res.deep_view().contains(t) <==> exists|i: int|
                0 <= i < pods@.len() && #[trigger] bound_node(pods@[i]) == Some(t),
{
    let mut nodes: Vec<String> = Vec::new();
    let mut i: usize = 0;
    while i < pods.len()
        invariant
            i <= pods@.len(),
            is_sorted_set(nodes.deep_view()),
            forall|t: Seq<char>|
                nodes.deep_view().contains(t) <==> exists|k: int|
                    0 <= k < i && #[trigger] bound_node(pods@[k]) == Some(t),
        decreases pods@.len() - i,
    {
        let ghost before = nodes.deep_view();
        if let Some(node) = &pods[i].node_name {
            if !node.as_str().is_empty() {
                insert_text(&mut nodes, node.as_str());
                assert(bound_node(pods@[i as int]) == Some(node@));
            }
        }
        proof {
            assert forall|t: Seq<char>|
                nodes.deep_view().contains(t) <==> exists|k: int|
                    0 <= k < i + 1 && #[trigger] bound_node(pods@[k]) == Some(t) by {
                if before.contains(t) {
                    let k = choose|k: int|
                        0 <= k < i && #[trigger] bound_node(pods@[k]) == Some(t);
                    assert(0 <= k < i + 1 && bound_node(pods@[k]) == Some(t));
                }
                if exists|k: int| 0 <= k < i + 1 && #[trigger] bound_node(pods@[k]) == Some(t) {
                    let k = choose|k: int|
                        0 <= k < i + 1 && #[trigger] bound_node(pods@[k]) == Some(t);
                    if k < i {
                        assert(before.contains(t));
                    }
                }
            }
        }
        i += 1;
    }
    nodes
}

/// Whether a pod runs.
pub open spec fn is_running(pod: PodInfo) -> bool {
    pod.phase matches Some(p) && p@ == "Running"@
}

/// The node of the first pod that mounts the claim and is bound to a node; of the running ones
/// alone where `running` is set.
pub open spec fn first_consumer(pods: Seq<PodInfo>, pvc_name: Seq<char>, running: bool) -> Option<
    Seq<char>,
>
    decreases pods.len(),
{
    if pods.len() == 0 {
        None
    } else if pods[0].claims.deep_view().contains(pvc_name) && bound_node(pods[0]) is Some && (
    running ==> is_running(pods[0])) {
        bound_node(pods[0])
    } else {
        first_consumer(pods.skip(1), pvc_name, running)
    }
}

/// The node of a pod that mounts the claim and is bound to a node: the first one that runs, else
/// the first one.
pub open spec fn consumer_node(pods: Seq<PodInfo>, pvc_name: Seq<char>) -> Option<Seq<char>> {
    match first_consumer(pods, pvc_name, true) {
        Some(n) => Some(n),
        None => first_consumer(pods, pvc_name, false),
    }
}

fn runs(pod: &PodInfo) -> (res: bool)
    ensures
        res == is_running(*pod),
{
    match &pod.phase {
        Some(p) => same_text(p.as_str(), "Running"),
        None => false,
    }
}

fn find_consumer(pods: &Vec<PodInfo>, pvc_name: &str, running: bool) -> (res: Option<String>)
    ensures
        opt_view(res) == first_consumer(pods@, pvc_name@, running),
{
    let mut i: usize = 0;
    assert(pods@.skip(0) =~= pods@);
    while i < pods.len()
        invariant
            i <= pods@.len(),
            first_consumer(pods@, pvc_name@, running) == first_consumer(
                pods@.skip(i as int),
                pvc_name@,
                running,
            ),
        decreases pods@.len() - i,
    {
        proof {
            assert(pods@.skip(i as int)[0] == pods@[i as int]);
            assert(pods@.skip(i as int).skip(1) =~= pods@.skip(i + 1));
        }
        if contains_text(&pods[i].claims, pvc_name) && (!running || runs(&pods[i])) {
            if let Some(node) = &pods[i].node_name {
                if !node.as_str().is_empty() {
                    return Some(node.clone());
                }
            }
        }
        i += 1;
    }
    None
}

/// The node of a pod that mounts the claim and is bound to a node: the first one that runs, else
/// the first one.
pub fn node_from_consumer_pod(pods: &Vec<PodInfo>, pvc_name: &str) -> (res: Option<String>)
    ensures
        opt_view(res) == consumer_node(pods@, pvc_name@),
{
    match find_consumer(pods, pvc_name, true) {
        Some(node) => Some(node),
        None => find_consumer(pods, pvc_name, false),
    }
}

/// One requirement of a node selector.
#[derive(Debug, Clone, PartialEq, Eq)]
pub struct NodeRequirement {
    pub key: String,
    pub operator: String,
    pub values: Option<Vec<String>>,
}

/// One term of a node selector.
#[derive(Debug, Clone, PartialEq, Eq)]
pub struct NodeTerm {
    pub match_expressions: Vec<NodeRequirement>,
    pub match_fields: Vec<NodeRequirement>,
}

/// The node that a requirement pins by `key`, where it does.
pub open spec fn pinned_node(r: NodeRequirement, key: Seq<char>) -> Option<Seq<char>> {
    match r.values {
        Some(v) => if r.key@ == key && r.operator@ == "In"@ && v@.len() > 0 && v@[0]@.len() > 0 {
            Some(v@[0]@)
        } else {
            None
        },
        None => None,
    }
}

/// The first node that one of the requirements pins by `key`.
pub open spec fn first_pinned(rs: Seq<NodeRequirement>, key: Seq<char>) -> Option<Seq<char>>
    decreases rs.len(),
{
    if rs.len() == 0 {
        None
    } else if pinned_node(rs[0], key) is Some {
        pinned_node(rs[0], key)
    } else {
        first_pinned(rs.skip(1), key)
    }
}

/// The first node that one of the terms pins: by host name, else by node name.
pub open spec fn affinity_node(terms: Seq<NodeTerm>) -> Option<Seq<char>>
    decreases terms.len(),
{
    if terms.len() == 0 {
        None
    } else {
        match first_pinned(terms[0].match_expressions@, "kubernetes.io/hostname"@) {
            Some(n) => Some(n),
            None => match first_pinned(terms[0].match_fields@, "metadata.name"@) {
                Some(n) => Some(n),
                None => affinity_node(terms.skip(1)),
            },
        }
    }
}

fn find_pinned(rs: &Vec<NodeRequirement>, key: &str) -> (res: Option<String>)
    ensures
        opt_view(res) == first_pinned(rs@, key@),
{
    let mut i: usize = 0;
    assert(rs@.skip(0) =~= rs@);
    while i < rs.len()
        invariant
            i <= rs@.len(),
            first_pinned(rs@, key@) == first_pinned(rs@.skip(i as int), key@),
        decreases rs@.len() - i,
    {
        proof {
            assert(rs@.skip(i as int)[0] == rs@[i as int]);
            assert(rs@.skip(i as int).skip(1) =~= rs@.skip(i + 1));
        }
        let r = &rs[i];
        if same_text(r.key.as_str(), key) && same_text(r.operator.as_str(), "In") {
            if let Some(values) = &r.values {
                if values.len() > 0 && !values[0].as_str().is_empty() {
                    return Some(values[0].clone());
                }
            }
        }
        i += 1;
    }
    None
}

/// The node that a volume's required affinity pins, where it does.
pub fn node_from_pv_affinity(terms: &Vec<NodeTerm>) -> (res: Option<String>)
    ensures
        opt_view(res) == affinity_node(terms@),
{
    let mut i: usize = 0;
    assert(terms@.skip(0) =~= terms@);
    while i < terms.len()
        invariant
            i <= terms@.len(),
            affinity_node(terms@) == affinity_node(terms@.skip(i as int)),
        decreases terms@.len() - i,
    {
        proof {
            assert(terms@.skip(i as int)[0] == terms@[i as int]);
            assert(terms@.skip(i as int).skip(1) =~= terms@.skip(i + 1));
        }
        if let Some(n) = find_pinned(&terms[i].match_expressions, "kubernetes.io/hostname") {
            return Some(n);
        }
        if let Some(n) = find_pinned(&terms[i].match_fields, "metadata.name") {
            return Some(n);
        }
        i += 1;
    }
    None
}

/// Best-effort node that holds the data of a claim: that of a pod that mounts it, a running one
/// before others, else the one its bound volume is pinned to.
pub fn resolve_pvc_node(
    namespace: &str,
    pvc_name: &str,
    consumer: Option<String>,
    affinity: Option<String>,
) -> (res: Result<String, String>)
    ensures
        match (consumer, affinity) {
            (Some(n), _) => res == Ok::<String, String>(n),
            (None, Some(n)) => res == Ok::<String, String>(n),
            (None, None) => res matches Err(m) && m@ == "PVC '"@ + namespace@ + "/"@ + pvc_name@
                + "' has no consumer Pod with nodeName and no PV nodeAffinity; cannot assign agent plane"@,
        },
{
    match (consumer, affinity) {
        (Some(n), _) => Ok(n),
        (None, Some(n)) => Ok(n),
        (None, None) => Err(
            String::from_str("PVC '").concat(namespace).concat("/").concat(pvc_name).concat(
                "' has no consumer Pod with nodeName and no PV nodeAffinity; cannot assign agent plane",
            ),
        ),
    }
}

/// A repository that only the controller reaches forces the exec plane.
pub proof fn law_local_repository_forces_exec(
    pvc_names: Seq<Seq<char>>,
    ready: Option<Seq<Seq<char>>>,
    resolved: Seq<Result<Seq<char>, Seq<char>>>,
    step: PlaneStep,
)
    requires
        selects(RepositoryKind::Local, pvc_names, ready, resolved, step),
    ensures
        step matches PlaneStep::Decided(c) && c is Exec,
{
}

/// A claim whose node is not found never fails the selection: it falls back to the exec plane.
pub proof fn law_unplaced_claim_falls_back_to_exec(
    repo: RepositoryKind,
    pvc_names: Seq<Seq<char>>,
    ready: Seq<Seq<char>>,
    resolved: Seq<Result<Seq<char>, Seq<char>>>,
    step: PlaneStep,
    i: int,
)
    requires
        selects(repo, pvc_names, Some(ready), resolved, step),
        0 <= i < resolved.len(),
        resolved[i] is Err,
    ensures
        step matches PlaneStep::Decided(c) && c is Exec,
{
    lemma_first_unplaced(resolved);
}

proof fn lemma_first_unplaced(resolved: Seq<Result<Seq<char>, Seq<char>>>)
    ensures
        first_unplaced(resolved) is None <==> forall|i: int|
            0 <= i < resolved.len() ==> #[trigger] resolved[i] is Ok,
    decreases resolved.len(),
{
    if resolved.len() > 0 {
        let rest = resolved.skip(1);
        lemma_first_unplaced(rest);
        if first_unplaced(rest) is None {
            assert forall|i: int| 0 <= i < resolved.len() && resolved[0] is Ok implies #[trigger]
                resolved[i] is Ok by {
                if i > 0 {
                    assert(rest[i - 1] is Ok);
                }
            }
        } else {
            let k = choose|k: int| 0 <= k < rest.len() && !(#[trigger] rest[k] is Ok);
            assert(!(resolved[k + 1] is Ok));
        }
    }
}

/// The agent plane is chosen only for a remote repository whose volumes all sit on one node with a
/// ready agent, and that is the node it is assigned to.
pub proof fn law_agent_plane_needs_ready_agent_on_single_node(
    repo: RepositoryKind,
    pvc_names: Seq<Seq<char>>,
    ready: Option<Seq<Seq<char>>>,
    resolved: Seq<Result<Seq<char>, Seq<char>>>,
    step: PlaneStep,
)
    requires
        selects(repo, pvc_names, ready, resolved, step),
        step matches PlaneStep::Decided(c) && c is Agent,
    ensures
        repo == RepositoryKind::Remote,
        pvc_names.len() > 0,
        resolved.len() >= pvc_names.len(),
        ready is Some && ready->0.contains(step->Decided_0->node@),
        forall|i: int|
            0 <= i < resolved.len() ==> #[trigger] resolved[i] == Ok::<Seq<char>, Seq<char>>(
                step->Decided_0->node@,
            ),
{
    let choice = step->Decided_0;
    let found = found_nodes(resolved);
    let nodes = choose|nodes: Seq<Seq<char>>|
        #[trigger] is_sorted_set(nodes) && (forall|t: Seq<char>|
            nodes.contains(t) <==> found.contains(t)) && chosen_for_nodes(
            ready->0,
            nodes,
            choice,
        );
    lemma_first_unplaced(resolved);
    assert forall|i: int| 0 <= i < resolved.len() implies #[trigger] resolved[i] == Ok::<
        Seq<char>,
        Seq<char>,
    >(choice->node@) by {
        assert(resolved[i] is Ok);
        assert(found[i] == resolved[i]->Ok_0);
        assert(found.contains(found[i]));
        assert(nodes.contains(found[i]));
    }
}

/// The agent plane is chosen wherever it can be: for a remote repository and at least one claim,
/// where all claims are on one node and an agent is ready there, whatever other agents are.
pub proof fn law_agent_plane_is_chosen_where_it_can_be(
    pvc_names: Seq<Seq<char>>,
    ready: Seq<Seq<char>>,
    resolved: Seq<Result<String, String>>,
    node: Seq<char>,
    step: PlaneStep,
)
    requires
        selects(RepositoryKind::Remote, pvc_names, Some(ready), lookups(resolved), step),
        pvc_names.len() > 0,
        resolved.len() == pvc_names.len(),
        forall|i: int|
            0 <= i < resolved.len() ==> (#[trigger] resolved[i] matches Ok(n) && n@ == node),
        ready.contains(node),
    ensures
        step matches PlaneStep::Decided(PlaneChoice::Agent { node: n }) && n@ == node,
{
    let looked = lookups(resolved);
    let found = found_nodes(looked);
    lemma_first_unplaced(looked);
    assert forall|i: int| 0 <= i < looked.len() implies #[trigger] looked[i] is Ok by {
        assert(resolved[i] is Ok);
    }
    assert forall|i: int| 0 <= i < found.len() implies #[trigger] found[i] == node by {
        assert(resolved[i] is Ok);
    }
    let choice = step->Decided_0;
    let nodes = choose|nodes: Seq<Seq<char>>|
        #[trigger] is_sorted_set(nodes) && (forall|t: Seq<char>|
            nodes.contains(t) <==> found.contains(t)) && chosen_for_nodes(ready, nodes, choice);
    assert(found[0] == node);
    assert(found.contains(node));
    assert(nodes.contains(node));
    assert forall|i: int| 0 <= i < nodes.len() implies #[trigger] nodes[i] == node by {
        assert(nodes.contains(nodes[i]));
        assert(found.contains(nodes[i]));
    }
    if nodes.len() > 1 {
        crate::order::law_sorted_set_has_no_repetition(nodes, 0, 1);
    }
}

/// The same choice from the two sets alone: the agent on the one node of all volumes where one is
/// ready there, else exec; and exec for volumes on several nodes, whatever agents are ready.
pub proof fn law_one_ready_node_gets_the_agent(
    ready: Seq<Seq<char>>,
    nodes: Seq<Seq<char>>,
    choice: PlaneChoice,
)
    requires
        chosen_for_nodes(ready, nodes, choice),
    ensures
        choice is Agent <==> nodes.len() == 1 && ready.contains(nodes[0]),
        choice matches PlaneChoice::Agent { node } ==> node@ == nodes[0],
{
}

/// Plane selection asks for what it needs to know, and for nothing else: the ready agents first,
/// then the node of one claim after the other. Without a ready agent, or without claims, it decides
/// for exec at once.
pub proof fn law_selection_asks_for_what_it_needs(
    pvc_names: Seq<Seq<char>>,
    ready: Option<Seq<Seq<char>>>,
    resolved: Seq<Result<Seq<char>, Seq<char>>>,
    step: PlaneStep,
)
    requires
        selects(RepositoryKind::Remote, pvc_names, ready, resolved, step),
        forall|i: int| 0 <= i < resolved.len() ==> #[trigger] resolved[i] is Ok,
    ensures
        pvc_names.len() == 0 ==> (step matches PlaneStep::Decided(c) && c is Exec),
        pvc_names.len() > 0 && ready is None ==> step is ListAgents,
        pvc_names.len() > 0 && ready is Some && ready->0.len() == 0 ==> (step matches
            PlaneStep::Decided(c) && c is Exec),
        pvc_names.len() > 0 && ready is Some && ready->0.len() > 0 && resolved.len()
            < pvc_names.len() ==> (step matches PlaneStep::ResolveNode { pvc_name } && pvc_name@
            == pvc_names[resolved.len() as int]),
        pvc_names.len() > 0 && ready is Some && ready->0.len() > 0 && resolved.len()
            >= pvc_names.len() ==> step is Decided,
{
    lemma_first_unplaced(resolved);
}

/// A fallback to exec says why: no agent is ready on the node of the volumes, or they are on
/// several nodes.
pub proof fn law_fallback_names_its_reason(
    ready: Seq<Seq<char>>,
    nodes: Seq<Seq<char>>,
    choice: PlaneChoice,
)
    requires
        chosen_for_nodes(ready, nodes, choice),
        choice is Exec,
    ensures
        nodes.len() == 1 ==> ("no Ready agent on node '"@ + nodes[0] + "'"@).is_prefix_of(
            choice->reason@,
        ),
        nodes.len() != 1 ==> ("PVCs span "@ + decimal(nodes.len()) + " nodes"@).is_prefix_of(
            choice->reason@,
        ),
{
    let text = choice->reason@;
    reveal_strlit("' (agents on ");
    reveal_strlit("'");
    reveal_strlit(" nodes ");
    reveal_strlit(" nodes");
    if nodes.len() == 1 {
        let head = "no Ready agent on node '"@ + nodes[0] + "'"@;
        assert(text.subrange(0, head.len() as int) =~= head);
    } else {
        let head = "PVCs span "@ + decimal(nodes.len()) + " nodes"@;
        assert(text.subrange(0, head.len() as int) =~= head);
    }
}

/// Whether a pod that mounts the claim is bound to the node.
pub open spec fn holds_claim(pod: PodInfo, pvc_name: Seq<char>, node: Seq<char>) -> bool {
    &&& pod.claims.deep_view().contains(pvc_name)
    &&& pod.node_name matches Some(n) && n@ == node
    &&& node.len() > 0
}

proof fn lemma_first_consumer(pods: Seq<PodInfo>, pvc_name: Seq<char>, running: bool)
    ensures
        match first_consumer(pods, pvc_name, running) {
            Some(node) => exists|i: int|
                0 <= i < pods.len() && #[trigger] holds_claim(pods[i], pvc_name, node) && (running
                    ==> is_running(pods[i])) && forall|j: int, n: Seq<char>|
                    0 <= j < i && (running ==> is_running(pods[j])) ==> !(#[trigger] holds_claim(
                        pods[j],
                        pvc_name,
                        n,
                    )),
            None => forall|j: int, n: Seq<char>|
                0 <= j < pods.len() && (running ==> is_running(pods[j])) ==> !(
                #[trigger] holds_claim(pods[j], pvc_name, n)),
        },
    decreases pods.len(),
{
    if pods.len() > 0 {
        let rest = pods.skip(1);
        if pods[0].claims.deep_view().contains(pvc_name) && bound_node(pods[0]) is Some && (running
            ==> is_running(pods[0])) {
            assert(holds_claim(pods[0], pvc_name, bound_node(pods[0])->0));
        } else {
            lemma_first_consumer(rest, pvc_name, running);
            if let Some(node) = first_consumer(pods, pvc_name, running) {
                let i = choose|i: int|
                    0 <= i < rest.len() && #[trigger] holds_claim(rest[i], pvc_name, node) && (
                    running ==> is_running(rest[i])) && forall|j: int, n: Seq<char>|
                        0 <= j < i && (running ==> is_running(rest[j])) ==> !(
                        #[trigger] holds_claim(rest[j], pvc_name, n));
                assert(holds_claim(pods[i + 1], pvc_name, node));
                assert forall|j: int, n: Seq<char>|
                    0 <= j < i + 1 && (running ==> is_running(pods[j])) implies !(
                #[trigger] holds_claim(pods[j], pvc_name, n)) by {
                    if j > 0 {
                        assert(rest[j - 1] == pods[j]);
                        assert(!holds_claim(rest[j - 1], pvc_name, n));
                    }
                }
            } else {
                assert forall|j: int, n: Seq<char>|
                    0 <= j < pods.len() && (running ==> is_running(pods[j])) implies !(
                #[trigger] holds_claim(pods[j], pvc_name, n)) by {
                    if j > 0 {
                        assert(rest[j - 1] == pods[j]);
                        assert(!holds_claim(rest[j - 1], pvc_name, n));
                    }
                }
            }
        }
    }
}

/// The node of a claim is that of a pod that mounts it: of the first that runs where one does, else
/// of the first. None is found only where no pod that mounts it is bound to a node.
pub proof fn law_claim_is_where_its_pod_is(pods: Seq<PodInfo>, pvc_name: Seq<char>)
    ensures
        match consumer_node(pods, pvc_name) {
            Some(node) => exists|i: int|
                0 <= i < pods.len() && #[trigger] holds_claim(pods[i], pvc_name, node) && (
                is_running(pods[i]) || forall|j: int, n: Seq<char>|
                    0 <= j < pods.len() && is_running(pods[j]) ==> !(#[trigger] holds_claim(
                        pods[j],
                        pvc_name,
                        n,
                    ))),
            None => forall|j: int, n: Seq<char>|
                0 <= j < pods.len() ==> !(#[trigger] holds_claim(pods[j], pvc_name, n)),
        },
{
    lemma_first_consumer(pods, pvc_name, true);
    lemma_first_consumer(pods, pvc_name, false);
}

/// A pod that runs and mounts the claim is preferred to every other that is listed before it.
pub proof fn law_running_pod_is_preferred(
    pods: Seq<PodInfo>,
    pvc_name: Seq<char>,
    i: int,
    node: Seq<char>,
)
    requires
        0 <= i < pods.len(),
        holds_claim(pods[i], pvc_name, node),
        pods[i].phase matches Some(p) && p@ == "Running"@,
        forall|j: int|
            0 <= j < i ==> !(#[trigger] pods[j].phase matches Some(p) && p@ == "Running"@),
    ensures
        consumer_node(pods, pvc_name) == Some(node),
{
    lemma_first_consumer(pods, pvc_name, true);
    let found = first_consumer(pods, pvc_name, true);
    assert(is_running(pods[i]));
    assert(found is Some);
    let k = choose|k: int|
        0 <= k < pods.len() && #[trigger] holds_claim(pods[k], pvc_name, found->0) && is_running(
            pods[k],
        ) && forall|j: int, n: Seq<char>|
            0 <= j < k && is_running(pods[j]) ==> !(#[trigger] holds_claim(pods[j], pvc_name, n));
    assert(k >= i);
    if k > i {
        assert(!holds_claim(pods[i], pvc_name, node));
    }
}

/// Whether a requirement pins the node by the key.
pub open spec fn pins(r: NodeRequirement, key: Seq<char>, node: Seq<char>) -> bool {
    &&& r.key@ == key
    &&& r.operator@ == "In"@
    &&& r.values matches Some(v) && v@.len() > 0 && v@[0]@ == node
    &&& node.len() > 0
}

proof fn lemma_first_pinned(rs: Seq<NodeRequirement>, key: Seq<char>)
    ensures
        match first_pinned(rs, key) {
            Some(node) => exists|i: int| 0 <= i < rs.len() && #[trigger] pins(rs[i], key, node),
            None => forall|i: int, n: Seq<char>|
                0 <= i < rs.len() ==> !(#[trigger] pins(rs[i], key, n)),
        },
    decreases rs.len(),
{
    if rs.len() > 0 {
        let rest = rs.skip(1);
        lemma_first_pinned(rest, key);
        if pinned_node(rs[0], key) is Some {
            assert(pins(rs[0], key, pinned_node(rs[0], key)->0));
        } else if let Some(node) = first_pinned(rs, key) {
            let i = choose|i: int| 0 <= i < rest.len() && #[trigger] pins(rest[i], key, node);
            assert(pins(rs[i + 1], key, node));
        } else {
            assert forall|i: int, n: Seq<char>| 0 <= i < rs.len() implies !(#[trigger] pins(
                rs[i],
                key,
                n,
            )) by {
                if i > 0 {
                    assert(rest[i - 1] == rs[i]);
                    assert(!pins(rest[i - 1], key, n));
                }
            }
        }
    }
}

/// Whether a term pins the node, by its host name or by its name.
pub open spec fn term_pins(term: NodeTerm, node: Seq<char>) -> bool {
    ||| exists|i: int|
        0 <= i < term.match_expressions@.len() && #[trigger] pins(
            term.match_expressions@[i],
            "kubernetes.io/hostname"@,
            node,
        )
    ||| exists|i: int|
        0 <= i < term.match_fields@.len() && #[trigger] pins(
            term.match_fields@[i],
            "metadata.name"@,
            node,
        )
}

/// A volume is on the node that its affinity pins, by host name or by node name; none is found only
/// where none is pinned.
pub proof fn law_volume_is_where_it_is_pinned(terms: Seq<NodeTerm>)
    ensures
        match affinity_node(terms) {
            Some(node) => exists|i: int| 0 <= i < terms.len() && #[trigger] term_pins(terms[i], node),
            None => forall|i: int, n: Seq<char>|
                0 <= i < terms.len() ==> !(#[trigger] term_pins(terms[i], n)),
        },
    decreases terms.len(),
{
    if terms.len() > 0 {
        let rest = terms.skip(1);
        law_volume_is_where_it_is_pinned(rest);
        lemma_first_pinned(terms[0].match_expressions@, "kubernetes.io/hostname"@);
        lemma_first_pinned(terms[0].match_fields@, "metadata.name"@);
        let first = first_pinned(terms[0].match_expressions@, "kubernetes.io/hostname"@);
        let second = first_pinned(terms[0].match_fields@, "metadata.name"@);
        if first is Some {
            assert(term_pins(terms[0], first->0));
        } else if second is Some {
            assert(term_pins(terms[0], second->0));
        } else if let Some(node) = affinity_node(terms) {
            let i = choose|i: int| 0 <= i < rest.len() && #[trigger] term_pins(rest[i], node);
            assert(term_pins(terms[i + 1], node));
        } else {
            assert forall|i: int, n: Seq<char>| 0 <= i < terms.len() implies !(
            #[trigger] term_pins(terms[i], n)) by {
                if i > 0 {
                    assert(rest[i - 1] == terms[i]);
                    assert(!term_pins(rest[i - 1], n));
                }
            }
        }
    }
}

/// A pod is bound exactly where it names a node.
pub proof fn law_bound_pods_name_their_node(pod: PodInfo)
    ensures
        bound_node(pod) is Some <==> pod.node_name is Some && pod.node_name->0@.len() > 0,
        bound_node(pod) matches Some(n) ==> n == pod.node_name->0@,
{
}

/// A set is shown with all of its names, in order, in braces.
pub proof fn law_shown_set_has_its_names(nodes: Seq<Seq<char>>, x: Seq<char>)
    ensures
        shown_set(seq![x]) == "{"@ + str_debug(x) + "}"@,
        nodes.len() > 0 ==> shown_set(nodes.push(x)) == shown_set(nodes).drop_last() + ", "@
            + str_debug(x) + "}"@,
{
    reveal_strlit("}");
    assert(quoted(seq![x]) =~= seq![str_debug(x)]);
    if nodes.len() > 0 {
        let q = quoted(nodes.push(x));
        assert(q =~= quoted(nodes).push(str_debug(x)));
        assert(q.drop_last() =~= quoted(nodes));
        let whole = shown_set(nodes);
        assert(whole.drop_last() =~= "{"@ + joined(quoted(nodes), ", "@));
        assert(shown_set(nodes.push(x)) =~= whole.drop_last() + ", "@ + str_debug(x) + "}"@);
    }
}

} // verus!
