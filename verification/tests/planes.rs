//! Which data plane moves a volume.
use proteus::crd::DataPlane;
use proteus::data_plane::{
    list_ready_agent_nodes, node_from_consumer_pod, node_from_pv_affinity, resolve_pvc_node,
    select_plane, select_plane_from_maps, NodeRequirement, NodeTerm, PlaneChoice, PlaneStep,
    PodInfo, RepositoryKind,
};

fn names(list: &[&str]) -> Vec<String> {
    list.iter().map(|s| s.to_string()).collect()
}

#[test]
fn local_repo_forces_exec() {
    let ready = names(&["node-a"]);
    let choice = select_plane_from_maps(RepositoryKind::Local, &ready, &names(&["node-a"]));
    assert!(matches!(choice, PlaneChoice::Exec { .. }));
    assert_eq!(choice.data_plane(), DataPlane::Exec);
}

#[test]
fn ready_agent_on_pvc_node_selects_agent() {
    let ready = names(&["node-a", "node-b"]);
    let choice = select_plane_from_maps(RepositoryKind::Remote, &ready, &names(&["node-a"]));
    assert_eq!(choice, PlaneChoice::Agent { node: "node-a".into() });
    assert_eq!(choice.assigned_node(), Some("node-a"));
}

#[test]
fn missing_agent_forces_exec() {
    let ready = names(&["node-b"]);
    let choice = select_plane_from_maps(RepositoryKind::Remote, &ready, &names(&["node-a"]));
    assert!(matches!(choice, PlaneChoice::Exec { .. }));
}

#[test]
fn multi_node_pvcs_force_exec() {
    let ready = names(&["node-a", "node-b"]);
    let choice =
        select_plane_from_maps(RepositoryKind::Remote, &ready, &names(&["node-a", "node-b"]));
    assert!(matches!(choice, PlaneChoice::Exec { .. }));
}

#[test]
fn reasons_for_exec_are_named() {
    let reason = |c: PlaneChoice| match c {
        PlaneChoice::Exec { reason } => reason,
        PlaneChoice::Agent { .. } => panic!("exec expected"),
    };
    let remote = RepositoryKind::Remote;
    assert_eq!(
        reason(select_plane_from_maps(RepositoryKind::Local, &names(&[]), &names(&[]))),
        "local repository"
    );
    assert_eq!(reason(select_plane_from_maps(remote, &names(&["a"]), &names(&[]))), "no PVCs");
    assert_eq!(
        reason(select_plane_from_maps(remote, &names(&[]), &names(&["a"]))),
        "no Ready agents"
    );
    assert_eq!(
        reason(select_plane_from_maps(remote, &names(&["a"]), &names(&["a", "b"]))),
        "multi-node PVCs"
    );
    assert_eq!(
        reason(select_plane_from_maps(remote, &names(&["b"]), &names(&["a", "a"]))),
        "no agent on a"
    );
}

fn placed(nodes: &[&str]) -> Vec<Result<String, String>> {
    nodes.iter().map(|n| Ok(n.to_string())).collect()
}

#[test]
fn claim_without_a_node_falls_back_to_exec() {
    let pvcs = names(&["data", "logs"]);
    let ready = names(&["node-a"]);
    let missing = resolve_pvc_node("apps", "logs", None, None);
    let found = resolve_pvc_node("apps", "data", None, Some("node-a".to_string()));
    assert_eq!(found, Ok("node-a".to_string()));
    match select_plane(RepositoryKind::Remote, &pvcs, Some(&ready), &vec![found, missing]) {
        PlaneStep::Decided(PlaneChoice::Exec { reason }) => assert_eq!(
            reason,
            "PVC 'apps/logs' has no consumer Pod with nodeName and no PV nodeAffinity; cannot \
             assign agent plane; using exec data plane"
        ),
        _ => panic!("exec expected"),
    }
}

#[test]
fn running_pod_is_preferred() {
    let pods = vec![
        pod("Succeeded", Some("node-old"), &["data"]),
        pod("Running", None, &["data"]),
        pod("Running", Some("node-other"), &["logs"]),
        pod("Running", Some("node-new"), &["data"]),
    ];
    let node = node_from_consumer_pod(&pods, "data");
    assert_eq!(node, Some("node-new".to_string()));
    assert_eq!(resolve_pvc_node("apps", "data", node, None), Ok("node-new".to_string()));
    let finished = vec![pod("Succeeded", Some("node-old"), &["data"])];
    assert_eq!(node_from_consumer_pod(&finished, "data"), Some("node-old".to_string()));
}

#[test]
fn plane_is_decided_step_by_step() {
    let pvcs = names(&["data", "logs"]);
    let ready = names(&["node-a"]);
    assert!(matches!(
        select_plane(RepositoryKind::Local, &pvcs, None, &vec![]),
        PlaneStep::Decided(PlaneChoice::Exec { .. })
    ));
    assert!(matches!(
        select_plane(RepositoryKind::Remote, &pvcs, None, &vec![]),
        PlaneStep::ListAgents
    ));
    match select_plane(RepositoryKind::Remote, &pvcs, Some(&ready), &vec![]) {
        PlaneStep::ResolveNode { pvc_name } => assert_eq!(pvc_name, "data"),
        _ => panic!("node expected"),
    }
    match select_plane(RepositoryKind::Remote, &pvcs, Some(&ready), &placed(&["node-a"])) {
        PlaneStep::ResolveNode { pvc_name } => assert_eq!(pvc_name, "logs"),
        _ => panic!("node expected"),
    }
    match select_plane(RepositoryKind::Remote, &pvcs, Some(&ready), &placed(&["node-a", "node-a"])) {
        PlaneStep::Decided(PlaneChoice::Agent { node }) => assert_eq!(node, "node-a"),
        _ => panic!("agent expected"),
    }
    match select_plane(RepositoryKind::Remote, &pvcs, Some(&ready), &placed(&["node-a", "node-b"])) {
        PlaneStep::Decided(PlaneChoice::Exec { reason }) => {
            assert_eq!(
                reason,
                "PVCs span 2 nodes {\"node-a\", \"node-b\"}; agent plane requires a single node \
                 (using exec)"
            );
        }
        _ => panic!("exec expected"),
    }
}

fn pod(phase: &str, node: Option<&str>, claims: &[&str]) -> PodInfo {
    PodInfo {
        name: Some("p".into()),
        phase: Some(phase.into()),
        node_name: node.map(str::to_string),
        claims: names(claims),
    }
}

#[test]
fn nodes_are_read_from_pods() {
    let agents = vec![
        pod("Running", Some("b"), &[]),
        pod("Running", Some("a"), &[]),
        pod("Running", Some("b"), &[]),
    ];
    assert_eq!(list_ready_agent_nodes(&agents), names(&["a", "b"]));
    let pods = vec![pod("Running", None, &["data"]), pod("Running", Some("n1"), &["data"])];
    assert_eq!(node_from_consumer_pod(&pods, "data"), Some("n1".to_string()));
    assert_eq!(node_from_consumer_pod(&pods, "logs"), None);
}

#[test]
fn node_is_read_from_volume_affinity() {
    let requirement = |key: &str, operator: &str, values: &[&str]| NodeRequirement {
        key: key.into(),
        operator: operator.into(),
        values: Some(names(values)),
    };
    let term = |r: NodeRequirement| NodeTerm { match_expressions: vec![r], match_fields: vec![] };
    assert_eq!(
        node_from_pv_affinity(&vec![term(requirement("kubernetes.io/hostname", "In", &["n1"]))]),
        Some("n1".to_string())
    );
    assert_eq!(node_from_pv_affinity(&vec![term(requirement("zone", "In", &["z"]))]), None);
}
