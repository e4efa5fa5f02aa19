use drg_porep::compound::{DrgPoRepCompound, PublicInput};
use drg_porep::drg::{PublicInputs, PublicParams, Tau};
use drg_porep::error::{DrgError, GraphError};
use drg_porep::graph::{ExplicitGraph, Graph};
use drg_porep::por;

fn line_graph(nodes: usize) -> ExplicitGraph {
    // node i has parents (i - 1, i - 2), clamped at 0
    let parents = (0..nodes)
        .map(|i| vec![i.saturating_sub(1) as u32, i.saturating_sub(2) as u32])
        .collect();
    ExplicitGraph::new(2, parents).unwrap()
}

fn params(graph: ExplicitGraph, private: bool) -> PublicParams<ExplicitGraph> {
    PublicParams { graph, private, challenges_count: 2 }
}

fn por_in(commitment: Option<u64>, challenge: usize, leaves: usize, private: bool) -> PublicInput<u64> {
    PublicInput::Por(por::PublicInputs { commitment, challenge }, por::PublicParams { leaves, private })
}

#[test]
fn cache_prefix_names_the_hasher() {
    assert_eq!(
        DrgPoRepCompound::cache_prefix("poseidon_hasher"),
        "drg-proof-of-replication-poseidon_hasher"
    );
    assert_eq!(DrgPoRepCompound::cache_prefix(""), "drg-proof-of-replication-");
}

#[test]
fn public_inputs_layout_with_public_commitments() {
    let pp = params(line_graph(8), false);
    let pub_in = PublicInputs {
        replica_id: Some(7u64),
        challenges: vec![1, 3],
        tau: Some(Tau { comm_d: 200u64, comm_r: 100u64 }),
    };
    let inputs = DrgPoRepCompound::generate_public_inputs(&pub_in, &pp, None).unwrap();
    let expected = vec![
        PublicInput::ReplicaId(7),
        // challenge 1: node, parents 0 and 0, against comm_r; then node against comm_d
        por_in(Some(100), 1, 8, false),
        por_in(Some(100), 0, 8, false),
        por_in(Some(100), 0, 8, false),
        por_in(Some(200), 1, 8, false),
        // challenge 3: node, parents 2 and 1
        por_in(Some(100), 3, 8, false),
        por_in(Some(100), 2, 8, false),
        por_in(Some(100), 1, 8, false),
        por_in(Some(200), 3, 8, false),
    ];
    assert_eq!(inputs, expected);
    // one entry for the replica id and degree + 2 per challenge
    assert_eq!(inputs.len(), 1 + 2 * (2 + 2));
}

#[test]
fn public_inputs_layout_with_private_commitments() {
    let pp = params(line_graph(4), true);
    let pub_in = PublicInputs { replica_id: Some(9u64), challenges: vec![2], tau: None };
    let inputs = DrgPoRepCompound::generate_public_inputs(&pub_in, &pp, Some(3)).unwrap();
    let expected = vec![
        PublicInput::ReplicaId(9),
        por_in(None, 2, 4, true),
        por_in(None, 1, 4, true),
        por_in(None, 0, 4, true),
        por_in(None, 2, 4, true),
    ];
    assert_eq!(inputs, expected);
}

#[test]
fn public_inputs_without_challenges() {
    let pp = params(line_graph(4), false);
    let pub_in = PublicInputs {
        replica_id: Some(1u64),
        challenges: vec![],
        tau: Some(Tau { comm_d: 2u64, comm_r: 3u64 }),
    };
    let inputs = DrgPoRepCompound::generate_public_inputs(&pub_in, &pp, None).unwrap();
    assert_eq!(inputs, vec![PublicInput::ReplicaId(1)]);
}

#[test]
fn public_inputs_missing_replica_id() {
    let pp = params(line_graph(4), true);
    // tau is also inconsistent: the replica id is checked first
    let pub_in = PublicInputs::<u64> {
        replica_id: None,
        challenges: vec![1],
        tau: Some(Tau { comm_d: 2, comm_r: 3 }),
    };
    assert_eq!(
        DrgPoRepCompound::generate_public_inputs(&pub_in, &pp, None),
        Err(DrgError::MissingReplicaId)
    );
}

#[test]
fn public_inputs_tau_mismatch() {
    let private = params(line_graph(4), true);
    let with_tau = PublicInputs {
        replica_id: Some(1u64),
        challenges: vec![1],
        tau: Some(Tau { comm_d: 2u64, comm_r: 3u64 }),
    };
    assert_eq!(
        DrgPoRepCompound::generate_public_inputs(&with_tau, &private, None),
        Err(DrgError::TauMismatch)
    );
    let public = params(line_graph(4), false);
    let without_tau = PublicInputs { replica_id: Some(1u64), challenges: vec![1], tau: None };
    assert_eq!(
        DrgPoRepCompound::generate_public_inputs(&without_tau, &public, None),
        Err(DrgError::TauMismatch)
    );
}

#[test]
fn public_inputs_graph_error_on_first_failing_challenge() {
    let pp = params(line_graph(4), true);
    let pub_in = PublicInputs { replica_id: Some(1u64), challenges: vec![1, 6, 9], tau: None };
    assert_eq!(
        DrgPoRepCompound::generate_public_inputs(&pub_in, &pp, None),
        Err(DrgError::Graph(GraphError::NodeOutOfRange { node: 6, size: 4 }))
    );
}

#[test]
fn explicit_graph_reports_its_parents() {
    assert!(ExplicitGraph::new(2, vec![vec![0, 0], vec![0]]).is_none());
    let g = line_graph(5);
    assert_eq!(g.size(), 5);
    assert_eq!(g.degree(), 2);
    let mut buf = vec![0u32; 2];
    assert_eq!(g.parents(4, &mut buf), Ok(()));
    assert_eq!(buf, vec![3, 2]);
    assert_eq!(
        g.parents(5, &mut buf),
        Err(GraphError::NodeOutOfRange { node: 5, size: 5 })
    );
}

#[test]
fn explicit_graph_merkle_depth() {
    let depth = |n: usize| {
        ExplicitGraph::new(0, vec![vec![]; n]).unwrap().merkle_tree_depth()
    };
    assert_eq!(depth(0), 0);
    assert_eq!(depth(1), 1);
    assert_eq!(depth(2), 2);
    assert_eq!(depth(3), 3);
    assert_eq!(depth(5), 4);
    assert_eq!(depth(8), 4);
    assert_eq!(depth(9), 5);
    assert_eq!(depth(1024), 11);
}

#[test]
fn public_inputs_concatenate_over_challenges() {
    let tau = || Some(Tau { comm_d: 200u64, comm_r: 100u64 });
    let run = |challenges: Vec<usize>, k: Option<usize>| {
        let pub_in = PublicInputs { replica_id: Some(7u64), challenges, tau: tau() };
        DrgPoRepCompound::generate_public_inputs(&pub_in, &params(line_graph(8), false), k).unwrap()
    };
    let both = run(vec![1, 3], None);
    let first = run(vec![1], None);
    let second = run(vec![3], None);
    let mut joined = first.clone_entries();
    joined.extend(second.clone_entries().into_iter().skip(1));
    assert_eq!(both, joined);
    // the partition index plays no part
    assert_eq!(run(vec![1, 3], Some(5)), both);
}

trait CloneEntries {
    fn clone_entries(&self) -> Vec<PublicInput<u64>>;
}

impl CloneEntries for Vec<PublicInput<u64>> {
    fn clone_entries(&self) -> Vec<PublicInput<u64>> {
        self.iter()
            .map(|e| match e {
                PublicInput::ReplicaId(id) => PublicInput::ReplicaId(*id),
                PublicInput::Por(i, p) => {
                    PublicInput::Por(por::PublicInputs { commitment: i.commitment, challenge: i.challenge }, *p)
                }
            })
            .collect()
    }
}
