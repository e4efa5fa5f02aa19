use drg_porep::circuit::{AllocatedNum, ComponentPrivateInputs, DrgPoRepCircuit, Root};
use drg_porep::compound::DrgPoRepCompound;
use drg_porep::drg::{DataProof, Proof, PublicInputs, PublicParams, Tau};
use drg_porep::error::DrgError;
use drg_porep::graph::ExplicitGraph;
use drg_porep::merkle::MerkleProof;

/// A proof of a node of value `data` whose two path rows have the siblings
/// `data + 1` and `data + 2`, at indices 0 and 1.
fn data_proof(data: u64) -> DataProof<u64> {
    DataProof {
        proof: MerkleProof { path: vec![(vec![data + 1], 0), (vec![data + 2], 1)] },
        data,
    }
}

/// `n` challenged nodes, each with two parents.
fn sample_proof(n: usize) -> Proof<u64> {
    let base = |i: usize| (i as u64) * 100;
    Proof {
        data_root: 1,
        replica_root: 2,
        replica_nodes: (0..n).map(|i| data_proof(base(i) + 10)).collect(),
        replica_parents: (0..n)
            .map(|i| vec![(0, data_proof(base(i) + 20)), (1, data_proof(base(i) + 30))])
            .collect(),
        nodes: (0..n).map(|i| data_proof(base(i) + 40)).collect(),
    }
}

/// 4 nodes, 2 parents each: a binary tree of 3 rows.
fn params(private: bool, challenges_count: usize) -> PublicParams<ExplicitGraph> {
    let graph = ExplicitGraph::new(2, vec![vec![0, 0], vec![0, 0], vec![1, 0], vec![2, 1]]).unwrap();
    PublicParams { graph, private, challenges_count }
}

fn public_inputs(tau: bool) -> PublicInputs<u64> {
    PublicInputs {
        replica_id: Some(77),
        challenges: vec![1, 2],
        tau: if tau { Some(Tau { comm_d: 1, comm_r: 2 }) } else { None },
    }
}

fn no_private_roots() -> ComponentPrivateInputs<u64> {
    ComponentPrivateInputs { comm_r: None, comm_d: None }
}

fn path_of(data: u64) -> Vec<(Vec<Option<u64>>, Option<usize>)> {
    vec![(vec![Some(data + 1)], Some(0)), (vec![Some(data + 2)], Some(1))]
}

fn blank_path() -> Vec<(Vec<Option<u64>>, Option<usize>)> {
    vec![(vec![None], None), (vec![None], None)]
}

#[test]
fn merkle_proof_as_options() {
    let p = MerkleProof { path: vec![(vec![3u64, 4], 1), (vec![], 0)] };
    assert_eq!(p.as_options(), vec![(vec![Some(3), Some(4)], Some(1)), (vec![], Some(0))]);
    let empty = MerkleProof::<u64> { path: vec![] };
    assert!(empty.as_options().is_empty());
}

#[test]
fn circuit_assigns_the_proof_with_public_roots() {
    let c = DrgPoRepCompound::circuit(&public_inputs(true), no_private_roots(), &sample_proof(2), &params(false, 2), None)
        .unwrap();
    assert_eq!(c.replica_nodes, vec![Some(10), Some(110)]);
    assert_eq!(c.replica_nodes_paths, vec![path_of(10), path_of(110)]);
    assert_eq!(c.replica_root, Root::Val(Some(2)));
    assert_eq!(c.replica_parents, vec![vec![Some(20), Some(30)], vec![Some(120), Some(130)]]);
    assert_eq!(
        c.replica_parents_paths,
        vec![vec![path_of(20), path_of(30)], vec![path_of(120), path_of(130)]]
    );
    assert_eq!(c.data_nodes, vec![Some(40), Some(140)]);
    assert_eq!(c.data_nodes_paths, vec![path_of(40), path_of(140)]);
    assert_eq!(c.data_root, Root::Val(Some(1)));
    assert_eq!(c.replica_id, Some(77));
    assert!(!c.private);
}

#[test]
fn circuit_takes_private_roots_from_the_enclosing_circuit() {
    let comp = ComponentPrivateInputs {
        comm_r: Some(Root::Var(AllocatedNum { value: Some(2u64), variable: 5 })),
        comm_d: Some(Root::Var(AllocatedNum { value: None, variable: 6 })),
    };
    let c = DrgPoRepCompound::circuit(&public_inputs(false), comp, &sample_proof(1), &params(true, 2), Some(0)).unwrap();
    assert_eq!(c.replica_root, Root::Var(AllocatedNum { value: Some(2), variable: 5 }));
    assert_eq!(c.data_root, Root::Var(AllocatedNum { value: None, variable: 6 }));
    assert!(c.private);
    assert_eq!(c.replica_nodes, vec![Some(10)]);
}

#[test]
fn circuit_accepts_an_empty_proof() {
    let c = DrgPoRepCompound::circuit(&public_inputs(true), no_private_roots(), &sample_proof(0), &params(false, 2), None)
        .unwrap();
    assert!(c.replica_nodes.is_empty());
    assert!(c.replica_parents_paths.is_empty());
    assert!(c.data_nodes_paths.is_empty());
}

#[test]
fn circuit_rejects_too_many_challenges() {
    let r = DrgPoRepCompound::circuit(&public_inputs(true), no_private_roots(), &sample_proof(3), &params(false, 2), None);
    assert_eq!(r.err(), Some(DrgError::TooManyChallenges));
}

#[test]
fn circuit_rejects_mismatched_replica_parents() {
    let mut p = sample_proof(2);
    p.replica_parents.pop();
    // the replica nodes are mismatched too: the parents are checked first
    p.replica_nodes.pop();
    let r = DrgPoRepCompound::circuit(&public_inputs(true), no_private_roots(), &p, &params(false, 2), None);
    assert_eq!(r.err(), Some(DrgError::ReplicaParentsMismatch));
}

#[test]
fn circuit_rejects_mismatched_replica_nodes() {
    let mut p = sample_proof(2);
    p.replica_nodes.pop();
    let r = DrgPoRepCompound::circuit(&public_inputs(true), no_private_roots(), &p, &params(false, 2), None);
    assert_eq!(r.err(), Some(DrgError::ReplicaNodesMismatch));
}

#[test]
fn circuit_rejects_missing_private_roots() {
    let only_r = ComponentPrivateInputs { comm_r: Some(Root::Val(Some(2u64))), comm_d: None };
    let r = DrgPoRepCompound::circuit(&public_inputs(false), only_r, &sample_proof(1), &params(true, 2), None);
    assert_eq!(r.err(), Some(DrgError::MissingPrivateDataRoot));

    let only_d = ComponentPrivateInputs { comm_r: None, comm_d: Some(Root::Val(Some(1u64))) };
    let r = DrgPoRepCompound::circuit(&public_inputs(false), only_d, &sample_proof(1), &params(true, 2), None);
    assert_eq!(r.err(), Some(DrgError::MissingPrivateReplicaRoot));
}

#[test]
fn circuit_rejects_inconsistent_private_state() {
    let r = DrgPoRepCompound::circuit(&public_inputs(false), no_private_roots(), &sample_proof(1), &params(false, 2), None);
    assert_eq!(r.err(), Some(DrgError::InconsistentPrivateState));

    let comp = ComponentPrivateInputs { comm_r: Some(Root::Val(None)), comm_d: Some(Root::Val(None)) };
    let r = DrgPoRepCompound::circuit(&public_inputs(true), comp, &sample_proof(1), &params(true, 2), None);
    assert_eq!(r.err(), Some(DrgError::InconsistentPrivateState));
}

#[test]
fn blank_circuit_is_shaped_by_the_parameters() {
    let b: DrgPoRepCircuit<u64> = DrgPoRepCompound::blank_circuit(&params(false, 2));
    assert_eq!(b.replica_nodes, vec![None, None]);
    assert_eq!(b.replica_nodes_paths, vec![blank_path(), blank_path()]);
    assert_eq!(b.replica_root, Root::Val(None));
    assert_eq!(b.replica_parents, vec![vec![None, None], vec![None, None]]);
    assert_eq!(
        b.replica_parents_paths,
        vec![vec![blank_path(), blank_path()], vec![blank_path(), blank_path()]]
    );
    assert_eq!(b.data_nodes, vec![None, None]);
    assert_eq!(b.data_nodes_paths, vec![blank_path(), blank_path()]);
    assert_eq!(b.data_root, Root::Val(None));
    assert_eq!(b.replica_id, None);
    assert!(!b.private);

    let single = ExplicitGraph::new(0, vec![vec![]]).unwrap();
    let b: DrgPoRepCircuit<u64> =
        DrgPoRepCompound::blank_circuit(&PublicParams { graph: single, private: true, challenges_count: 1 });
    assert_eq!(b.replica_nodes_paths, vec![Vec::<(Vec<Option<u64>>, Option<usize>)>::new()]);
    assert_eq!(b.replica_parents, vec![Vec::<Option<u64>>::new()]);
    assert!(b.private);
}

fn sizes<T>(v: &[Vec<T>]) -> Vec<usize> {
    v.iter().map(|x| x.len()).collect()
}

fn path_shape(p: &[(Vec<Option<u64>>, Option<usize>)]) -> Vec<usize> {
    p.iter().map(|row| row.0.len()).collect()
}

#[test]
fn blank_circuit_has_the_shape_of_an_assigned_circuit() {
    let pp = params(false, 2);
    let c = DrgPoRepCompound::circuit(&public_inputs(true), no_private_roots(), &sample_proof(2), &pp, None).unwrap();
    let b: DrgPoRepCircuit<u64> = DrgPoRepCompound::blank_circuit(&pp);
    assert_eq!(c.replica_nodes.len(), b.replica_nodes.len());
    assert_eq!(c.data_nodes.len(), b.data_nodes.len());
    assert_eq!(sizes(&c.replica_parents), sizes(&b.replica_parents));
    let shapes = |ps: &Vec<Vec<(Vec<Option<u64>>, Option<usize>)>>| {
        ps.iter().map(|p| path_shape(p)).collect::<Vec<_>>()
    };
    assert_eq!(shapes(&c.replica_nodes_paths), shapes(&b.replica_nodes_paths));
    assert_eq!(shapes(&c.data_nodes_paths), shapes(&b.data_nodes_paths));
    for (cp, bp) in c.replica_parents_paths.iter().zip(b.replica_parents_paths.iter()) {
        assert_eq!(shapes(cp), shapes(bp));
    }
}

#[test]
fn blank_circuit_slots_match_an_assigned_private_circuit() {
    let pp = params(true, 1);
    let comp = ComponentPrivateInputs {
        comm_r: Some(Root::Var(AllocatedNum { value: None, variable: 1 })),
        comm_d: Some(Root::Var(AllocatedNum { value: None, variable: 2 })),
    };
    let c = DrgPoRepCompound::circuit(&public_inputs(false), comp, &sample_proof(1), &pp, None).unwrap();
    let b: DrgPoRepCircuit<u64> = DrgPoRepCompound::blank_circuit(&pp);
    assert_eq!(c.replica_nodes.len(), b.replica_nodes.len());
    assert_eq!(sizes(&c.replica_parents), sizes(&b.replica_parents));
    assert_eq!(path_shape(&c.data_nodes_paths[0]), path_shape(&b.data_nodes_paths[0]));
    assert_eq!(c.private, b.private);
    // the roots differ: handed over as variables, blank as unknown values
    assert_ne!(c.data_root, b.data_root);
}
