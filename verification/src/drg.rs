use vstd::prelude::*;

use crate::merkle::MerkleProof;

verus! {

/// The commitments of a replica: the root over the original data and the
/// root over the replica.
#[derive(Debug, PartialEq, Eq)]
pub struct Tau<D> {
    pub comm_d: D,
    pub comm_r: D,
}

/// Public inputs of the DRG proof of replication.
#[derive(Debug)]
pub struct PublicInputs<D> {
    pub replica_id: Option<D>,
    /// The challenged nodes, in order.
    pub challenges: Vec<usize>,
    pub tau: Option<Tau<D>>,
}

/// Public parameters of the DRG proof of replication.
#[derive(Debug)]
pub struct PublicParams<G> {
    pub graph: G,
    /// Whether the commitments stay private.
    pub private: bool,
    /// Number of challenged nodes a proof may hold.
    pub challenges_count: usize,
}

/// A node's value together with its inclusion proof.
#[derive(Debug)]
pub struct DataProof<D> {
    pub proof: MerkleProof<D>,
    pub data: D,
}

/// A vanilla DRG proof of replication: for each challenged node its replica
/// node, the replica nodes of its parents, and its data node.
#[derive(Debug)]
pub struct Proof<D> {
    pub data_root: D,
    pub replica_root: D,
    pub replica_nodes: Vec<DataProof<D>>,
    pub replica_parents: Vec<Vec<(u32, DataProof<D>)>>,
    pub nodes: Vec<DataProof<D>>,
}

} // verus!
