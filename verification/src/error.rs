use vstd::prelude::*;

verus! {

/// Why a graph could not report the parents of a node.
#[derive(Debug, Clone, Copy, PartialEq, Eq, Structural)]
pub enum GraphError {
    /// The node lies outside the graph.
    NodeOutOfRange { node: usize, size: usize },
}

/// Errors of the DRG compound proof.
#[derive(Debug, Clone, Copy, PartialEq, Eq, Structural)]
pub enum DrgError {
    /// The public inputs carry no replica id.
    MissingReplicaId,
    /// `tau` is present although the parameters are private, or absent
    /// although they are public.
    TauMismatch,
    /// The graph could not report the parents of a challenged node.
    Graph(GraphError),
    /// The proof holds more challenged nodes than the parameters allow.
    TooManyChallenges,
    /// The proof holds a different number of replica parent lists than nodes.
    ReplicaParentsMismatch,
    /// The proof holds a different number of replica nodes than data nodes.
    ReplicaNodesMismatch,
    /// Private parameters, but no data root was supplied as a private input.
    MissingPrivateDataRoot,
    /// Private parameters, but no replica root was supplied as a private input.
    MissingPrivateReplicaRoot,
    /// The presence of `tau` does not match whether the parameters are private.
    InconsistentPrivateState,
}

} // verus!
