use vstd::prelude::*;

verus! {

/// Parameters of a proof of retrievability of one node of a Merkle tree.
#[derive(Debug, Clone, Copy, PartialEq, Eq)]
pub struct PublicParams {
    /// Number of leaves of the tree.
    pub leaves: usize,
    /// Whether the tree's root stays private (is not a public input).
    pub private: bool,
}

/// Public inputs of a proof of retrievability of one node: the root it is
/// proved against, when public, and the challenged node.
#[derive(Debug, PartialEq, Eq)]
pub struct PublicInputs<D> {
    pub commitment: Option<D>,
    pub challenge: usize,
}

} // verus!
