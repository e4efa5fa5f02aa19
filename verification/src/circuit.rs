use vstd::prelude::*;

use crate::drg::DataProof;
use crate::merkle::options_of_path;

verus! {

/// A number already allocated in a constraint system: its value, when known,
/// and the index of its variable.
#[derive(Debug, PartialEq, Eq)]
pub struct AllocatedNum<D> {
    pub value: Option<D>,
    pub variable: usize,
}

/// A Merkle root as the circuit receives it: a variable allocated elsewhere,
/// or a value (unknown in a blank circuit) that the circuit allocates itself.
#[derive(Debug, PartialEq, Eq)]
pub enum Root<D> {
    Var(AllocatedNum<D>),
    Val(Option<D>),
}

/// Roots that an enclosing circuit hands over when the commitments are private.
#[derive(Debug)]
pub struct ComponentPrivateInputs<D> {
    pub comm_r: Option<Root<D>>,
    pub comm_d: Option<Root<D>>,
}

/// Witness of one Merkle path: for each row, the siblings and the index.
pub type AuthPath<D> = Vec<(Vec<Option<D>>, Option<usize>)>;

/// The assignment of the DRG proof-of-replication circuit.
#[derive(Debug)]
pub struct DrgPoRepCircuit<D> {
    pub replica_nodes: Vec<Option<D>>,
    pub replica_nodes_paths: Vec<AuthPath<D>>,
    pub replica_root: Root<D>,
    pub replica_parents: Vec<Vec<Option<D>>>,
    pub replica_parents_paths: Vec<Vec<AuthPath<D>>>,
    pub data_nodes: Vec<Option<D>>,
    pub data_nodes_paths: Vec<AuthPath<D>>,
    pub data_root: Root<D>,
    pub replica_id: Option<D>,
    pub private: bool,
}

/// The node values of `proofs`, each present.
pub open spec fn values_of<D>(proofs: Seq<DataProof<D>>) -> Seq<Option<D>> {
    proofs.map_values(|p: DataProof<D>| Some(p.data))
}

/// `paths[i]` is the path of `proofs[i]` with everything present.
pub open spec fn paths_of<D>(proofs: Seq<DataProof<D>>, paths: Seq<AuthPath<D>>) -> bool {
    &&& paths.len() == proofs.len()
    &&& forall|i: int| #![trigger paths[i]] 0 <= i < proofs.len() ==> options_of_path(proofs[i].proof.path@, paths[i]@)
}

/// The proofs of a list of (parent index, proof) pairs.
pub open spec fn proofs_of_parents<D>(parents: Seq<(u32, DataProof<D>)>) -> Seq<DataProof<D>> {
    parents.map_values(|e: (u32, DataProof<D>)| e.1)
}

/// The values of a node list, each present.
pub(crate) fn node_values<D: Copy>(proofs: &Vec<DataProof<D>>) -> (r: Vec<Option<D>>)
    ensures
        r@ == values_of(proofs@),
{
    let mut r: Vec<Option<D>> = Vec::new();
    let mut i: usize = 0;
    while i < proofs.len()
        invariant
            i <= proofs@.len(),
            r@ == values_of(proofs@.take(i as int)),
        decreases proofs@.len() - i,
    {
        r.push(Some(proofs[i].data));
        assert(proofs@.take(i as int + 1) =~= proofs@.take(i as int).push(proofs@[i as int]));
        i = i + 1;
    }
    assert(proofs@.take(proofs@.len() as int) =~= proofs@);
    r
}

/// The Merkle paths of a node list, everything present.
pub(crate) fn node_paths<D: Copy>(proofs: &Vec<DataProof<D>>) -> (r: Vec<AuthPath<D>>)
    ensures
        paths_of(proofs@, r@),
{
    let mut r: Vec<AuthPath<D>> = Vec::new();
    let mut i: usize = 0;
    while i < proofs.len()
        invariant
            i <= proofs@.len(),
            r@.len() == i,
            forall|j: int| #![trigger r@[j]] 0 <= j < i ==> options_of_path(proofs@[j].proof.path@, r@[j]@),
        decreases proofs@.len() - i,
    {
        r.push(proofs[i].proof.as_options());
        i = i + 1;
    }
    r
}

/// The values of a parent list, each present.
pub(crate) fn parent_values<D: Copy>(parents: &Vec<(u32, DataProof<D>)>) -> (r: Vec<Option<D>>)
    ensures
        r@ == values_of(proofs_of_parents(parents@)),
{
    let mut r: Vec<Option<D>> = Vec::new();
    let mut i: usize = 0;
    while i < parents.len()
        invariant
            i <= parents@.len(),
            r@ == values_of(proofs_of_parents(parents@.take(i as int))),
        decreases parents@.len() - i,
    {
        r.push(Some(parents[i].1.data));
        assert(parents@.take(i as int + 1) =~= parents@.take(i as int).push(parents@[i as int]));
        i = i + 1;
    }
    assert(parents@.take(parents@.len() as int) =~= parents@);
    r
}

/// The Merkle paths of a parent list, everything present.
pub(crate) fn parent_paths<D: Copy>(parents: &Vec<(u32, DataProof<D>)>) -> (r: Vec<AuthPath<D>>)
    ensures
        paths_of(proofs_of_parents(parents@), r@),
{
    let mut r: Vec<AuthPath<D>> = Vec::new();
    let mut i: usize = 0;
    while i < parents.len()
        invariant
            i <= parents@.len(),
            r@.len() == i,
            forall|j: int| #![trigger r@[j]] 0 <= j < i ==> options_of_path(parents@[j].1.proof.path@, r@[j]@),
        decreases parents@.len() - i,
    {
        r.push(parents[i].1.proof.as_options());
        i = i + 1;
    }
    r
}

/// A sequence of `n` unknown values.
pub open spec fn unknowns<D>(n: nat) -> Seq<Option<D>> {
    Seq::new(n, |i: int| None::<D>)
}

/// `p` is the witness of a path of `levels` rows, each with `siblings`
/// unknown siblings and an unknown index.
pub open spec fn blank_path<D>(p: Seq<(Vec<Option<D>>, Option<usize>)>, levels: nat, siblings: nat) -> bool {
    &&& p.len() == levels
    &&& forall|j: int| #![trigger p[j]] 0 <= j < levels ==> p[j].0@ == unknowns::<D>(siblings) && p[j].1 is None
}

/// `ps` holds `count` blank paths of `levels` rows with `siblings` siblings each.
pub open spec fn blank_paths<D>(ps: Seq<AuthPath<D>>, count: nat, levels: nat, siblings: nat) -> bool {
    &&& ps.len() == count
    &&& forall|i: int| #![trigger ps[i]] 0 <= i < count ==> blank_path(ps[i]@, levels, siblings)
}

/// `n` unknown values.
pub(crate) fn unknown_values<D>(n: usize) -> (r: Vec<Option<D>>)
    ensures
        r@ == unknowns::<D>(n as nat),
{
    let mut r: Vec<Option<D>> = Vec::new();
    let mut i: usize = 0;
    while i < n
        invariant
            i <= n,
            r@ == unknowns::<D>(i as nat),
        decreases n - i,
    {
        r.push(None);
        assert(r@ =~= unknowns::<D>(i as nat + 1));
        i = i + 1;
    }
    r
}

/// A path witness of `levels` rows with `siblings` unknown siblings each.
pub(crate) fn unknown_path<D>(levels: usize, siblings: usize) -> (r: AuthPath<D>)
    ensures
        blank_path(r@, levels as nat, siblings as nat),
{
    let mut r: AuthPath<D> = Vec::new();
    let mut i: usize = 0;
    while i < levels
        invariant
            i <= levels,
            blank_path(r@, i as nat, siblings as nat),
        decreases levels - i,
    {
        r.push((unknown_values(siblings), None));
        i = i + 1;
    }
    r
}

/// `count` path witnesses of `levels` rows with `siblings` unknown siblings each.
pub(crate) fn unknown_paths<D>(count: usize, levels: usize, siblings: usize) -> (r: Vec<AuthPath<D>>)
    ensures
        blank_paths(r@, count as nat, levels as nat, siblings as nat),
{
    let mut r: Vec<AuthPath<D>> = Vec::new();
    let mut i: usize = 0;
    while i < count
        invariant
            i <= count,
            blank_paths(r@, i as nat, levels as nat, siblings as nat),
        decreases count - i,
    {
        r.push(unknown_path(levels, siblings));
        i = i + 1;
    }
    r
}

} // verus!
