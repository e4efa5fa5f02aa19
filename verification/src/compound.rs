use vstd::prelude::*;
use vstd::string::StringExecFns;

use crate::circuit::{
    blank_paths, node_paths, node_values, parent_paths, parent_values, paths_of, proofs_of_parents,
    unknown_paths, unknown_values, unknowns, values_of, AuthPath, ComponentPrivateInputs,
    DrgPoRepCircuit, Root,
};
use crate::drg;
use crate::error::{DrgError, GraphError};
use crate::graph::Graph;
use crate::por;

verus! {

/// The compound (circuit-backed) form of the DRG proof of replication.
pub struct DrgPoRepCompound;

/// One entry of the circuit's public inputs: the replica id, or the public
/// inputs of one proof of retrievability together with its parameters, which
/// the caller expands into that proof's own public inputs.
#[derive(Debug, PartialEq, Eq)]
pub enum PublicInput<D> {
    ReplicaId(D),
    Por(por::PublicInputs<D>, por::PublicParams),
}

/// Prefix of the cache key under which the circuit parameters are stored.
pub open spec fn cache_prefix_spec(hasher_name: Seq<char>) -> Seq<char> {
    "drg-proof-of-replication-"@ + hasher_name
}

/// The public inputs of the proof of retrievability of `challenge` against `commitment`.
pub open spec fn opening<D>(commitment: Option<D>, challenge: usize, params: por::PublicParams) -> PublicInput<D> {
    PublicInput::Por(por::PublicInputs { commitment, challenge }, params)
}

/// The entries for one challenged node: the node itself (as a 32-bit node
/// index) and each of its parents against the replica root, then the node
/// against the data root.
pub open spec fn challenge_inputs<D>(
    challenge: usize,
    parents: Seq<u32>,
    comm_r: Option<D>,
    comm_d: Option<D>,
    params: por::PublicParams,
) -> Seq<PublicInput<D>> {
    seq![opening(comm_r, #[verifier::truncate] (challenge as u32) as usize, params)]
        + parents.map_values(|p: u32| opening(comm_r, p as usize, params))
        + seq![opening(comm_d, challenge, params)]
}

/// The parents that `graph` reports for `node`, or none where it reports an error.
pub open spec fn reported_parents<G: Graph>(graph: &G, node: usize) -> Seq<u32> {
    match graph.parents_spec(node) {
        Ok(p) => p,
        Err(_) => Seq::empty(),
    }
}

/// The entries for the challenged nodes `challenges`, in order.
pub open spec fn challenges_inputs<D, G: Graph>(
    graph: &G,
    challenges: Seq<usize>,
    comm_r: Option<D>,
    comm_d: Option<D>,
    params: por::PublicParams,
) -> Seq<PublicInput<D>>
    decreases challenges.len(),
{
    if challenges.len() == 0 {
        Seq::empty()
    } else {
        challenges_inputs(graph, challenges.drop_last(), comm_r, comm_d, params)
            + challenge_inputs(
            challenges.last(),
            reported_parents(graph, challenges.last()),
            comm_r,
            comm_d,
            params,
        )
    }
}

/// The error of the first challenged node whose parents the graph cannot report.
pub open spec fn first_parents_failure<G: Graph>(graph: &G, challenges: Seq<usize>) -> Option<GraphError>
    decreases challenges.len(),
{
    if challenges.len() == 0 {
        None
    } else {
        match first_parents_failure(graph, challenges.drop_last()) {
            Some(e) => Some(e),
            None => match graph.parents_spec(challenges.last()) {
                Ok(_) => None,
                Err(e) => Some(e),
            },
        }
    }
}

/// The roots (replica, data) that the public inputs carry, if any.
pub open spec fn commitments<D>(tau: Option<drg::Tau<D>>) -> (Option<D>, Option<D>) {
    match tau {
        None => (None, None),
        Some(t) => (Some(t.comm_r), Some(t.comm_d)),
    }
}

/// Parameters of the proofs of retrievability inside the DRG proof.
pub open spec fn por_params<G: Graph>(pub_params: &drg::PublicParams<G>) -> por::PublicParams {
    por::PublicParams { leaves: pub_params.graph.size_spec(), private: pub_params.private }
}

/// What `generate_public_inputs` gives for these public inputs and parameters.
pub open spec fn public_inputs_outcome<D, G: Graph>(
    pub_in: &drg::PublicInputs<D>,
    pub_params: &drg::PublicParams<G>,
) -> Result<Seq<PublicInput<D>>, DrgError> {
    match pub_in.replica_id {
        None => Err(DrgError::MissingReplicaId),
        Some(id) => if (pub_in.tau is None) != pub_params.private {
            Err(DrgError::TauMismatch)
        } else {
            match first_parents_failure(&pub_params.graph, pub_in.challenges@) {
                Some(e) => Err(DrgError::Graph(e)),
                None => Ok(
                    seq![PublicInput::ReplicaId(id)] + challenges_inputs(
                        &pub_params.graph,
                        pub_in.challenges@,
                        commitments(pub_in.tau).0,
                        commitments(pub_in.tau).1,
                        por_params(pub_params),
                    ),
                ),
            }
        },
    }
}

/// A failure among the first `k` challenges is the first failure among all of them.
proof fn lemma_first_failure_prefix<G: Graph>(graph: &G, challenges: Seq<usize>, k: int)
    requires
        0 <= k <= challenges.len(),
        first_parents_failure(graph, challenges.take(k)) is Some,
    ensures
        first_parents_failure(graph, challenges) == first_parents_failure(graph, challenges.take(k)),
    decreases challenges.len(),
{
    if k == challenges.len() {
        assert(challenges.take(k) =~= challenges);
    } else {
        assert(challenges.drop_last().take(k) =~= challenges.take(k));
        lemma_first_failure_prefix(graph, challenges.drop_last(), k);
    }
}

/// Why `circuit` refuses these inputs, checked in this order, or `None`.
pub open spec fn circuit_error<D, G>(
    pub_in: &drg::PublicInputs<D>,
    comp: &ComponentPrivateInputs<D>,
    proof: &drg::Proof<D>,
    pub_params: &drg::PublicParams<G>,
) -> Option<DrgError> {
    let len = proof.nodes@.len();
    if len > pub_params.challenges_count {
        Some(DrgError::TooManyChallenges)
    } else if proof.replica_parents@.len() != len {
        Some(DrgError::ReplicaParentsMismatch)
    } else if proof.replica_nodes@.len() != len {
        Some(DrgError::ReplicaNodesMismatch)
    } else if pub_params.private && comp.comm_d is None {
        Some(DrgError::MissingPrivateDataRoot)
    } else if pub_params.private && comp.comm_r is None {
        Some(DrgError::MissingPrivateReplicaRoot)
    } else if (pub_in.tau is None) != pub_params.private {
        Some(DrgError::InconsistentPrivateState)
    } else {
        None
    }
}

/// The root the circuit uses: the private input when the commitments are
/// private, else the proof's root as a value.
pub open spec fn chosen_root<D>(private: bool, private_root: Option<Root<D>>, proof_root: D) -> Root<D> {
    if private {
        match private_root {
            Some(r) => r,
            None => Root::Val(None),
        }
    } else {
        Root::Val(Some(proof_root))
    }
}

/// `c` is the circuit assignment that the vanilla proof `proof` gives.
pub open spec fn circuit_assigns<D, G>(
    pub_in: &drg::PublicInputs<D>,
    comp: &ComponentPrivateInputs<D>,
    proof: &drg::Proof<D>,
    pub_params: &drg::PublicParams<G>,
    c: &DrgPoRepCircuit<D>,
) -> bool {
    &&& c.replica_nodes@ == values_of(proof.replica_nodes@)
    &&& paths_of(proof.replica_nodes@, c.replica_nodes_paths@)
    &&& c.replica_root == chosen_root(pub_params.private, comp.comm_r, proof.replica_root)
    &&& c.replica_parents@.len() == proof.replica_parents@.len()
    &&& forall|i: int|
        #![trigger c.replica_parents@[i]]
        0 <= i < proof.replica_parents@.len() ==> c.replica_parents@[i]@ == values_of(
            proofs_of_parents(proof.replica_parents@[i]@),
        )
    &&& c.replica_parents_paths@.len() == proof.replica_parents@.len()
    &&& forall|i: int|
        #![trigger c.replica_parents_paths@[i]]
        0 <= i < proof.replica_parents@.len() ==> paths_of(
            proofs_of_parents(proof.replica_parents@[i]@),
            c.replica_parents_paths@[i]@,
        )
    &&& c.data_nodes@ == values_of(proof.nodes@)
    &&& paths_of(proof.nodes@, c.data_nodes_paths@)
    &&& c.data_root == chosen_root(pub_params.private, comp.comm_d, proof.data_root)
    &&& c.replica_id == pub_in.replica_id
    &&& c.private == pub_params.private
}

/// Number of rows of a Merkle path in the circuit: the tree's rows but the root.
pub open spec fn path_levels<G: Graph>(pub_params: &drg::PublicParams<G>) -> nat {
    ((pub_params.graph.merkle_tree_depth_spec() as usize) - 1) as nat
}

/// `c` is the blank circuit for `pub_params`: every value and index unknown,
/// with one slot per challenged node, per parent and per path row.
pub open spec fn blank_assigns<D, G: Graph>(pub_params: &drg::PublicParams<G>, c: &DrgPoRepCircuit<D>) -> bool {
    let n = pub_params.challenges_count as nat;
    let degree = pub_params.graph.degree_spec() as nat;
    let levels = path_levels(pub_params);
    &&& c.replica_nodes@ == unknowns::<D>(n)
    &&& blank_paths(c.replica_nodes_paths@, n, levels, 1)
    &&& c.replica_root == Root::<D>::Val(None)
    &&& c.replica_parents@.len() == n
    &&& forall|i: int| #![trigger c.replica_parents@[i]] 0 <= i < n ==> c.replica_parents@[i]@ == unknowns::<D>(degree)
    &&& c.replica_parents_paths@.len() == n
    &&& forall|i: int|
        #![trigger c.replica_parents_paths@[i]]
        0 <= i < n ==> blank_paths(c.replica_parents_paths@[i]@, degree, levels, 1)
    &&& c.data_nodes@ == unknowns::<D>(n)
    &&& blank_paths(c.data_nodes_paths@, n, levels, 1)
    &&& c.data_root == Root::<D>::Val(None)
    &&& c.replica_id is None
    &&& c.private == pub_params.private
}

impl DrgPoRepCompound {
    /// Cache key prefix of the circuit parameters for the hasher named `hasher_name`.
    pub fn cache_prefix(hasher_name: &str) -> (res: String)
        ensures
            res@ == cache_prefix_spec(hasher_name@),
            res@ == "drg-proof-of-replication-"@ + hasher_name@,
    {
        let mut res = String::from_str("drg-proof-of-replication-");
        res.append(hasher_name);
        res
    }

    /// The public inputs of the circuit: the replica id, then for each
    /// challenged node in order the openings of the node and of its parents
    /// in the replica and the opening of the node in the data.
    ///
    /// Each opening is returned as the inputs and parameters of one proof of
    /// retrievability, not as the field elements that proof contributes:
    /// expanding an opening into field elements, and any error that step
    /// raises (such as a challenge outside the tree), is left to the code that uses this library,
    /// and no such error is returned here.
    pub fn generate_public_inputs<D: Copy, G: Graph>(
        pub_in: &drg::PublicInputs<D>,
        pub_params: &drg::PublicParams<G>,
        _k: Option<usize>,
    ) -> (r: Result<Vec<PublicInput<D>>, DrgError>)
        ensures
            match r {
                Ok(v) => public_inputs_outcome(pub_in, pub_params) == Ok::<Seq<PublicInput<D>>, DrgError>(v@),
                Err(e) => public_inputs_outcome(pub_in, pub_params) == Err::<Seq<PublicInput<D>>, DrgError>(e),
            },
    {
        let replica_id = match pub_in.replica_id {
            Some(id) => id,
            None => return Err(DrgError::MissingReplicaId),
        };
        let challenges = &pub_in.challenges;

        if pub_in.tau.is_none() != pub_params.private {
            return Err(DrgError::TauMismatch);
        }

        let (comm_r, comm_d): (Option<D>, Option<D>) = match &pub_in.tau {
            None => (None, None),
            Some(tau) => (Some(tau.comm_r), Some(tau.comm_d)),
        };

        let leaves = pub_params.graph.size();
        let por_pub_params = por::PublicParams { leaves, private: pub_params.private };

        let mut input: Vec<PublicInput<D>> = Vec::new();
        input.push(PublicInput::ReplicaId(replica_id));

        let mut parents: Vec<u32> = vec![0u32; pub_params.graph.degree()];
        let ghost graph = &pub_params.graph;
        let ghost head = seq![PublicInput::ReplicaId(replica_id)];

        let mut i: usize = 0;
        while i < challenges.len()
            invariant
                i <= challenges@.len(),
                challenges == &pub_in.challenges,
                graph == &pub_params.graph,
                parents@.len() == graph.degree_spec(),
                por_pub_params == por_params(pub_params),
                (comm_r, comm_d) == commitments(pub_in.tau),
                head == seq![PublicInput::ReplicaId(replica_id)],
                pub_in.replica_id == Some(replica_id),
                (pub_in.tau is None) == pub_params.private,
                first_parents_failure(graph, challenges@.take(i as int)) is None,
                input@ == head + challenges_inputs(graph, challenges@.take(i as int), comm_r, comm_d, por_pub_params),
            decreases challenges@.len() - i,
        {
            let challenge = challenges[i];
            let ghost before = input@;
            let ghost prefix = challenges@.take(i as int + 1);
            assert(prefix.drop_last() =~= challenges@.take(i as int));
            assert(prefix.last() == challenge);

            match pub_params.graph.parents(challenge, &mut parents) {
                Ok(_) => {},
                Err(e) => {
                    proof {
                        assert(first_parents_failure(graph, prefix) == Some(e));
                        lemma_first_failure_prefix(graph, challenges@, i as int + 1);
                    }
                    return Err(DrgError::Graph(e));
                },
            }

            input.push(
                PublicInput::Por(
                    por::PublicInputs { commitment: comm_r, challenge: #[verifier::truncate] (challenge as u32) as usize },
                    por_pub_params,
                ),
            );
            let mut k: usize = 0;
            while k < parents.len()
                invariant
                    k <= parents@.len(),
                    input@ == before + seq![opening(comm_r, #[verifier::truncate] (challenge as u32) as usize, por_pub_params)]
                        + parents@.take(k as int).map_values(|p: u32| opening(comm_r, p as usize, por_pub_params)),
                decreases parents@.len() - k,
            {
                let node = parents[k];
                input.push(
                    PublicInput::Por(
                        por::PublicInputs { commitment: comm_r, challenge: node as usize },
                        por_pub_params,
                    ),
                );
                assert(parents@.take(k as int + 1) =~= parents@.take(k as int).push(node));
                k = k + 1;
            }
            assert(parents@.take(parents@.len() as int) =~= parents@);
            input.push(
                PublicInput::Por(por::PublicInputs { commitment: comm_d, challenge }, por_pub_params),
            );
            proof {
                assert(reported_parents(graph, challenge) == parents@);
                assert(input@ =~= head + challenges_inputs(graph, prefix, comm_r, comm_d, por_pub_params));
            }
            i = i + 1;
        }
        assert(challenges@.take(challenges@.len() as int) =~= challenges@);
        Ok(input)
    }
    /// The circuit assignment for a vanilla proof.
    pub fn circuit<D: Copy, G>(
        public_inputs: &drg::PublicInputs<D>,
        component_private_inputs: ComponentPrivateInputs<D>,
        proof: &drg::Proof<D>,
        public_params: &drg::PublicParams<G>,
        _partition_k: Option<usize>,
    ) -> (r: Result<DrgPoRepCircuit<D>, DrgError>)
        ensures
            r is Ok <==> circuit_error(public_inputs, &component_private_inputs, proof, public_params) is None,
            match r {
                Ok(c) => circuit_assigns(public_inputs, &component_private_inputs, proof, public_params, &c),
                Err(e) => circuit_error(public_inputs, &component_private_inputs, proof, public_params) == Some(e),
            },
            r matches Ok(c) ==> {
                &&& c.replica_id == public_inputs.replica_id
                &&& c.private == public_params.private
                &&& c.data_nodes@.len() == proof.nodes@.len()
                &&& forall|i: int| 0 <= i < proof.nodes@.len() ==> #[trigger] c.data_nodes@[i] == Some(proof.nodes@[i].data)
                &&& c.replica_nodes@.len() == proof.replica_nodes@.len()
                &&& forall|i: int| 0 <= i < proof.replica_nodes@.len() ==> #[trigger] c.replica_nodes@[i] == Some(proof.replica_nodes@[i].data)
            },
    {
        let challenges = public_params.challenges_count;
        let len = proof.nodes.len();

        if len > challenges {
            return Err(DrgError::TooManyChallenges);
        }
        if proof.replica_parents.len() != len {
            return Err(DrgError::ReplicaParentsMismatch);
        }
        if proof.replica_nodes.len() != len {
            return Err(DrgError::ReplicaNodesMismatch);
        }

        let replica_nodes = node_values(&proof.replica_nodes);
        let replica_nodes_paths = node_paths(&proof.replica_nodes);

        let is_private = public_params.private;
        let ComponentPrivateInputs { comm_r, comm_d } = component_private_inputs;

        let (data_root, replica_root): (Root<D>, Root<D>) = if is_private {
            let data_root = match comm_d {
                Some(root) => root,
                None => return Err(DrgError::MissingPrivateDataRoot),
            };
            let replica_root = match comm_r {
                Some(root) => root,
                None => return Err(DrgError::MissingPrivateReplicaRoot),
            };
            (data_root, replica_root)
        } else {
            (Root::Val(Some(proof.data_root)), Root::Val(Some(proof.replica_root)))
        };

        let replica_id = public_inputs.replica_id;

        let mut replica_parents: Vec<Vec<Option<D>>> = Vec::new();
        let mut replica_parents_paths: Vec<Vec<AuthPath<D>>> = Vec::new();
        let mut i: usize = 0;
        while i < proof.replica_parents.len()
            invariant
                i <= proof.replica_parents@.len(),
                replica_parents@.len() == i,
                replica_parents_paths@.len() == i,
                forall|j: int|
                    #![trigger replica_parents@[j]]
                    0 <= j < i ==> replica_parents@[j]@ == values_of(proofs_of_parents(proof.replica_parents@[j]@)),
                forall|j: int|
                    #![trigger replica_parents_paths@[j]]
                    0 <= j < i ==> paths_of(proofs_of_parents(proof.replica_parents@[j]@), replica_parents_paths@[j]@),
            decreases proof.replica_parents@.len() - i,
        {
            replica_parents.push(parent_values(&proof.replica_parents[i]));
            replica_parents_paths.push(parent_paths(&proof.replica_parents[i]));
            i = i + 1;
        }

        let data_nodes = node_values(&proof.nodes);
        let data_nodes_paths = node_paths(&proof.nodes);

        if public_inputs.tau.is_none() != public_params.private {
            return Err(DrgError::InconsistentPrivateState);
        }

        Ok(DrgPoRepCircuit {
            replica_nodes,
            replica_nodes_paths,
            replica_root,
            replica_parents,
            replica_parents_paths,
            data_nodes,
            data_nodes_paths,
            data_root,
            replica_id,
            private: public_params.private,
        })
    }
    /// The circuit with every witness unknown, shaped for `public_params`.
    pub fn blank_circuit<D, G: Graph>(public_params: &drg::PublicParams<G>) -> (r: DrgPoRepCircuit<D>)
        requires
            public_params.graph.merkle_tree_depth_spec() as usize >= 1,
        ensures
            blank_assigns(public_params, &r),
            r.replica_root == Root::<D>::Val(None),
            r.data_root == Root::<D>::Val(None),
            r.replica_id is None,
            r.private == public_params.private,
    {
        let depth = #[verifier::truncate] (public_params.graph.merkle_tree_depth() as usize);
        let degree = public_params.graph.degree();
        let arity: usize = 2;

        let challenges_count = public_params.challenges_count;

        let replica_nodes = unknown_values(challenges_count);
        let replica_nodes_paths = unknown_paths(challenges_count, depth - 1, arity - 1);

        let replica_root = Root::Val(None);
        let mut replica_parents: Vec<Vec<Option<D>>> = Vec::new();
        let mut replica_parents_paths: Vec<Vec<AuthPath<D>>> = Vec::new();
        let mut i: usize = 0;
        while i < challenges_count
            invariant
                i <= challenges_count,
                degree == public_params.graph.degree_spec(),
                depth - 1 == path_levels(public_params),
                arity == 2,
                replica_parents@.len() == i,
                replica_parents_paths@.len() == i,
                forall|j: int| #![trigger replica_parents@[j]] 0 <= j < i ==> replica_parents@[j]@ == unknowns::<D>(degree as nat),
                forall|j: int|
                    #![trigger replica_parents_paths@[j]]
                    0 <= j < i ==> blank_paths(replica_parents_paths@[j]@, degree as nat, path_levels(public_params), 1),
            decreases challenges_count - i,
        {
            replica_parents.push(unknown_values(degree));
            replica_parents_paths.push(unknown_paths(degree, depth - 1, arity - 1));
            i = i + 1;
        }
        let data_nodes = unknown_values(challenges_count);
        let data_nodes_paths = unknown_paths(challenges_count, depth - 1, arity - 1);
        let data_root = Root::Val(None);

        DrgPoRepCircuit {
            replica_nodes,
            replica_nodes_paths,
            replica_root,
            replica_parents,
            replica_parents_paths,
            data_nodes,
            data_nodes_paths,
            data_root,
            replica_id: None,
            private: public_params.private,
        }
    }
}

} // verus!
