use vstd::prelude::*;

use crate::circuit::{
    blank_path, blank_paths, paths_of, proofs_of_parents, unknowns, values_of, AuthPath,
    ComponentPrivateInputs, DrgPoRepCircuit, Root,
};
use crate::compound::{
    cache_prefix_spec, blank_assigns, challenge_inputs, challenges_inputs, circuit_assigns, commitments,
    first_parents_failure, path_levels, por_params, public_inputs_outcome, PublicInput,
};
use crate::drg;
use crate::graph::Graph;
use crate::merkle::options_of_path;
use crate::por;

verus! {

/// The graph reports the parents of every node of `challenges`.
pub open spec fn all_parents_reported<G: Graph>(graph: &G, challenges: Seq<usize>) -> bool {
    forall|i: int| 0 <= i < challenges.len() ==> (#[trigger] graph.parents_spec(challenges[i])) is Ok
}

/// Every parent list the graph reports for `challenges` holds `degree` parents.
spec fn reported_lists_have_degree<G: Graph>(graph: &G, challenges: Seq<usize>) -> bool {
    forall|i: int|
        0 <= i < challenges.len() ==> match #[trigger] graph.parents_spec(challenges[i]) {
            Ok(p) => p.len() == graph.degree_spec(),
            Err(_) => true,
        }
}

proof fn lemma_no_failure_iff_all_reported<G: Graph>(graph: &G, challenges: Seq<usize>)
    ensures
        first_parents_failure(graph, challenges) is None <==> all_parents_reported(graph, challenges),
    decreases challenges.len(),
{
    if challenges.len() > 0 {
        let prefix = challenges.drop_last();
        lemma_no_failure_iff_all_reported(graph, prefix);
        if all_parents_reported(graph, challenges) {
            assert forall|i: int| 0 <= i < prefix.len() implies (#[trigger] graph.parents_spec(prefix[i])) is Ok by {
                assert(prefix[i] == challenges[i]);
            }
            assert(graph.parents_spec(challenges[challenges.len() - 1]) is Ok);
        }
        if first_parents_failure(graph, challenges) is None {
            assert forall|i: int| 0 <= i < challenges.len() implies (#[trigger] graph.parents_spec(challenges[i])) is Ok by {
                if i < challenges.len() - 1 {
                    assert(prefix[i] == challenges[i]);
                    assert(graph.parents_spec(prefix[i]) is Ok);
                }
            }
        }
    }
}

/// Generating the public inputs succeeds exactly when the replica id is
/// given, `tau` is given exactly when the parameters are public, and the
/// graph reports the parents of every challenged node.
pub proof fn law_public_inputs_succeed_iff<D, G: Graph>(
    pub_in: &drg::PublicInputs<D>,
    pub_params: &drg::PublicParams<G>,
)
    ensures
        public_inputs_outcome(pub_in, pub_params) is Ok <==> {
            &&& pub_in.replica_id is Some
            &&& (pub_in.tau is Some) == !pub_params.private
            &&& all_parents_reported(&pub_params.graph, pub_in.challenges@)
        },
{
    lemma_no_failure_iff_all_reported(&pub_params.graph, pub_in.challenges@);
}

proof fn lemma_challenges_inputs_len<D, G: Graph>(
    graph: &G,
    challenges: Seq<usize>,
    comm_r: Option<D>,
    comm_d: Option<D>,
    params: por::PublicParams,
)
    requires
        reported_lists_have_degree(graph, challenges),
        all_parents_reported(graph, challenges),
    ensures
        challenges_inputs(graph, challenges, comm_r, comm_d, params).len() == challenges.len() * (
        graph.degree_spec() + 2),
    decreases challenges.len(),
{
    if challenges.len() > 0 {
        let prefix = challenges.drop_last();
        assert forall|i: int| 0 <= i < prefix.len() implies match #[trigger] graph.parents_spec(prefix[i]) {
            Ok(p) => p.len() == graph.degree_spec(),
            Err(_) => true,
        } by {
            assert(prefix[i] == challenges[i]);
        }
        assert forall|i: int| 0 <= i < prefix.len() implies (#[trigger] graph.parents_spec(prefix[i])) is Ok by {
            assert(prefix[i] == challenges[i]);
        }
        lemma_challenges_inputs_len(graph, prefix, comm_r, comm_d, params);
        let last = challenges.len() - 1;
        assert(graph.parents_spec(challenges[last]) is Ok);
        assert(challenges.last() == challenges[last]);
        vstd::arithmetic::mul::lemma_mul_is_distributive_add_other_way(
            graph.degree_spec() + 2,
            prefix.len() as int,
            1,
        );
    }
}

/// Where the public inputs are generated, there is one entry for the
/// replica id and `degree + 2` for each challenged node.
pub proof fn law_public_inputs_count<D, G: Graph>(
    pub_in: &drg::PublicInputs<D>,
    pub_params: &drg::PublicParams<G>,
)
    ensures
        match public_inputs_outcome(pub_in, pub_params) {
            Ok(s) => s.len() == 1 + pub_in.challenges@.len() * (pub_params.graph.degree_spec() + 2),
            Err(_) => true,
        },
{
    let graph = &pub_params.graph;
    let challenges = pub_in.challenges@;
    assert forall|i: int| 0 <= i < challenges.len() implies match #[trigger] graph.parents_spec(challenges[i]) {
        Ok(p) => p.len() == graph.degree_spec(),
        Err(_) => true,
    } by {
        graph.lemma_parents_have_degree(challenges[i]);
    }
    lemma_no_failure_iff_all_reported(&pub_params.graph, pub_in.challenges@);
    if public_inputs_outcome(pub_in, pub_params) is Err {
        return;
    }
    lemma_challenges_inputs_len(
        &pub_params.graph,
        pub_in.challenges@,
        commitments(pub_in.tau).0,
        commitments(pub_in.tau).1,
        por_params(pub_params),
    );
}

proof fn lemma_challenges_inputs_append<D, G: Graph>(
    graph: &G,
    a: Seq<usize>,
    b: Seq<usize>,
    comm_r: Option<D>,
    comm_d: Option<D>,
    params: por::PublicParams,
)
    ensures
        challenges_inputs(graph, a + b, comm_r, comm_d, params) == challenges_inputs(graph, a, comm_r, comm_d, params)
            + challenges_inputs(graph, b, comm_r, comm_d, params),
    decreases b.len(),
{
    if b.len() == 0 {
        assert(a + b =~= a);
        assert(challenges_inputs(graph, a, comm_r, comm_d, params) + Seq::<PublicInput<D>>::empty()
            =~= challenges_inputs(graph, a, comm_r, comm_d, params));
    } else {
        lemma_challenges_inputs_append(graph, a, b.drop_last(), comm_r, comm_d, params);
        assert((a + b).drop_last() =~= a + b.drop_last());
        assert((a + b).last() == b.last());
        let x = challenges_inputs(graph, a, comm_r, comm_d, params);
        let y = challenges_inputs(graph, b.drop_last(), comm_r, comm_d, params);
        let z = challenge_inputs(b.last(), crate::compound::reported_parents(graph, b.last()), comm_r, comm_d, params);
        assert(x + y + z =~= x + (y + z));
    }
}

/// Generating the public inputs for the challenges `a` followed by `b` gives
/// the replica id, then the entries for `a`, then the entries for `b`.
pub proof fn law_public_inputs_concatenate<D, G: Graph>(
    pub_in: &drg::PublicInputs<D>,
    pub_params: &drg::PublicParams<G>,
    a: Seq<usize>,
    b: Seq<usize>,
)
    requires
        pub_in.challenges@ == a + b,
    ensures
        match public_inputs_outcome(pub_in, pub_params) {
            Ok(s) => pub_in.replica_id matches Some(id) && s == seq![PublicInput::ReplicaId(id)]
                + challenges_inputs(&pub_params.graph, a, commitments(pub_in.tau).0, commitments(pub_in.tau).1, por_params(pub_params))
                + challenges_inputs(&pub_params.graph, b, commitments(pub_in.tau).0, commitments(pub_in.tau).1, por_params(pub_params)),
            Err(_) => true,
        },
{
    let (r, d) = commitments(pub_in.tau);
    lemma_challenges_inputs_append(&pub_params.graph, a, b, r, d, por_params(pub_params));
    if public_inputs_outcome(pub_in, pub_params) is Ok {
        let id = pub_in.replica_id->Some_0;
        let x = challenges_inputs(&pub_params.graph, a, r, d, por_params(pub_params));
        let y = challenges_inputs(&pub_params.graph, b, r, d, por_params(pub_params));
        assert(seq![PublicInput::ReplicaId(id)] + (x + y) =~= seq![PublicInput::ReplicaId(id)] + x + y);
    }
}

/// Every opening in `s` uses the parameters `params` and carries a root
/// exactly when the parameters are public.
pub open spec fn openings_agree<D>(s: Seq<PublicInput<D>>, params: por::PublicParams) -> bool {
    forall|k: int|
        0 <= k < s.len() ==> match #[trigger] s[k] {
            PublicInput::Por(inputs, p) => p == params && (inputs.commitment is Some <==> !params.private),
            PublicInput::ReplicaId(_) => false,
        }
}

proof fn lemma_challenges_inputs_agree<D, G: Graph>(
    graph: &G,
    challenges: Seq<usize>,
    comm_r: Option<D>,
    comm_d: Option<D>,
    params: por::PublicParams,
)
    requires
        comm_r is Some <==> !params.private,
        comm_d is Some <==> !params.private,
    ensures
        openings_agree(challenges_inputs(graph, challenges, comm_r, comm_d, params), params),
    decreases challenges.len(),
{
    if challenges.len() > 0 {
        let prefix = challenges.drop_last();
        lemma_challenges_inputs_agree(graph, prefix, comm_r, comm_d, params);
        let a = challenges_inputs(graph, prefix, comm_r, comm_d, params);
        let parents = match graph.parents_spec(challenges.last()) {
            Ok(p) => p,
            Err(_) => Seq::empty(),
        };
        let b = challenge_inputs(challenges.last(), parents, comm_r, comm_d, params);
        assert(openings_agree(b, params)) by {
            assert forall|k: int| 0 <= k < b.len() implies match #[trigger] b[k] {
                PublicInput::Por(inputs, p) => p == params && (inputs.commitment is Some <==> !params.private),
                PublicInput::ReplicaId(_) => false,
            } by {
                if 1 <= k < b.len() - 1 {
                    assert(b[k] == parents.map_values(|p: u32| crate::compound::opening(comm_r, p as usize, params))[k - 1]);
                }
            }
        }
        assert forall|k: int| 0 <= k < (a + b).len() implies match #[trigger] (a + b)[k] {
            PublicInput::Por(inputs, p) => p == params && (inputs.commitment is Some <==> !params.private),
            PublicInput::ReplicaId(_) => false,
        } by {
            if k < a.len() {
                assert((a + b)[k] == a[k]);
            } else {
                assert((a + b)[k] == b[k - a.len()]);
            }
        }
    }
}

/// Generated public inputs start with the replica id; every later entry is
/// an opening under the parameters `(graph size, private)`, and carries a
/// root exactly when the parameters are public.
pub proof fn law_public_inputs_openings<D, G: Graph>(
    pub_in: &drg::PublicInputs<D>,
    pub_params: &drg::PublicParams<G>,
)
    ensures
        match public_inputs_outcome(pub_in, pub_params) {
            Ok(s) => {
                &&& s.len() >= 1
                &&& pub_in.replica_id matches Some(id) && s[0] == PublicInput::ReplicaId(id)
                &&& openings_agree(s.drop_first(), por_params(pub_params))
            },
            Err(_) => true,
        },
{
    if public_inputs_outcome(pub_in, pub_params) is Ok {
        let tail = challenges_inputs(
            &pub_params.graph,
            pub_in.challenges@,
            commitments(pub_in.tau).0,
            commitments(pub_in.tau).1,
            por_params(pub_params),
        );
        lemma_challenges_inputs_agree(
            &pub_params.graph,
            pub_in.challenges@,
            commitments(pub_in.tau).0,
            commitments(pub_in.tau).1,
            por_params(pub_params),
        );
        let id = pub_in.replica_id->Some_0;
        assert((seq![PublicInput::ReplicaId(id)] + tail).drop_first() =~= tail);
    }
}

/// The sibling count of each row of a path witness.
pub open spec fn path_shape<D>(p: Seq<(Vec<Option<D>>, Option<usize>)>) -> Seq<nat> {
    p.map_values(|e: (Vec<Option<D>>, Option<usize>)| e.0@.len())
}

/// The shapes of a list of path witnesses.
pub open spec fn paths_shape<D>(ps: Seq<AuthPath<D>>) -> Seq<Seq<nat>> {
    ps.map_values(|p: AuthPath<D>| path_shape(p@))
}

/// What a circuit assignment looks like once its values are forgotten: how
/// many slots each part has, and whether each root is an allocated variable.
pub struct CircuitShape {
    pub replica_nodes: nat,
    pub replica_nodes_paths: Seq<Seq<nat>>,
    pub replica_root_is_var: bool,
    pub replica_parents: Seq<nat>,
    pub replica_parents_paths: Seq<Seq<Seq<nat>>>,
    pub data_nodes: nat,
    pub data_nodes_paths: Seq<Seq<nat>>,
    pub data_root_is_var: bool,
    pub private: bool,
}

/// The shape of a circuit assignment.
pub open spec fn shape<D>(c: &DrgPoRepCircuit<D>) -> CircuitShape {
    CircuitShape {
        replica_nodes: c.replica_nodes@.len(),
        replica_nodes_paths: paths_shape(c.replica_nodes_paths@),
        replica_root_is_var: c.replica_root is Var,
        replica_parents: c.replica_parents@.map_values(|p: Vec<Option<D>>| p@.len()),
        replica_parents_paths: c.replica_parents_paths@.map_values(|ps: Vec<AuthPath<D>>| paths_shape(ps@)),
        data_nodes: c.data_nodes@.len(),
        data_nodes_paths: paths_shape(c.data_nodes_paths@),
        data_root_is_var: c.data_root is Var,
        private: c.private,
    }
}

/// A Merkle path of `levels` rows, each with one sibling (a binary tree).
pub open spec fn path_fits<D>(path: Seq<(Vec<D>, usize)>, levels: nat) -> bool {
    &&& path.len() == levels
    &&& forall|j: int| #![trigger path[j]] 0 <= j < levels ==> path[j].0@.len() == 1
}

/// `count` node proofs, each with a path of `levels` rows.
pub open spec fn proofs_fit<D>(proofs: Seq<drg::DataProof<D>>, count: nat, levels: nat) -> bool {
    &&& proofs.len() == count
    &&& forall|i: int| #![trigger proofs[i]] 0 <= i < count ==> path_fits(proofs[i].proof.path@, levels)
}

/// `proof` has exactly the size that `pub_params` allows: one entry per
/// challenge, `degree` parents each, and binary paths of the tree's height.
pub open spec fn proof_fits<D, G: Graph>(proof: &drg::Proof<D>, pub_params: &drg::PublicParams<G>) -> bool {
    let n = pub_params.challenges_count as nat;
    let levels = path_levels(pub_params);
    &&& proofs_fit(proof.replica_nodes@, n, levels)
    &&& proofs_fit(proof.nodes@, n, levels)
    &&& proof.replica_parents@.len() == n
    &&& forall|i: int|
        #![trigger proof.replica_parents@[i]]
        0 <= i < n ==> proofs_fit(
            proofs_of_parents(proof.replica_parents@[i]@),
            pub_params.graph.degree_spec() as nat,
            levels,
        )
}

/// The shape of `count` binary paths of `levels` rows.
pub open spec fn binary_paths_shape(count: nat, levels: nat) -> Seq<Seq<nat>> {
    Seq::new(count, |i: int| Seq::new(levels, |j: int| 1nat))
}

proof fn lemma_assigned_paths_shape<D>(proofs: Seq<drg::DataProof<D>>, paths: Seq<AuthPath<D>>, count: nat, levels: nat)
    requires
        paths_of(proofs, paths),
        proofs_fit(proofs, count, levels),
    ensures
        paths_shape(paths) == binary_paths_shape(count, levels),
{
    assert forall|i: int| 0 <= i < count implies #[trigger] paths_shape(paths)[i] == binary_paths_shape(count, levels)[i] by {
        let p = paths[i]@;
        let path = proofs[i].proof.path@;
        assert(options_of_path(path, p));
        assert(path_fits(path, levels));
        assert forall|j: int| 0 <= j < levels implies #[trigger] path_shape(p)[j] == 1nat by {
            assert(p[j].0@ == path[j].0@.map_values(|x: D| Some(x)));
            assert(path[j].0@.len() == 1);
        }
        assert(path_shape(p) =~= Seq::new(levels, |j: int| 1nat));
    }
    assert(paths_shape(paths) =~= binary_paths_shape(count, levels));
}

proof fn lemma_blank_paths_shape<D>(paths: Seq<AuthPath<D>>, count: nat, levels: nat)
    requires
        blank_paths(paths, count, levels, 1),
    ensures
        paths_shape(paths) == binary_paths_shape(count, levels),
{
    assert forall|i: int| 0 <= i < count implies #[trigger] paths_shape(paths)[i] == binary_paths_shape(count, levels)[i] by {
        let p = paths[i]@;
        assert(blank_path(p, levels, 1));
        assert forall|j: int| 0 <= j < levels implies #[trigger] path_shape(p)[j] == 1nat by {
            assert(p[j].0@ == unknowns::<D>(1));
        }
        assert(path_shape(p) =~= Seq::new(levels, |j: int| 1nat));
    }
    assert(paths_shape(paths) =~= binary_paths_shape(count, levels));
}

/// The circuit assigned from a proof that fits the parameters has the same
/// slots for nodes, parents and path rows as the blank circuit for those
/// parameters, and the same private flag; with public commitments its roots,
/// like the blank circuit's, are allocated by the circuit itself, so the two
/// shapes are equal.
pub proof fn law_blank_circuit_shape<D, G: Graph>(
    pub_in: &drg::PublicInputs<D>,
    comp: &ComponentPrivateInputs<D>,
    proof: &drg::Proof<D>,
    pub_params: &drg::PublicParams<G>,
    assigned: &DrgPoRepCircuit<D>,
    blank: &DrgPoRepCircuit<D>,
)
    requires
        proof_fits(proof, pub_params),
        circuit_assigns(pub_in, comp, proof, pub_params, assigned),
        blank_assigns(pub_params, blank),
    ensures
        shape(assigned).replica_nodes == shape(blank).replica_nodes,
        shape(assigned).replica_nodes_paths == shape(blank).replica_nodes_paths,
        shape(assigned).replica_parents == shape(blank).replica_parents,
        shape(assigned).replica_parents_paths == shape(blank).replica_parents_paths,
        shape(assigned).data_nodes == shape(blank).data_nodes,
        shape(assigned).data_nodes_paths == shape(blank).data_nodes_paths,
        shape(assigned).private == shape(blank).private,
        !pub_params.private ==> shape(assigned) == shape(blank),
{
    let n = pub_params.challenges_count as nat;
    let degree = pub_params.graph.degree_spec() as nat;
    let levels = path_levels(pub_params);
    lemma_assigned_paths_shape(proof.replica_nodes@, assigned.replica_nodes_paths@, n, levels);
    lemma_blank_paths_shape(blank.replica_nodes_paths@, n, levels);
    lemma_assigned_paths_shape(proof.nodes@, assigned.data_nodes_paths@, n, levels);
    lemma_blank_paths_shape(blank.data_nodes_paths@, n, levels);

    let a = shape(assigned);
    let b = shape(blank);
    assert forall|i: int| 0 <= i < n implies #[trigger] a.replica_parents[i] == b.replica_parents[i] by {
        assert(assigned.replica_parents@[i]@ == values_of(proofs_of_parents(proof.replica_parents@[i]@)));
        assert(proofs_fit(proofs_of_parents(proof.replica_parents@[i]@), degree, levels));
        assert(blank.replica_parents@[i]@ == unknowns::<D>(degree));
    }
    assert(a.replica_parents =~= b.replica_parents);
    assert forall|i: int| 0 <= i < n implies #[trigger] a.replica_parents_paths[i] == b.replica_parents_paths[i] by {
        let ps = proofs_of_parents(proof.replica_parents@[i]@);
        assert(paths_of(ps, assigned.replica_parents_paths@[i]@));
        assert(proofs_fit(ps, degree, levels));
        lemma_assigned_paths_shape(ps, assigned.replica_parents_paths@[i]@, degree, levels);
        assert(blank_paths(blank.replica_parents_paths@[i]@, degree, levels, 1));
        lemma_blank_paths_shape(blank.replica_parents_paths@[i]@, degree, levels);
    }
    assert(a.replica_parents_paths =~= b.replica_parents_paths);
}

/// A proof that fits the parameters is accepted by `circuit` whenever `tau`
/// is given exactly when the commitments are public and, for private
/// commitments, both roots are handed over.
pub proof fn law_fitting_proof_accepted<D, G: Graph>(
    pub_in: &drg::PublicInputs<D>,
    comp: &ComponentPrivateInputs<D>,
    proof: &drg::Proof<D>,
    pub_params: &drg::PublicParams<G>,
)
    requires
        proof_fits(proof, pub_params),
        (pub_in.tau is Some) == !pub_params.private,
        pub_params.private ==> comp.comm_d is Some && comp.comm_r is Some,
    ensures
        crate::compound::circuit_error(pub_in, comp, proof, pub_params) is None,
{
}

/// The cache prefix is the fixed text followed by the whole hasher name: it
/// is 25 characters longer than the name and ends with it.
pub proof fn law_cache_prefix_appends_name(hasher_name: Seq<char>)
    ensures
        cache_prefix_spec(hasher_name) == "drg-proof-of-replication-"@ + hasher_name,
        cache_prefix_spec(hasher_name).len() == 25 + hasher_name.len(),
        cache_prefix_spec(hasher_name).subrange(25, 25 + hasher_name.len() as int) == hasher_name,
{
    reveal_strlit("drg-proof-of-replication-");
    assert(cache_prefix_spec(hasher_name).subrange(25, 25 + hasher_name.len() as int) =~= hasher_name);
}

/// The circuit carries the proof's witness whatever the parameters: the
/// replica id of the public inputs, every node value and every path hash and
/// index of the proof, each present; its roots are the handed-over ones for
/// private commitments and the proof's roots otherwise.
pub proof fn law_circuit_carries_the_proof<D, G>(
    pub_in: &drg::PublicInputs<D>,
    comp: &ComponentPrivateInputs<D>,
    proof: &drg::Proof<D>,
    pub_params: &drg::PublicParams<G>,
    c: &DrgPoRepCircuit<D>,
)
    requires
        circuit_assigns(pub_in, comp, proof, pub_params, c),
    ensures
        c.replica_id == pub_in.replica_id,
        c.private == pub_params.private,
        c.replica_nodes@.len() == proof.replica_nodes@.len(),
        forall|i: int| 0 <= i < proof.replica_nodes@.len() ==> #[trigger] c.replica_nodes@[i] == Some(proof.replica_nodes@[i].data),
        c.data_nodes@.len() == proof.nodes@.len(),
        forall|i: int| 0 <= i < proof.nodes@.len() ==> #[trigger] c.data_nodes@[i] == Some(proof.nodes@[i].data),
        c.replica_parents@.len() == proof.replica_parents@.len(),
        forall|i: int, j: int|
            0 <= i < proof.replica_parents@.len() && 0 <= j < proof.replica_parents@[i]@.len() ==> {
                &&& c.replica_parents@[i]@.len() == proof.replica_parents@[i]@.len()
                &&& #[trigger] c.replica_parents@[i]@[j] == Some(#[trigger] proof.replica_parents@[i]@[j].1.data)
            },
        c.replica_nodes_paths@.len() == proof.replica_nodes@.len(),
        forall|i: int, r: int|
            0 <= i < proof.replica_nodes@.len() && 0 <= r < proof.replica_nodes@[i].proof.path@.len() ==> {
                &&& c.replica_nodes_paths@[i]@.len() == proof.replica_nodes@[i].proof.path@.len()
                &&& (#[trigger] c.replica_nodes_paths@[i]@[r]).1 == Some(proof.replica_nodes@[i].proof.path@[r].1)
                &&& c.replica_nodes_paths@[i]@[r].0@.len() == proof.replica_nodes@[i].proof.path@[r].0@.len()
                &&& forall|k: int|
                    0 <= k < proof.replica_nodes@[i].proof.path@[r].0@.len() ==> #[trigger] c.replica_nodes_paths@[i]@[r].0@[k]
                        == Some(proof.replica_nodes@[i].proof.path@[r].0@[k])
            },
        c.data_nodes_paths@.len() == proof.nodes@.len(),
        forall|i: int, r: int|
            0 <= i < proof.nodes@.len() && 0 <= r < proof.nodes@[i].proof.path@.len() ==> {
                &&& c.data_nodes_paths@[i]@.len() == proof.nodes@[i].proof.path@.len()
                &&& (#[trigger] c.data_nodes_paths@[i]@[r]).1 == Some(proof.nodes@[i].proof.path@[r].1)
                &&& c.data_nodes_paths@[i]@[r].0@.len() == proof.nodes@[i].proof.path@[r].0@.len()
                &&& forall|k: int|
                    0 <= k < proof.nodes@[i].proof.path@[r].0@.len() ==> #[trigger] c.data_nodes_paths@[i]@[r].0@[k]
                        == Some(proof.nodes@[i].proof.path@[r].0@[k])
            },
        !pub_params.private ==> c.replica_root == Root::Val(Some(proof.replica_root)) && c.data_root == Root::Val(Some(proof.data_root)),
        pub_params.private ==> (comp.comm_r matches Some(root) ==> c.replica_root == root),
        pub_params.private ==> (comp.comm_d matches Some(root) ==> c.data_root == root),
{
    assert forall|i: int, j: int|
        0 <= i < proof.replica_parents@.len() && 0 <= j < proof.replica_parents@[i]@.len() implies {
            &&& c.replica_parents@[i]@.len() == proof.replica_parents@[i]@.len()
            &&& #[trigger] c.replica_parents@[i]@[j] == Some(#[trigger] proof.replica_parents@[i]@[j].1.data)
        } by {
        assert(c.replica_parents@[i]@ == values_of(proofs_of_parents(proof.replica_parents@[i]@)));
    }
    assert forall|i: int, r: int|
        0 <= i < proof.replica_nodes@.len() && 0 <= r < proof.replica_nodes@[i].proof.path@.len() implies {
            &&& c.replica_nodes_paths@[i]@.len() == proof.replica_nodes@[i].proof.path@.len()
            &&& (#[trigger] c.replica_nodes_paths@[i]@[r]).1 == Some(proof.replica_nodes@[i].proof.path@[r].1)
            &&& c.replica_nodes_paths@[i]@[r].0@.len() == proof.replica_nodes@[i].proof.path@[r].0@.len()
            &&& forall|k: int|
                0 <= k < proof.replica_nodes@[i].proof.path@[r].0@.len() ==> #[trigger] c.replica_nodes_paths@[i]@[r].0@[k]
                    == Some(proof.replica_nodes@[i].proof.path@[r].0@[k])
        } by {
        assert(options_of_path(proof.replica_nodes@[i].proof.path@, c.replica_nodes_paths@[i]@));
    }
    assert forall|i: int, r: int|
        0 <= i < proof.nodes@.len() && 0 <= r < proof.nodes@[i].proof.path@.len() implies {
            &&& c.data_nodes_paths@[i]@.len() == proof.nodes@[i].proof.path@.len()
            &&& (#[trigger] c.data_nodes_paths@[i]@[r]).1 == Some(proof.nodes@[i].proof.path@[r].1)
            &&& c.data_nodes_paths@[i]@[r].0@.len() == proof.nodes@[i].proof.path@[r].0@.len()
            &&& forall|k: int|
                0 <= k < proof.nodes@[i].proof.path@[r].0@.len() ==> #[trigger] c.data_nodes_paths@[i]@[r].0@[k]
                    == Some(proof.nodes@[i].proof.path@[r].0@[k])
        } by {
        assert(options_of_path(proof.nodes@[i].proof.path@, c.data_nodes_paths@[i]@));
    }
}

/// The blank circuit knows nothing, private parameters or not: both roots
/// are unknown values the circuit allocates itself, there is no replica id,
/// and every node value, path hash and path index is unknown.
pub proof fn law_blank_circuit_is_unknown<D, G: Graph>(pub_params: &drg::PublicParams<G>, b: &DrgPoRepCircuit<D>)
    requires
        blank_assigns(pub_params, b),
    ensures
        b.replica_root == Root::<D>::Val(None),
        b.data_root == Root::<D>::Val(None),
        b.replica_id is None,
        b.private == pub_params.private,
        b.replica_nodes@.len() == pub_params.challenges_count,
        b.data_nodes@.len() == pub_params.challenges_count,
        forall|i: int| 0 <= i < pub_params.challenges_count ==> (#[trigger] b.replica_nodes@[i]) is None,
        forall|i: int| 0 <= i < pub_params.challenges_count ==> (#[trigger] b.data_nodes@[i]) is None,
        b.replica_parents@.len() == pub_params.challenges_count,
        forall|i: int, j: int|
            0 <= i < pub_params.challenges_count && 0 <= j < pub_params.graph.degree_spec() ==> {
                &&& b.replica_parents@[i]@.len() == pub_params.graph.degree_spec()
                &&& (#[trigger] b.replica_parents@[i]@[j]) is None
            },
        forall|i: int, r: int|
            0 <= i < pub_params.challenges_count && 0 <= r < path_levels(pub_params) ==> {
                &&& b.replica_nodes_paths@[i]@.len() == path_levels(pub_params)
                &&& (#[trigger] b.replica_nodes_paths@[i]@[r]).1 is None
                &&& b.replica_nodes_paths@[i]@[r].0@.len() == 1
                &&& b.replica_nodes_paths@[i]@[r].0@[0] is None
                &&& b.data_nodes_paths@[i]@.len() == path_levels(pub_params)
                &&& b.data_nodes_paths@[i]@[r].1 is None
                &&& b.data_nodes_paths@[i]@[r].0@.len() == 1
                &&& b.data_nodes_paths@[i]@[r].0@[0] is None
            },
{
    let n = pub_params.challenges_count as nat;
    let levels = path_levels(pub_params);
    assert forall|i: int| 0 <= i < n implies (#[trigger] b.replica_nodes@[i]) is None by {
        assert(b.replica_nodes@ == unknowns::<D>(n));
    }
    assert forall|i: int| 0 <= i < n implies (#[trigger] b.data_nodes@[i]) is None by {
        assert(b.data_nodes@ == unknowns::<D>(n));
    }
    assert forall|i: int, j: int|
        0 <= i < n && 0 <= j < pub_params.graph.degree_spec() implies {
            &&& b.replica_parents@[i]@.len() == pub_params.graph.degree_spec()
            &&& (#[trigger] b.replica_parents@[i]@[j]) is None
        } by {
        assert(b.replica_parents@[i]@ == unknowns::<D>(pub_params.graph.degree_spec() as nat));
    }
    assert forall|i: int, r: int|
        0 <= i < n && 0 <= r < levels implies {
            &&& b.replica_nodes_paths@[i]@.len() == levels
            &&& (#[trigger] b.replica_nodes_paths@[i]@[r]).1 is None
            &&& b.replica_nodes_paths@[i]@[r].0@.len() == 1
            &&& b.replica_nodes_paths@[i]@[r].0@[0] is None
            &&& b.data_nodes_paths@[i]@.len() == levels
            &&& b.data_nodes_paths@[i]@[r].1 is None
            &&& b.data_nodes_paths@[i]@[r].0@.len() == 1
            &&& b.data_nodes_paths@[i]@[r].0@[0] is None
        } by {
        assert(blank_path(b.replica_nodes_paths@[i]@, levels, 1));
        assert(blank_path(b.data_nodes_paths@[i]@, levels, 1));
        assert(b.replica_nodes_paths@[i]@[r].0@ == unknowns::<D>(1));
        assert(b.data_nodes_paths@[i]@[r].0@ == unknowns::<D>(1));
    }
}

proof fn lemma_challenges_inputs_index<D, G: Graph>(
    graph: &G,
    challenges: Seq<usize>,
    comm_r: Option<D>,
    comm_d: Option<D>,
    params: por::PublicParams,
    i: int,
    j: int,
)
    requires
        reported_lists_have_degree(graph, challenges),
        all_parents_reported(graph, challenges),
        0 <= i < challenges.len(),
        0 <= j < graph.degree_spec() + 2,
    ensures
        i * (graph.degree_spec() + 2) + j < challenges.len() * (graph.degree_spec() + 2),
        challenges_inputs(graph, challenges, comm_r, comm_d, params)[i * (graph.degree_spec() + 2) + j]
            == challenge_inputs(
            challenges[i],
            crate::compound::reported_parents(graph, challenges[i]),
            comm_r,
            comm_d,
            params,
        )[j],
    decreases challenges.len(),
{
    let m = graph.degree_spec() + 2;
    let n = challenges.len() as int;
    let prefix = challenges.drop_last();
    assert forall|k: int| 0 <= k < prefix.len() implies match #[trigger] graph.parents_spec(prefix[k]) {
        Ok(p) => p.len() == graph.degree_spec(),
        Err(_) => true,
    } by {
        assert(prefix[k] == challenges[k]);
    }
    assert forall|k: int| 0 <= k < prefix.len() implies (#[trigger] graph.parents_spec(prefix[k])) is Ok by {
        assert(prefix[k] == challenges[k]);
    }
    lemma_challenges_inputs_len(graph, prefix, comm_r, comm_d, params);
    let a = challenges_inputs(graph, prefix, comm_r, comm_d, params);
    let b = challenge_inputs(
        challenges.last(),
        crate::compound::reported_parents(graph, challenges.last()),
        comm_r,
        comm_d,
        params,
    );
    assert(a.len() == (n - 1) * m);
    assert(graph.parents_spec(challenges[n - 1]) is Ok);
    assert(b.len() == m);
    assert(i * m + j < n * m) by (nonlinear_arith)
        requires
            0 <= i < n,
            0 <= j < m,
    ;
    if i < n - 1 {
        assert(i * m + j < (n - 1) * m) by (nonlinear_arith)
            requires
                0 <= i < n - 1,
                0 <= j < m,
        ;
        lemma_challenges_inputs_index(graph, prefix, comm_r, comm_d, params, i, j);
        assert(prefix[i] == challenges[i]);
        assert((a + b)[i * m + j] == a[i * m + j]);
    } else {
        assert(i * m == (n - 1) * m);
        assert((a + b)[i * m + j] == b[j]);
    }
}

/// Successfully generated public inputs hold, after the replica id, one run
/// of `degree + 2` entries per challenged node, in the order of the
/// challenges: the node itself (as a 32-bit node index, so the node itself
/// whenever it is below 2^32) against the replica root, each parent the graph
/// reports for it, in order, against the replica root, and the node against
/// the data root; every entry with the parameters (graph size, private).
pub proof fn law_public_inputs_entries<D, G: Graph>(pub_in: &drg::PublicInputs<D>, pub_params: &drg::PublicParams<G>)
    ensures
        match public_inputs_outcome(pub_in, pub_params) {
            Ok(s) => {
                let n = pub_in.challenges@.len();
                let degree = pub_params.graph.degree_spec() as int;
                let m = degree + 2;
                let comm_r = match pub_in.tau {
                    Some(t) => Some(t.comm_r),
                    None => None,
                };
                let comm_d = match pub_in.tau {
                    Some(t) => Some(t.comm_d),
                    None => None,
                };
                let params = por::PublicParams { leaves: pub_params.graph.size_spec(), private: pub_params.private };
                &&& s.len() == 1 + n * m
                &&& pub_in.replica_id matches Some(id) && s[0] == PublicInput::ReplicaId(id)
                &&& forall|i: int|
                    #![trigger pub_in.challenges@[i]]
                    0 <= i < n ==> {
                        let c = pub_in.challenges@[i];
                        &&& pub_params.graph.parents_spec(c) is Ok
                        &&& s[1 + i * m] == PublicInput::Por(
                            por::PublicInputs { commitment: comm_r, challenge: #[verifier::truncate] (c as u32) as usize },
                            params,
                        )
                        &&& c < 0x1_0000_0000 ==> s[1 + i * m] == PublicInput::Por(
                            por::PublicInputs { commitment: comm_r, challenge: c },
                            params,
                        )
                        &&& s[1 + i * m + degree + 1] == PublicInput::Por(
                            por::PublicInputs { commitment: comm_d, challenge: c },
                            params,
                        )
                    }
                &&& forall|i: int, k: int|
                    0 <= i < n && 0 <= k < degree ==> (pub_params.graph.parents_spec(#[trigger] pub_in.challenges@[i])
                        matches Ok(p) && p.len() == degree && #[trigger] s[1 + i * m + 1 + k] == PublicInput::Por(
                        por::PublicInputs { commitment: comm_r, challenge: p[k] as usize },
                        params,
                    ))
            },
            Err(_) => true,
        },
{
    if public_inputs_outcome(pub_in, pub_params) is Err {
        return;
    }
    let graph = &pub_params.graph;
    let ch = pub_in.challenges@;
    let degree = graph.degree_spec() as int;
    let m = degree + 2;
    let (comm_r, comm_d) = commitments(pub_in.tau);
    let params = por_params(pub_params);
    assert forall|i: int| 0 <= i < ch.len() implies match #[trigger] graph.parents_spec(ch[i]) {
        Ok(p) => p.len() == graph.degree_spec(),
        Err(_) => true,
    } by {
        graph.lemma_parents_have_degree(ch[i]);
    }
    lemma_no_failure_iff_all_reported(graph, ch);
    lemma_challenges_inputs_len(graph, ch, comm_r, comm_d, params);
    let id = pub_in.replica_id->Some_0;
    let t = challenges_inputs(graph, ch, comm_r, comm_d, params);
    let s = seq![PublicInput::ReplicaId(id)] + t;
    assert forall|i: int| #![trigger pub_in.challenges@[i]] 0 <= i < ch.len() implies {
        let c = pub_in.challenges@[i];
        &&& pub_params.graph.parents_spec(c) is Ok
        &&& s[1 + i * m] == PublicInput::Por(
            por::PublicInputs { commitment: comm_r, challenge: #[verifier::truncate] (c as u32) as usize },
            params,
        )
        &&& c < 0x1_0000_0000 ==> s[1 + i * m] == PublicInput::Por(
            por::PublicInputs { commitment: comm_r, challenge: c },
            params,
        )
        &&& s[1 + i * m + degree + 1] == PublicInput::Por(por::PublicInputs { commitment: comm_d, challenge: c }, params)
    } by {
        let c = ch[i];
        lemma_challenges_inputs_index(graph, ch, comm_r, comm_d, params, i, 0);
        lemma_challenges_inputs_index(graph, ch, comm_r, comm_d, params, i, degree + 1);
        assert(s[1 + i * m] == t[i * m]);
        assert(s[1 + i * m + degree + 1] == t[i * m + degree + 1]);
        if c < 0x1_0000_0000 {
            assert(#[verifier::truncate] (c as u32) as usize == c) by (bit_vector)
                requires
                    (c as u64) < 0x1_0000_0000u64,
            ;
        }
    }
    assert forall|i: int, k: int| 0 <= i < ch.len() && 0 <= k < degree implies (pub_params.graph.parents_spec(
        #[trigger] pub_in.challenges@[i],
    ) matches Ok(p) && p.len() == degree && #[trigger] s[1 + i * m + 1 + k] == PublicInput::Por(
        por::PublicInputs { commitment: comm_r, challenge: p[k] as usize },
        params,
    )) by {
        lemma_challenges_inputs_index(graph, ch, comm_r, comm_d, params, i, k + 1);
        assert(s[1 + i * m + 1 + k] == t[i * m + (k + 1)]);
    }
}

/// `circuit` accepts only inputs that agree with each other: no more
/// challenged nodes than the parameters allow, as many replica nodes and
/// replica parent lists as data nodes, `tau` given exactly when the
/// commitments are public, and both roots handed over when they are private.
pub proof fn law_circuit_accepts_only_consistent_inputs<D, G>(
    pub_in: &drg::PublicInputs<D>,
    comp: &ComponentPrivateInputs<D>,
    proof: &drg::Proof<D>,
    pub_params: &drg::PublicParams<G>,
)
    requires
        crate::compound::circuit_error(pub_in, comp, proof, pub_params) is None,
    ensures
        proof.nodes@.len() <= pub_params.challenges_count,
        proof.replica_parents@.len() == proof.nodes@.len(),
        proof.replica_nodes@.len() == proof.nodes@.len(),
        (pub_in.tau is Some) == !pub_params.private,
        pub_params.private ==> comp.comm_d is Some && comp.comm_r is Some,
{
}

/// Public inputs without a replica id are refused as such; with one, a `tau`
/// present exactly when the parameters are private (or absent exactly when
/// they are public) is refused as a mismatch.
pub proof fn law_public_inputs_errors<D, G: Graph>(pub_in: &drg::PublicInputs<D>, pub_params: &drg::PublicParams<G>)
    ensures
        pub_in.replica_id is None ==> public_inputs_outcome(pub_in, pub_params) == Err::<Seq<PublicInput<D>>, crate::error::DrgError>(
            crate::error::DrgError::MissingReplicaId,
        ),
        pub_in.replica_id is Some && (pub_in.tau is Some) == pub_params.private ==> public_inputs_outcome(pub_in, pub_params)
            == Err::<Seq<PublicInput<D>>, crate::error::DrgError>(crate::error::DrgError::TauMismatch),
{
}

} // verus!
