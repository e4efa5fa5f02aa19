use vstd::prelude::*;

use crate::error::GraphError;

verus! {

/// A depth-robust graph over the nodes of a sector, as the proof reads it:
/// its size, the number of parents of each node, the parents of a node, and
/// the depth of the binary Merkle tree built over its nodes.
pub trait Graph {
    /// Number of nodes.
    spec fn size_spec(&self) -> usize;

    /// Number of parents of every node.
    spec fn degree_spec(&self) -> usize;

    /// The parents of `node`, or why the graph cannot give them.
    spec fn parents_spec(&self, node: usize) -> Result<Seq<u32>, GraphError>;

    /// Number of rows of the binary Merkle tree over the nodes.
    spec fn merkle_tree_depth_spec(&self) -> u64;

    /// Every parent list the graph reports has one entry per parent slot.
    proof fn lemma_parents_have_degree(&self, node: usize)
        ensures
            self.parents_spec(node) matches Ok(p) ==> p.len() == self.degree_spec(),
    ;

    fn size(&self) -> (r: usize)
        ensures
            r == self.size_spec(),
    ;

    fn degree(&self) -> (r: usize)
        ensures
            r == self.degree_spec(),
    ;

    /// Writes the parents of `node` into `parents`, which holds one slot per parent.
    fn parents(&self, node: usize, parents: &mut Vec<u32>) -> (r: Result<(), GraphError>)
        requires
            old(parents).len() == self.degree_spec(),
        ensures
            final(parents).len() == old(parents).len(),
            match r {
                Ok(_) => self.parents_spec(node) == Ok::<Seq<u32>, GraphError>(final(parents)@),
                Err(e) => self.parents_spec(node) == Err::<Seq<u32>, GraphError>(e),
            },
    ;

    fn merkle_tree_depth(&self) -> (r: u64)
        ensures
            r == self.merkle_tree_depth_spec(),
    ;
}

/// Number of rows of a binary Merkle tree with `leaves` leaves: the leaf row
/// and every row above it up to the root.
pub open spec fn binary_tree_rows(leaves: nat) -> nat
    decreases leaves,
{
    if leaves == 0 {
        0
    } else if leaves == 1 {
        1
    } else {
        1 + binary_tree_rows((leaves - leaves / 2) as nat)
    }
}

proof fn lemma_binary_tree_rows_bounded(leaves: nat)
    ensures
        binary_tree_rows(leaves) <= leaves,
    decreases leaves,
{
    if leaves > 1 {
        lemma_binary_tree_rows_bounded((leaves - leaves / 2) as nat);
    }
}

/// A graph given by the parent list of each of its nodes.
#[derive(Debug)]
pub struct ExplicitGraph {
    degree: usize,
    parents: Vec<Vec<u32>>,
}

impl ExplicitGraph {
    #[verifier::type_invariant]
    spec fn well_formed(self) -> bool {
        forall|i: int| 0 <= i < self.parents@.len() ==> #[trigger] self.parents@[i]@.len() == self.degree
    }

    /// The graph whose node `i` has the parents `parents[i]`; `None` where a
    /// list does not hold exactly `degree` parents.
    pub fn new(degree: usize, parents: Vec<Vec<u32>>) -> (r: Option<Self>)
        ensures
            r is Some <==> forall|i: int| 0 <= i < parents@.len() ==> #[trigger] parents@[i]@.len() == degree,
            r matches Some(g) ==> {
                &&& g.size_spec() == parents@.len()
                &&& g.degree_spec() == degree
                &&& g.merkle_tree_depth_spec() == binary_tree_rows(parents@.len()) as u64
                &&& forall|i: int| 0 <= i < parents@.len() ==> g.parents_spec(i as usize) == Ok::<Seq<u32>, GraphError>(#[trigger] parents@[i]@)
            },
    {
        let n = parents.len();
        let mut i: usize = 0;
        while i < n
            invariant
                n == parents@.len(),
                i <= n,
                forall|j: int| 0 <= j < i ==> #[trigger] parents@[j]@.len() == degree,
            decreases n - i,
        {
            if parents[i].len() != degree {
                return None;
            }
            i = i + 1;
        }
        let g = ExplicitGraph { degree, parents };
        assert forall|i: int| 0 <= i < g.parents@.len() implies g.parents_spec(i as usize) == Ok::<Seq<u32>, GraphError>(#[trigger] g.parents@[i]@) by {
            assert(Seq::new(g.degree as nat, |k: int| g.parents@[i]@[k]) =~= g.parents@[i]@);
        }
        Some(g)
    }
}

impl Graph for ExplicitGraph {
    closed spec fn size_spec(&self) -> usize {
        self.parents@.len() as usize
    }

    closed spec fn degree_spec(&self) -> usize {
        self.degree
    }

    closed spec fn parents_spec(&self, node: usize) -> Result<Seq<u32>, GraphError> {
        if node < self.parents@.len() {
            Ok(Seq::new(self.degree as nat, |k: int| self.parents@[node as int]@[k]))
        } else {
            Err(GraphError::NodeOutOfRange { node, size: self.parents@.len() as usize })
        }
    }

    closed spec fn merkle_tree_depth_spec(&self) -> u64 {
        binary_tree_rows(self.parents@.len()) as u64
    }

    proof fn lemma_parents_have_degree(&self, node: usize) {
    }

    fn size(&self) -> (r: usize) {
        self.parents.len()
    }

    fn degree(&self) -> (r: usize) {
        self.degree
    }

    fn parents(&self, node: usize, parents: &mut Vec<u32>) -> (r: Result<(), GraphError>) {
        proof {
            use_type_invariant(self);
        }
        if node >= self.parents.len() {
            return Err(GraphError::NodeOutOfRange { node, size: self.parents.len() });
        }
        let row = &self.parents[node];
        let mut i: usize = 0;
        while i < self.degree
            invariant
                row@.len() == self.degree,
                parents@.len() == self.degree,
                i <= self.degree,
                forall|j: int| 0 <= j < i ==> parents@[j] == row@[j],
            decreases self.degree - i,
        {
            parents.set(i, row[i]);
            i = i + 1;
        }
        assert(parents@ =~= Seq::new(self.degree as nat, |k: int| self.parents@[node as int]@[k]));
        Ok(())
    }

    fn merkle_tree_depth(&self) -> (r: u64) {
        let n = self.parents.len();
        if n == 0 {
            return 0;
        }
        let mut width: usize = n;
        let mut rows: u64 = 1;
        proof {
            lemma_binary_tree_rows_bounded(n as nat);
        }
        while width > 1
            invariant
                1 <= width <= n,
                n == self.parents@.len(),
                rows + binary_tree_rows(width as nat) == binary_tree_rows(n as nat) + 1,
                binary_tree_rows(n as nat) <= n,
                n <= u64::MAX,
            decreases width,
        {
            proof {
                lemma_binary_tree_rows_bounded(width as nat);
            }
            let next = width - width / 2;
            assert(binary_tree_rows(width as nat) == 1 + binary_tree_rows(next as nat));
            assert(binary_tree_rows(next as nat) >= 1);
            width = next;
            rows = rows + 1;
        }
        rows
    }
}

} // verus!
