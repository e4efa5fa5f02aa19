use vstd::prelude::*;

verus! {

/// An inclusion proof in a Merkle tree: for each row from the leaves up, the
/// siblings of the node on the path and the node's index among them.
#[derive(Debug)]
pub struct MerkleProof<D> {
    pub path: Vec<(Vec<D>, usize)>,
}

/// `opts` is the path `path` with every hash and every index made present.
pub open spec fn options_of_path<D>(
    path: Seq<(Vec<D>, usize)>,
    opts: Seq<(Vec<Option<D>>, Option<usize>)>,
) -> bool {
    &&& opts.len() == path.len()
    &&& forall|j: int|
        #![trigger opts[j]]
        0 <= j < path.len() ==> {
            &&& opts[j].0@ == path[j].0@.map_values(|x: D| Some(x))
            &&& opts[j].1 == Some(path[j].1)
        }
}

/// The siblings of one row, each made present.
fn present_all<D: Copy>(xs: &Vec<D>) -> (r: Vec<Option<D>>)
    ensures
        r@ == xs@.map_values(|x: D| Some(x)),
{
    let mut r: Vec<Option<D>> = Vec::new();
    let mut k: usize = 0;
    while k < xs.len()
        invariant
            k <= xs@.len(),
            r@ == xs@.take(k as int).map_values(|x: D| Some(x)),
        decreases xs@.len() - k,
    {
        r.push(Some(xs[k]));
        assert(xs@.take(k as int + 1) =~= xs@.take(k as int).push(xs@[k as int]));
        k = k + 1;
    }
    assert(xs@.take(xs@.len() as int) =~= xs@);
    r
}

impl<D: Copy> MerkleProof<D> {
    /// The path as circuit witnesses: every hash and index present.
    pub fn as_options(&self) -> (r: Vec<(Vec<Option<D>>, Option<usize>)>)
        ensures
            options_of_path(self.path@, r@),
    {
        let mut r: Vec<(Vec<Option<D>>, Option<usize>)> = Vec::new();
        let mut j: usize = 0;
        while j < self.path.len()
            invariant
                j <= self.path@.len(),
                r@.len() == j,
                forall|i: int|
                    #![trigger r@[i]]
                    0 <= i < j ==> {
                        &&& r@[i].0@ == self.path@[i].0@.map_values(|x: D| Some(x))
                        &&& r@[i].1 == Some(self.path@[i].1)
                    },
            decreases self.path@.len() - j,
        {
            let siblings = present_all(&self.path[j].0);
            r.push((siblings, Some(self.path[j].1)));
            j = j + 1;
        }
        r
    }
}

} // verus!
