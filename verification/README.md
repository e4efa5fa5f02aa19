# drg_porep

The compound (circuit) side of the DRG-based proof of replication, written in
Verus over plain values:

- `compound`: `DrgPoRepCompound` with `cache_prefix`, `generate_public_inputs`
  (the ordered public inputs: replica id, then per challenge the openings of
  the node and its parents in the replica and of the node in the data),
  `circuit` (the circuit assignment of a vanilla proof, with its checks) and
  `blank_circuit` (the all-unknown circuit shaped by the parameters).
- `drg`, `por`, `merkle`: the proof, input and parameter types they read.
- `graph`: the `Graph` trait the proof reads parents through, and
  `ExplicitGraph`, a graph given by its parent lists.
- `circuit`: the circuit assignment and the roots it receives.
- `laws`: properties across these functions, proved.

Domain elements (hashes, field elements) are a type parameter `D`.

`generate_public_inputs` returns the ordered list of openings, each as the
inputs and parameters of one proof of retrievability. It does not expand an
opening into that proof's field elements, and so returns no error that this
expansion may raise (for instance for a challenge outside the tree); that step
is left to the code that uses this library.
