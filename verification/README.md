# intmax_circuits

The public inputs of the rollup's user-transaction (merge-and-purge) and
block-production circuits, verified with Verus.

- `src/field.rs`: Goldilocks elements as `u64`, hashes and addresses.
- `src/target.rs`: circuit targets and hash targets.
- `src/transaction.rs`: the 24 public inputs of a user transaction and their
  targets; witness assignments and connections; round-trip laws.
- `src/block_public_inputs.rs`, `src/block_public_inputs_target.rs`: the
  `5 * N_TXS + 13 * N_DEPOSITS + 28` public inputs of a block and their
  targets, the address list of a block, the entry-hash check; round-trip laws,
  and the law that target encodings read through a witness are the native ones.
- `src/rollup.rs`: the target bundles of the block circuit.
- `src/block_production.rs`, `src/rollup.rs`: the block header, the deposit
  list, the proof-slot flags and the public inputs of the block witness step;
  the wiring of the block circuit's header, deposit and public-input targets.
- `src/chunks.rs`: concatenation of fixed-width chunks.
- `app/`: the plonky2 calls that this crate's functions make (Poseidon hashes,
  circuit builder, witness, proofs). The gadgets, Merkle trees, block-header
  hashing and recursive proofs belong to other modules of the rollup.
