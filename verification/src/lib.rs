//! Public-input layouts of the rollup's block-production and user-transaction
//! circuits over the Goldilocks field: how the public inputs and their targets
//! are written as field elements and read back, which witness values and which
//! copy constraints they give rise to, and how a block proof's entry hash is
//! checked.

pub mod block_production;
pub mod block_public_inputs;
pub mod block_public_inputs_target;
pub mod chunks;
pub mod field;
pub mod rollup;
pub mod target;
pub mod transaction;
