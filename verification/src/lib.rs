//! Staged Groth16 "prepare inputs" on BN254: a bit-serial multi-scalar
//! multiplication folding seven public-input scalars against eight input
//! commitment points, sliced into checkpointed instructions so that each one
//! fits a bounded compute budget, together with the byte codec for the
//! persistent state slab.

pub mod curve;
pub mod field;
pub mod instructions;
pub mod le_bytes;
pub mod msm;
pub mod state;
