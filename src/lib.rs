//! Governance core of an organisational DAO: proposal lifecycle, token-weighted
//! voting with escrow, and a multisig board-action engine.

pub mod address_set;
pub mod board;
pub mod dao;
pub mod escrow;
pub mod laws;
pub mod math;
pub mod multisig;
pub mod proposal;
pub mod queries;
pub mod records;
pub mod school;
pub mod token_weights;
pub mod types;
pub mod voting;
