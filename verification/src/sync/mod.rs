//! Filling the mapping from Ethereum hashes to chain blocks.

pub mod block_laws;
pub mod chain_laws;
pub mod commit;
pub mod fetch;
pub mod genesis;
pub mod queries;
pub mod round;
pub mod round_laws;
pub mod round_order;
pub mod rounds;
pub mod rounds_laws;
pub mod turn_laws;
