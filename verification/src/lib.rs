//! Client-side core for a Cosmos-style replicated ledger: key custody,
//! transaction construction, state-proof checking and quorum reads.

pub mod alias_map;
pub mod bytes;
pub mod client;
pub mod coin;
pub mod commands;
pub mod crypto;
pub mod error;
pub mod keys;
pub mod locator;
pub mod messages;
pub mod pool;
pub mod quorum;
pub mod scheduler;
pub mod state_proof;
pub mod text;
pub mod tx;
pub mod wire;
