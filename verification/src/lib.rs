//! Bootstrap of a two-chain bridge: deploy a bridge contract on each of two
//! networks, wait for both deployments to reach their confirmation depth, and
//! record the resulting checkpoint durably exactly once.
//!
//! The crate holds the verified core: the deployment record and its on-disk
//! format, the orchestrator logic that combines the two networks' receipts,
//! the bootstrap controller that guarantees idempotence, and the configuration
//! model with its defaulting conversion. Network and file I/O live outside.

pub mod address;
pub mod bootstrap;
pub mod config;
pub mod database;
pub mod dec;
pub mod deploy;
pub mod error;
pub mod hex;
pub mod load;
pub mod u256;
