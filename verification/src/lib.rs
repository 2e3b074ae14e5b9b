//! Core of a cross-chain interoperability protocol: a consensus-client
//! interface with staleness and height-chaining rules, canonical message
//! encoding with commitment hashing, and a receipt store that aggregates
//! settled messages into claim proofs.

pub mod codec;
pub mod consensus_client;
pub mod error;
pub mod host;
pub mod messaging;
pub mod payment;
pub mod router;
pub mod util;
