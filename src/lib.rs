//! The client type of the inter-blockchain communication protocol: a validated
//! identifier naming the consensus algorithm that a light client follows
//! (`07-tendermint`, `06-solomachine`), as it appears inside chain and client
//! identifiers.

pub mod client_type;
pub mod identifier;

pub use client_type::ClientType;
pub use identifier::IdentifierError;
