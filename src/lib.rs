//! Peer-to-peer artifact node: a content-addressed artifact store with a
//! space budget, the decision logic of the overlay engine that owns the
//! network state, the reply decoding of its client handle, the retrieval
//! cascade that falls back from local storage to one peer to the origin
//! registry, and the smaller pieces around them: key pairs and JSON paths
//! for signed documents, the command-line settings, and the recipe book
//! shared over the broadcast channel.

pub mod bytes_seq;
pub mod cascade;
pub mod client;
pub mod config;
pub mod error;
pub mod hash;
pub mod overlay;
pub mod recipes;
pub mod signed;
pub mod store;
