//! Authoritative simulation core of a multiplayer world server.
//!
//! Every decision that the server takes during a tick is a function of this
//! crate from plain values to plain values: which protocol transitions are
//! legal, which connections are dropped, which chunks are generated and
//! evicted, who is hit by a swing, and who is told about whom.

pub mod chat;
pub mod combat;
pub mod entity;
pub mod grid;
pub mod interest;
pub mod physics;
pub mod select;
pub mod server;
pub mod session;
pub mod stats;
pub mod streaming;
pub mod tick;
