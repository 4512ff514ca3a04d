//! Reorg-aware block cache for an EVM chain follower.
//!
//! The cache remembers the blocks it has seen, notices when a new block does
//! not extend the cached tip, walks back to the newest block that the node
//! and the cache still agree on, drops everything above it, and refills the
//! cache from there while collecting the logs of the refilled range.
//!
//! Talking to the node is left to the caller: the cache hands out
//! [`cache::Request`]s and is resumed with the matching [`cache::Reply`].
pub mod block;
pub mod types;
pub mod cache;
pub mod laws;
pub mod provider;
pub mod chain;
pub mod text;
pub mod artifact;
