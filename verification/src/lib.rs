//! A speculative pending-block engine for a chain node.
//!
//! A block producer streams partial block fragments ("flashblocks") for the
//! block currently being built.  This crate assembles those fragments into a
//! coherent pending block, derives the account-state overrides produced by
//! the transactions included so far, and keeps that view consistent as the
//! canonical chain advances underneath it.

pub mod assoc;
pub mod canon;
pub mod engine;
pub mod flashblock_builder;
pub mod laws;
pub mod overrides;
pub mod step;
pub mod types;

pub use canon::FlashblocksCanonExtension;
pub use engine::FlashblocksState;
pub use engine::StateProvider;
