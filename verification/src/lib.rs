//! An indexing engine for event logs of EVM-compatible chains.
//!
//! The library holds the rules of the engine: the identity of a filter, the
//! block range of each tick, the bookkeeping of the checkpoint and the order of
//! the steps of a tick. Talking to the chain and to the database is left to the
//! program around it, which performs the actions that the engine asks for and
//! hands back what happened.
pub mod builder;
pub mod filter;
pub mod fingerprint;
pub mod indexer;
pub mod keys;
pub mod range;
pub mod storage;

pub use builder::IndexerBuilder;
pub use filter::Filter;
pub use fingerprint::filter_id;
pub use indexer::Indexer;
