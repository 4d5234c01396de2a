//! Intent lifecycle engine: declarative intents are validated, planned into
//! step graphs under budget constraints, executed with a tamper-evident event
//! trace, and recorded as artifacts carrying a Merkle root over that trace.
//! A temporal state store with monotonic versioning and copy-on-write forks,
//! and a round-limited negotiation session, complete the core.

pub mod api;
pub mod artifact;
pub mod clock;
pub mod encoding;
pub mod engine;
pub mod errors;
pub mod hashing;
pub mod ids;
pub mod intent;
pub mod negotiate;
pub mod plan;
pub mod planner;
pub mod store;
pub mod subscription;
pub mod temporal;
pub mod text;
pub mod types;
