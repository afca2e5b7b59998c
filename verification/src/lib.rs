//! Object-version resolution: batched lookups of on-chain objects against a
//! metadata store and a content store, "latest version" indirection, and
//! liveness-aware resolution.

pub mod content_store;
pub mod error;
pub mod keys;
pub mod loaded;
pub mod metadata_store;
pub mod records;
pub mod resolve;
pub mod snapshot;
