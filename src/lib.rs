//! Persistence core of a keyed blob store: an append-only store of byte blobs,
//! snapshots of it framed into a paged durable region, raw chunked copying of
//! that region, and a report of memory usage by tier.
pub mod durable;
pub mod error;
pub mod header;
pub mod snapshot;
pub mod store;
pub mod stream;
