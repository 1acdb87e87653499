//! A persistent, per-table dictionary that gives compact 24-bit keys to
//! recurring byte values, with a reverse index for deduplication and a
//! block-height epoch marker.

pub mod key;
pub mod codec;
pub mod store;
pub mod table;
pub mod registry;
pub mod memory;
pub mod laws;
pub mod config;
