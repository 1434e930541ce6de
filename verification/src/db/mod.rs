//! The message store: one append-only table of envelopes and one table of
//! per-sender aggregates.
pub mod laws;
pub mod model;
pub mod resolver;
