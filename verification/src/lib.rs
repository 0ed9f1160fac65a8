//! Core of an IBC packet relayer: identifier and header codecs, a
//! height-indexed snapshot cache with bounded retention, a batching
//! dispatcher, and the per-packet relay state machine.
pub mod batch;
pub mod codec;
pub mod error;
pub mod header;
pub mod ids;
pub mod json;
pub mod keys;
pub mod message;
pub mod relay;
pub mod snapshot;
