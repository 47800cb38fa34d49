//! Event synchronization and fan-out dispatch for the W3B2 bridge.
//!
//! The ledger emits typed events; this library merges a historical catch-up
//! reader with a live feed into one ordered, duplicate-free stream, keeps the
//! durable cursor consistent with what was published, and routes each event to
//! the listeners registered for the identity keys it touches.

pub mod pubkey;
pub mod events;
pub mod dispatcher;
pub mod config;
pub mod storage;
pub mod synchronizer;
pub mod listener;
pub mod program;
pub mod wire;
