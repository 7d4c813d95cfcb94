//! A verified core for a ledger data aggregator.
//!
//! The library holds the logic of an ingestion pipeline for a distributed
//! ledger: blocks of transfer transactions arrive slot by slot, are parsed,
//! and are applied to an indexed store of blocks, per-address transaction
//! indices and per-address balances.  The store's operations, the parsing of
//! raw block payloads, and the control policies of the pipeline's tasks
//! (slot monitor, block streamer, aggregator) are all verified; the
//! surrounding I/O (RPC subscriptions, block fetches, channels, persistence)
//! lives outside the library and drives these functions with plain values.

pub mod aggregator;
pub mod api;
pub mod balance;
pub mod blocks;
pub mod error;
pub mod index;
pub mod monitor;
pub mod storage;
pub mod streamer;
pub mod types;
