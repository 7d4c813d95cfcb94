//! The error taxonomy of the pipeline.
//!
//! Transient fetch conditions (`SlotSkipped`, `SlotMissing`) are absorbed by
//! the aggregator; everything else is fatal on the write path.  Storage
//! constraint violations and read failures carry their own kind.

use vstd::prelude::*;

verus! {

/// A failure of the storage engine: a constraint violation on the write
/// path, or a miss on a read path.
#[derive(Debug, PartialEq)]
pub enum StorageError {
    /// A block with this height is already stored; the duplicate is
    /// rejected without touching the store.
    AlreadyExists(u64),
    /// Applying the block would push some balance outside the range of the
    /// signed accumulator; the block is rejected without touching the store.
    BalanceOutOfRange(u64),
    /// No transactions are indexed for this address.
    NoTransactions(String),
    /// No balance is recorded for this address.
    AccountNotFound(String),
    /// A transaction index refers to a block that is not stored: a
    /// data-corruption signal.
    MissingBlock(u64),
    /// The backing store of an embedding failed to commit; fatal on the
    /// write path.
    Backend(String),
}

impl Clone for StorageError {
    fn clone(&self) -> (res: Self)
        ensures
            res == *self,
    {
        match self {
            StorageError::AlreadyExists(h) => StorageError::AlreadyExists(*h),
            StorageError::BalanceOutOfRange(h) => StorageError::BalanceOutOfRange(*h),
            StorageError::NoTransactions(a) => StorageError::NoTransactions(a.clone()),
            StorageError::AccountNotFound(a) => StorageError::AccountNotFound(a.clone()),
            StorageError::MissingBlock(h) => StorageError::MissingBlock(*h),
            StorageError::Backend(m) => StorageError::Backend(m.clone()),
        }
    }
}

/// An error surfaced by one of the pipeline's tasks.
#[derive(Debug, PartialEq)]
pub enum Error {
    /// An unexpected ledger RPC failure: fatal, propagated.
    RpcError(String),
    /// The subscription handshake or connection failed: fatal at startup.
    PubSubError(String),
    /// The slot produced no block: expected, absorbed.
    SlotSkipped(u64),
    /// The block for the slot is unavailable or pruned: expected, absorbed.
    SlotMissing(u64),
    /// A counterpart task exited and its channel is gone: fatal.
    ChannelFailed(String, String),
    /// Cooperative shutdown: a normal exit path, not a failure.
    Termination,
    /// A storage engine failure.
    StorageError(StorageError),
}

impl Clone for Error {
    fn clone(&self) -> (res: Self)
        ensures
            res == *self,
    {
        match self {
            Error::RpcError(m) => Error::RpcError(m.clone()),
            Error::PubSubError(m) => Error::PubSubError(m.clone()),
            Error::SlotSkipped(s) => Error::SlotSkipped(*s),
            Error::SlotMissing(s) => Error::SlotMissing(*s),
            Error::ChannelFailed(src, m) => Error::ChannelFailed(src.clone(), m.clone()),
            Error::Termination => Error::Termination,
            Error::StorageError(e) => Error::StorageError(e.clone()),
        }
    }
}

/// Whether an error is an expected per-slot condition that the aggregator
/// absorbs and continues over.
pub open spec fn spec_is_transient(e: Error) -> bool {
    e is SlotSkipped || e is SlotMissing
}

impl Error {
    /// Expected per-slot conditions never escape the streamer/aggregator
    /// boundary; all other errors terminate the pipeline.
    pub fn is_transient(&self) -> (r: bool)
        ensures
            r == spec_is_transient(*self),
    {
        match self {
            Error::SlotSkipped(_) => true,
            Error::SlotMissing(_) => true,
            _ => false,
        }
    }
}

} // verus!
