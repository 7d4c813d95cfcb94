//! Domain entities of the aggregator: transactions, blocks, accounts,
//! transaction indices, and the tagged unions that flow between the
//! pipeline's tasks.

use vstd::prelude::*;
use crate::error::Error;

verus! {

/// A value transfer between two addresses, extracted from a block.
/// Its position within its block is part of its identity.
#[derive(Debug, PartialEq, Default)]
pub struct Transaction {
    pub source: String,
    pub destination: String,
    pub amount: u64,
}

impl Clone for Transaction {
    fn clone(&self) -> (res: Self)
        ensures
            res == *self,
    {
        Transaction {
            source: self.source.clone(),
            destination: self.destination.clone(),
            amount: self.amount,
        }
    }
}

/// A finalized set of transactions at a unique height.
/// Immutable once stored.
#[derive(Debug)]
pub struct Block {
    pub height: u64,
    pub hash: String,
    pub timestamp: i64,
    pub transactions: Vec<Transaction>,
}

impl Clone for Block {
    fn clone(&self) -> (res: Self)
        ensures
            res.height == self.height,
            res.hash == self.hash,
            res.timestamp == self.timestamp,
            res.transactions@ == self.transactions@,
    {
        let transactions = self.transactions.clone();
        proof {
            assert(transactions@ =~= self.transactions@);
        }
        Block {
            height: self.height,
            hash: self.hash.clone(),
            timestamp: self.timestamp,
            transactions,
        }
    }
}

/// The derived state of an address: the running net of all credits and
/// debits observed for it.
#[derive(Debug, PartialEq, Default)]
pub struct Account {
    pub address: String,
    pub balance: i64,
}

impl Clone for Account {
    fn clone(&self) -> (res: Self)
        ensures
            res == *self,
    {
        Account { address: self.address.clone(), balance: self.balance }
    }
}

/// A back-reference from an address to one transaction: the height of the
/// block holding it and its position inside that block.
#[derive(Clone, Copy, Debug, PartialEq, Eq, Structural)]
pub struct TransactionIndex {
    pub block_height: u64,
    pub index: usize,
}

/// What the block streamer yields per pulled slot: a parsed block, the end
/// of the slot queue, or an error to be classified by the aggregator.
#[derive(Debug)]
pub enum StreamerResult {
    Block(Block),
    EOS(),
    Error(Error),
}

/// A request envelope for the storage engine's serialized owner task.
#[derive(Debug)]
pub enum Action {
    AddBlock(Block),
    GetTransactions(String),
    GetAccounts(String),
}

/// The reply produced for one [`Action`], to be sent back on that action's
/// one-shot reply channel.
#[derive(Debug)]
pub enum ActionReply {
    AddBlock(Result<(), Error>),
    GetTransactions(Result<Vec<Transaction>, Error>),
    GetAccounts(Result<Account, Error>),
}

} // verus!
