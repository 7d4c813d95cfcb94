//! The block streamer: parsing of raw block payloads into domain blocks,
//! classification of fetch failures, and the decision taken for each poll
//! of the slot queue.
//!
//! The ledger client that fetches the payloads is an external collaborator;
//! it hands the functions below plain values: the payload shape mirrors the
//! JSON-parsed encoding the ledger returns, reduced to what the extraction
//! reads.

use vstd::prelude::*;
use crate::error::Error;
use crate::types::{Block, StreamerResult, Transaction};

verus! {

/// The address of the native value-transfer program: the only program
/// whose instructions are extracted as transfers.
pub const SYSTEM_PROGRAM_ID: &'static str = "11111111111111111111111111111111";

/// The RPC response code reporting that the block of a slot is unavailable.
pub const BLOCK_NOT_AVAILABLE: i64 = -32004;

/// The RPC response code reporting that a slot was skipped.
pub const SLOT_SKIPPED: i64 = -32007;

/// A parsed instruction as the ledger's JSON encoding presents it: the
/// program that owns it and, where the payload carries them in the
/// expected shape, the instruction kind and the three fields of a
/// transfer.
#[derive(Debug)]
pub struct ParsedInstruction {
    pub program_id: String,
    pub kind: Option<String>,
    pub source: Option<String>,
    pub destination: Option<String>,
    pub lamports: Option<u64>,
}

/// One instruction of a raw transaction: parsed JSON, or any other
/// encoding, which never yields a transfer.
#[derive(Debug)]
pub enum RawInstruction {
    Parsed(ParsedInstruction),
    Other,
}

/// The message of a raw transaction: fully parsed instructions, or another
/// encoding.
#[derive(Debug)]
pub enum RawMessage {
    Parsed(Vec<RawInstruction>),
    Raw,
}

/// One raw transaction of a fetched block: JSON-encoded with its message,
/// or another encoding.
#[derive(Debug)]
pub enum RawTransaction {
    Json(RawMessage),
    Other,
}

/// A fetched block as the ledger returns it.
#[derive(Debug)]
pub struct RawBlock {
    pub block_height: Option<u64>,
    pub blockhash: String,
    pub block_time: Option<i64>,
    pub transactions: Option<Vec<RawTransaction>>,
}

/// The transfer an instruction encodes, if any: the instruction must be
/// parsed, owned by the native value-transfer program, of kind
/// `transfer`, and carry all three fields; anything else is silently
/// skipped.
pub open spec fn spec_parse_instruction(i: RawInstruction) -> Option<Transaction> {
    match i {
        RawInstruction::Parsed(p) => {
            let kind_ok = match p.kind {
                Some(k) => k@ == "transfer"@,
                None => false,
            };
            if p.program_id@ == SYSTEM_PROGRAM_ID@ && kind_ok {
                match (p.source, p.destination, p.lamports) {
                    (Some(s), Some(d), Some(l)) => Some(
                        Transaction { source: s, destination: d, amount: l },
                    ),
                    _ => None,
                }
            } else {
                None
            }
        },
        RawInstruction::Other => None,
    }
}

/// Extracts the transfer an instruction encodes, if any.
pub fn parse_instruction(instruction: &RawInstruction) -> (r: Option<Transaction>)
    ensures
        r == spec_parse_instruction(*instruction),
{
    match instruction {
        RawInstruction::Parsed(p) => {
            let pid = SYSTEM_PROGRAM_ID.to_owned();
            if !(p.program_id == pid) {
                return None;
            }
            let kind_ok = match &p.kind {
                Some(k) => {
                    let transfer = "transfer".to_owned();
                    *k == transfer
                },
                None => false,
            };
            if !kind_ok {
                return None;
            }
            match (&p.source, &p.destination, &p.lamports) {
                (Some(s), Some(d), Some(l)) => Some(
                    Transaction { source: s.clone(), destination: d.clone(), amount: *l },
                ),
                _ => None,
            }
        },
        RawInstruction::Other => None,
    }
}

/// The transfers of a list of instructions, in order.
pub open spec fn spec_parse_instructions(instrs: Seq<RawInstruction>) -> Seq<Transaction>
    decreases instrs.len(),
{
    if instrs.len() == 0 {
        Seq::empty()
    } else {
        let front = spec_parse_instructions(instrs.drop_last());
        match spec_parse_instruction(instrs.last()) {
            Some(t) => front.push(t),
            None => front,
        }
    }
}

/// Whether a raw transaction is in the one encoding the extraction reads:
/// JSON with a fully parsed message.
pub open spec fn transaction_parsable(t: RawTransaction) -> bool {
    match t {
        RawTransaction::Json(RawMessage::Parsed(_)) => true,
        _ => false,
    }
}

/// The instructions of a parsable raw transaction.
pub open spec fn transaction_instructions(t: RawTransaction) -> Seq<RawInstruction> {
    match t {
        RawTransaction::Json(RawMessage::Parsed(instrs)) => instrs@,
        _ => Seq::empty(),
    }
}

/// Extracts the transfers of one raw transaction: `None` for any encoding
/// other than a JSON transaction with a parsed message, else the transfers
/// of its instructions in order (possibly none).
pub fn parse_transaction(transaction: RawTransaction) -> (r: Option<Vec<Transaction>>)
    ensures
        (match r {
            Some(txs) => transaction_parsable(transaction) && txs@ == spec_parse_instructions(
                transaction_instructions(transaction),
            ),
            None => !transaction_parsable(transaction),
        }),
{
    let instructions = match transaction {
        RawTransaction::Json(RawMessage::Parsed(instructions)) => instructions,
        RawTransaction::Json(RawMessage::Raw) => {
            return None;
        },
        RawTransaction::Other => {
            return None;
        },
    };
    let n = instructions.len();
    let mut txs: Vec<Transaction> = Vec::new();
    let mut i: usize = 0;
    while i < n
        invariant
            n == instructions@.len(),
            i <= n,
            txs@ == spec_parse_instructions(instructions@.take(i as int)),
        decreases n - i,
    {
        proof {
            assert(instructions@.take(i + 1 as int).drop_last() =~= instructions@.take(i as int));
            assert(instructions@.take(i + 1 as int).last() == instructions@[i as int]);
        }
        match parse_instruction(&instructions[i]) {
            Some(t) => txs.push(t),
            None => {},
        }
        i = i + 1;
    }
    proof {
        assert(instructions@.take(n as int) =~= instructions@);
    }
    Some(txs)
}

/// The transactions extracted from a block's raw payload: the transfers of
/// each parsable transaction, in order; transactions in other encodings
/// contribute nothing.
pub open spec fn spec_block_transactions(ts: Seq<RawTransaction>) -> Seq<Transaction>
    decreases ts.len(),
{
    if ts.len() == 0 {
        Seq::empty()
    } else {
        let front = spec_block_transactions(ts.drop_last());
        if transaction_parsable(ts.last()) {
            front + spec_parse_instructions(transaction_instructions(ts.last()))
        } else {
            front
        }
    }
}

/// How a domain block relates to the raw payload it was parsed from.
pub open spec fn parsed_block_matches(raw: RawBlock, b: Block) -> bool {
    &&& b.height == raw.block_height->0
    &&& b.hash == raw.blockhash
    &&& b.timestamp == raw.block_time->0
    &&& b.transactions@ == (match raw.transactions {
        Some(ts) => spec_block_transactions(ts@),
        None => Seq::<Transaction>::empty(),
    })
}

/// Parses a fetched payload into a domain block.  A finalized block's
/// payload carries its height and production time; payloads without them
/// are not accepted here.
pub fn block_from_raw(block: RawBlock) -> (r: Block)
    requires
        block.block_height is Some,
        block.block_time is Some,
    ensures
        parsed_block_matches(block, r),
{
    let RawBlock { block_height, blockhash, block_time, transactions } = block;
    let height = match block_height {
        Some(h) => h,
        None => {
            proof {
                assert(false);
            }
            0
        },
    };
    let timestamp = match block_time {
        Some(t) => t,
        None => {
            proof {
                assert(false);
            }
            0
        },
    };
    let mut txs: Vec<Transaction> = Vec::new();
    match transactions {
        Some(mut raw_txs) => {
            let ghost all = raw_txs@;
            let ghost total = raw_txs@.len() as int;
            proof {
                assert(all.skip(0) =~= all);
                assert(all.take(0) =~= Seq::<RawTransaction>::empty());
            }
            while raw_txs.len() > 0
                invariant
                    total == all.len(),
                    raw_txs@ == all.skip(total - raw_txs@.len() as int),
                    raw_txs@.len() <= total,
                    txs@ == spec_block_transactions(all.take(total - raw_txs@.len() as int)),
                decreases raw_txs@.len(),
            {
                let ghost done = total - raw_txs@.len() as int;
                let t = raw_txs.remove(0);
                proof {
                    assert(t == all[done]);
                    assert(raw_txs@ =~= all.skip(done + 1));
                    assert(all.take(done + 1).drop_last() =~= all.take(done));
                    assert(all.take(done + 1).last() == all[done]);
                }
                match parse_transaction(t) {
                    Some(mut parsed) => {
                        txs.append(&mut parsed);
                    },
                    None => {},
                }
            }
            proof {
                assert(all.take(total) =~= all);
            }
        },
        None => {},
    }
    Block { height, hash: blockhash, timestamp, transactions: txs }
}

/// Classifies one fetch failure by the RPC response code it carried: the
/// two expected per-slot conditions are told apart from every other
/// failure, which is fatal.
pub open spec fn spec_classify_fetch_error(slot: u64, code: Option<i64>, message: String) -> Error {
    match code {
        Some(c) => if c == BLOCK_NOT_AVAILABLE {
            Error::SlotMissing(slot)
        } else if c == SLOT_SKIPPED {
            Error::SlotSkipped(slot)
        } else {
            Error::RpcError(message)
        },
        None => Error::RpcError(message),
    }
}

/// Classifies one fetch failure: a slot whose block is unavailable or that
/// was skipped is an expected condition carrying the slot number; any
/// other failure is a fatal RPC error carrying its description.
pub fn classify_fetch_error(slot: u64, code: Option<i64>, message: String) -> (r: Error)
    ensures
        r == spec_classify_fetch_error(slot, code, message),
{
    match code {
        Some(c) => {
            if c == BLOCK_NOT_AVAILABLE {
                Error::SlotMissing(slot)
            } else if c == SLOT_SKIPPED {
                Error::SlotSkipped(slot)
            } else {
                Error::RpcError(message)
            }
        },
        None => Error::RpcError(message),
    }
}

/// What the streamer observes when it asks for the next slot.
#[derive(Clone, Copy, Debug)]
pub enum SlotPoll {
    /// The cancellation signal tripped first.
    Cancelled,
    /// The slot queue is closed: no producer remains.
    Closed,
    /// The next slot number to fetch.
    Slot(u64),
}

/// What the streamer must do for one poll of the slot queue.
#[derive(Debug)]
pub enum StreamerStep {
    /// Yield this result without fetching.
    Yield(StreamerResult),
    /// Fetch the block of this slot and yield what [`resolve_fetch`] says
    /// of the outcome.
    Fetch(u64),
}

/// The streamer's decision for one poll: cancellation yields Termination,
/// a closed queue yields end-of-stream, and a slot number is fetched.
pub fn streamer_decide(poll: SlotPoll) -> (r: StreamerStep)
    ensures
        (match poll {
            SlotPoll::Cancelled => r == StreamerStep::Yield(
                StreamerResult::Error(Error::Termination),
            ),
            SlotPoll::Closed => r == StreamerStep::Yield(StreamerResult::EOS()),
            SlotPoll::Slot(s) => r == StreamerStep::Fetch(s),
        }),
{
    match poll {
        SlotPoll::Cancelled => StreamerStep::Yield(StreamerResult::Error(Error::Termination)),
        SlotPoll::Closed => StreamerStep::Yield(StreamerResult::EOS()),
        SlotPoll::Slot(s) => StreamerStep::Fetch(s),
    }
}

/// The failure of one block fetch, as plain values: the RPC response code,
/// if the failure carried one, and its description.
#[derive(Debug)]
pub struct FetchFailure {
    pub code: Option<i64>,
    pub message: String,
}

/// Turns the outcome of one block fetch into the streamer's result: a
/// parsed block on success, the classified error otherwise.
pub fn resolve_fetch(slot: u64, outcome: Result<RawBlock, FetchFailure>) -> (r: StreamerResult)
    requires
        (match outcome {
            Ok(b) => b.block_height is Some && b.block_time is Some,
            Err(_) => true,
        }),
    ensures
        (match outcome {
            Ok(raw) => (match r {
                StreamerResult::Block(b) => parsed_block_matches(raw, b),
                _ => false,
            }),
            Err(f) => r == StreamerResult::Error(
                spec_classify_fetch_error(slot, f.code, f.message),
            ),
        }),
{
    match outcome {
        Ok(raw) => StreamerResult::Block(block_from_raw(raw)),
        Err(f) => StreamerResult::Error(classify_fetch_error(slot, f.code, f.message)),
    }
}

} // verus!
