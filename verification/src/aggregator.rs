//! The aggregator: drives the streamer's results into the storage engine.
//!
//! Per result: a block is forwarded to the store, and a storage failure is
//! fatal and propagates; an expected per-slot condition (skipped or missing
//! slot) is absorbed and the loop continues, paced by the next slot
//! notification; any other error terminates the loop; end-of-stream is
//! quiescence, not an error.  The cancellation signal reaches the loop as a
//! Termination error yielded by the streamer.

use vstd::prelude::*;
use crate::blocks::block_data;
use crate::error::{Error, spec_is_transient};
use crate::storage::{Database, add_ok, add_result, txs_applied, txs_indexed};
use crate::types::{Block, StreamerResult, TransactionIndex, Transaction};

verus! {

/// The outcome and the store models after the aggregator consumes a
/// sequence of streamer results: `None` with the final models when every
/// result was consumed, or the first fatal error with the models at that
/// point, nothing further consumed.
pub open spec fn aggregate_model(
    blocks: Map<u64, (Seq<char>, i64, Seq<Transaction>)>,
    balances: Map<Seq<char>, int>,
    index: Map<Seq<char>, Seq<TransactionIndex>>,
    events: Seq<StreamerResult>,
) -> (Option<Error>, (Map<u64, (Seq<char>, i64, Seq<Transaction>)>, Map<Seq<char>, int>, Map<
    Seq<char>,
    Seq<TransactionIndex>,
>))
    decreases events.len(),
{
    if events.len() == 0 {
        (None, (blocks, balances, index))
    } else {
        match events[0] {
            StreamerResult::Block(b) => {
                match add_result(blocks, balances, b) {
                    Ok(_) => aggregate_model(
                        blocks.insert(b.height, block_data(b)),
                        txs_applied(balances, b.transactions@, b.transactions@.len() as int),
                        txs_indexed(index, b.height, b.transactions@, b.transactions@.len() as int),
                        events.drop_first(),
                    ),
                    Err(e) => (Some(e), (blocks, balances, index)),
                }
            },
            StreamerResult::EOS() => aggregate_model(blocks, balances, index, events.drop_first()),
            StreamerResult::Error(e) => if spec_is_transient(e) {
                aggregate_model(blocks, balances, index, events.drop_first())
            } else {
                (Some(e), (blocks, balances, index))
            },
        }
    }
}

/// What the aggregator must do with one streamer result.
#[derive(Debug)]
pub enum AggregatorStep {
    /// Forward this block to the storage engine; how its outcome is taken
    /// is [`aggregator_store_result`]'s decision.
    Store(Block),
    /// An expected per-slot condition or quiescence: keep looping.
    Continue,
    /// Terminate the loop with this error.
    Stop(Error),
}

/// The aggregator's decision for one streamer result: a block is forwarded
/// to the store; an expected per-slot condition is absorbed, the next slot
/// notification pacing the next attempt; end-of-stream is quiescence; any
/// other error terminates the loop.
pub fn aggregator_decide(event: StreamerResult) -> (r: AggregatorStep)
    ensures
        (match event {
            StreamerResult::Block(b) => r == AggregatorStep::Store(b),
            StreamerResult::EOS() => r == AggregatorStep::Continue,
            StreamerResult::Error(e) => if spec_is_transient(e) {
                r == AggregatorStep::Continue
            } else {
                r == AggregatorStep::Stop(e)
            },
        }),
{
    match event {
        StreamerResult::Block(b) => AggregatorStep::Store(b),
        StreamerResult::EOS() => AggregatorStep::Continue,
        StreamerResult::Error(e) => {
            if e.is_transient() {
                AggregatorStep::Continue
            } else {
                AggregatorStep::Stop(e)
            }
        },
    }
}

/// The aggregator's decision on a forwarded block's outcome: a storage
/// failure is fatal and propagates, not retried.
pub fn aggregator_store_result(outcome: Result<(), Error>) -> (r: AggregatorStep)
    ensures
        (match outcome {
            Ok(_) => r == AggregatorStep::Continue,
            Err(e) => r == AggregatorStep::Stop(e),
        }),
{
    match outcome {
        Ok(_) => AggregatorStep::Continue,
        Err(e) => AggregatorStep::Stop(e),
    }
}

/// Drives the aggregator's loop over a sequence of streamer results,
/// taking [`aggregator_decide`]'s decision for each one.  A result of
/// `None` means every event was consumed and the loop would keep waiting
/// for the next one.
pub fn run_aggregator(store: &mut Database, events: Vec<StreamerResult>) -> (r: Option<Error>)
    requires
        old(store).wf(),
    ensures
        final(store).wf(),
        ({
            let out = aggregate_model(
                old(store).blocks_model(),
                old(store).balances_model(),
                old(store).index_model(),
                events@,
            );
            &&& r == out.0
            &&& (
                final(store).blocks_model(),
                final(store).balances_model(),
                final(store).index_model(),
            ) == out.1
        }),
{
    let ghost all = events@;
    let ghost whole = aggregate_model(
        old(store).blocks_model(),
        old(store).balances_model(),
        old(store).index_model(),
        all,
    );
    let mut queue = events;
    let ghost mut done: int = 0;
    proof {
        assert(all.skip(0) =~= all);
    }
    while queue.len() > 0
        invariant
            store.wf(),
            all == events@,
            0 <= done <= all.len(),
            queue@ == all.skip(done),
            whole == aggregate_model(
                old(store).blocks_model(),
                old(store).balances_model(),
                old(store).index_model(),
                all,
            ),
            whole == aggregate_model(
                store.blocks_model(),
                store.balances_model(),
                store.index_model(),
                all.skip(done),
            ),
        decreases queue@.len(),
    {
        proof {
            assert(all.skip(done)[0] == all[done]);
            assert(all.skip(done).drop_first() =~= all.skip(done + 1));
        }
        let event = queue.remove(0);
        proof {
            assert(event == all[done]);
            assert(queue@ =~= all.skip(done + 1));
        }
        match aggregator_decide(event) {
            AggregatorStep::Store(b) => {
                proof {
                    assert(all[done] == StreamerResult::Block(b));
                }
                match aggregator_store_result(store.add_block(&b)) {
                    AggregatorStep::Stop(e) => {
                        proof {
                            assert(add_result(
                                store.blocks_model(),
                                store.balances_model(),
                                b,
                            ) == Err::<(), Error>(e));
                        }
                        return Some(e);
                    },
                    _ => {},
                }
            },
            AggregatorStep::Continue => {},
            AggregatorStep::Stop(e) => {
                proof {
                    assert(all[done] == StreamerResult::Error(e) && !spec_is_transient(e));
                }
                return Some(e);
            },
        }
        proof {
            done = done + 1;
        }
    }
    None
}

/// Transient continuation: an expected per-slot failure at the head of the
/// stream is absorbed, and the run goes on exactly as if it had not been
/// there.
pub proof fn lemma_transient_continuation(
    blocks: Map<u64, (Seq<char>, i64, Seq<Transaction>)>,
    balances: Map<Seq<char>, int>,
    index: Map<Seq<char>, Seq<TransactionIndex>>,
    e: Error,
    rest: Seq<StreamerResult>,
)
    requires
        spec_is_transient(e),
    ensures
        aggregate_model(blocks, balances, index, seq![StreamerResult::Error(e)] + rest)
            == aggregate_model(blocks, balances, index, rest),
{
    let events = seq![StreamerResult::Error(e)] + rest;
    assert(events[0] == StreamerResult::Error(e));
    assert(events.drop_first() =~= rest);
}

/// Fatal propagation: any other error at the head of the stream terminates
/// the run at once with exactly that error; nothing further is consumed
/// and the store is untouched.
pub proof fn lemma_fatal_propagation(
    blocks: Map<u64, (Seq<char>, i64, Seq<Transaction>)>,
    balances: Map<Seq<char>, int>,
    index: Map<Seq<char>, Seq<TransactionIndex>>,
    e: Error,
    rest: Seq<StreamerResult>,
)
    requires
        !spec_is_transient(e),
    ensures
        aggregate_model(blocks, balances, index, seq![StreamerResult::Error(e)] + rest) == (
            Some(e),
            (blocks, balances, index),
        ),
{
    let events = seq![StreamerResult::Error(e)] + rest;
    assert(events[0] == StreamerResult::Error(e));
}

/// Quiescence: end-of-stream is not an error; the run goes on exactly as
/// if it had not been there, waiting for the subscription to deliver more
/// slots.
pub proof fn lemma_quiescence(
    blocks: Map<u64, (Seq<char>, i64, Seq<Transaction>)>,
    balances: Map<Seq<char>, int>,
    index: Map<Seq<char>, Seq<TransactionIndex>>,
    rest: Seq<StreamerResult>,
)
    ensures
        aggregate_model(blocks, balances, index, seq![StreamerResult::EOS()] + rest)
            == aggregate_model(blocks, balances, index, rest),
{
    let events = seq![StreamerResult::EOS()] + rest;
    assert(events[0] == StreamerResult::EOS());
    assert(events.drop_first() =~= rest);
}

/// A skipped slot followed by a block: the block is persisted and the run
/// does not terminate.
pub proof fn lemma_transient_then_block(
    blocks: Map<u64, (Seq<char>, i64, Seq<Transaction>)>,
    balances: Map<Seq<char>, int>,
    index: Map<Seq<char>, Seq<TransactionIndex>>,
    slot: u64,
    b: Block,
)
    requires
        add_ok(blocks, balances, b),
    ensures
        ({
            let out = aggregate_model(
                blocks,
                balances,
                index,
                seq![StreamerResult::Error(Error::SlotSkipped(slot)), StreamerResult::Block(b)],
            );
            &&& out.0 == None::<Error>
            &&& out.1.0 == blocks.insert(b.height, block_data(b))
        }),
{
    let tail = seq![StreamerResult::Block(b)];
    lemma_transient_continuation(blocks, balances, index, Error::SlotSkipped(slot), tail);
    assert(seq![StreamerResult::Error(Error::SlotSkipped(slot)), StreamerResult::Block(b)]
        =~= seq![StreamerResult::Error(Error::SlotSkipped(slot))] + tail);
    assert(tail[0] == StreamerResult::Block(b));
    assert(tail.drop_first() =~= Seq::<StreamerResult>::empty());
    assert(aggregate_model(
        blocks.insert(b.height, block_data(b)),
        txs_applied(balances, b.transactions@, b.transactions@.len() as int),
        txs_indexed(index, b.height, b.transactions@, b.transactions@.len() as int),
        tail.drop_first(),
    ).0 == None::<Error>);
}

} // verus!
