use solana_data_aggregator::aggregator::{
    aggregator_decide, aggregator_store_result, run_aggregator, AggregatorStep,
};
use solana_data_aggregator::error::{Error, StorageError};
use solana_data_aggregator::monitor::{monitor_decide, run_monitor, MonitorEvent, MonitorStep};
use solana_data_aggregator::storage::{owner_decide, Database, OwnerPoll, OwnerStep};
use solana_data_aggregator::types::{Action, Block, StreamerResult, Transaction};

fn block_b() -> Block {
    Block {
        height: 43,
        hash: "hash43".to_string(),
        timestamp: 430,
        transactions: vec![Transaction {
            source: "A".to_string(),
            destination: "B".to_string(),
            amount: 12,
        }],
    }
}

#[test]
fn skipped_slot_then_block_continues_and_persists() {
    let mut db = Database::new();
    let events = vec![
        StreamerResult::Error(Error::SlotSkipped(42)),
        StreamerResult::Block(block_b()),
    ];
    let outcome = run_aggregator(&mut db, events);
    assert_eq!(outcome, None);
    assert_eq!(db.get_account(&"B".to_string()).unwrap().balance, 12);
}

#[test]
fn missing_slot_is_absorbed_too() {
    let mut db = Database::new();
    let events = vec![
        StreamerResult::Error(Error::SlotMissing(42)),
        StreamerResult::Block(block_b()),
    ];
    assert_eq!(run_aggregator(&mut db, events), None);
    assert_eq!(db.get_account(&"A".to_string()).unwrap().balance, -12);
}

#[test]
fn fatal_error_terminates_with_that_error() {
    let mut db = Database::new();
    let events = vec![
        StreamerResult::Error(Error::RpcError("boom".to_string())),
        StreamerResult::Block(block_b()),
    ];
    let outcome = run_aggregator(&mut db, events);
    assert_eq!(outcome, Some(Error::RpcError("boom".to_string())));
    // nothing after the fatal error was consumed
    assert!(db.get_account(&"B".to_string()).is_err());
}

#[test]
fn termination_is_propagated() {
    let mut db = Database::new();
    let events = vec![StreamerResult::Error(Error::Termination)];
    assert_eq!(run_aggregator(&mut db, events), Some(Error::Termination));
}

#[test]
fn storage_failure_is_fatal_and_propagates() {
    let mut db = Database::new();
    let events = vec![
        StreamerResult::Block(block_b()),
        StreamerResult::Block(block_b()),
        StreamerResult::Block(Block {
            height: 44,
            hash: "hash44".to_string(),
            timestamp: 440,
            transactions: vec![],
        }),
    ];
    let outcome = run_aggregator(&mut db, events);
    assert_eq!(
        outcome,
        Some(Error::StorageError(StorageError::AlreadyExists(43)))
    );
    // the loop stopped at the failure: the third block was not applied
    assert!(db.get_transactions(&"A".to_string()).unwrap().len() == 1);
}

#[test]
fn end_of_stream_is_quiescence() {
    let mut db = Database::new();
    let events = vec![StreamerResult::EOS(), StreamerResult::Block(block_b())];
    assert_eq!(run_aggregator(&mut db, events), None);
    assert_eq!(db.get_account(&"B".to_string()).unwrap().balance, 12);
}

#[test]
fn cancellation_unsubscribes_and_returns_termination() {
    let events = vec![
        MonitorEvent::Notification(1, true),
        MonitorEvent::Notification(2, true),
        MonitorEvent::Cancelled,
        MonitorEvent::Notification(3, true),
    ];
    let report = run_monitor(&events);
    assert_eq!(report.forwarded, vec![1, 2]);
    assert_eq!(report.outcome, Some(Error::Termination));
    assert!(report.unsubscribed);
}

#[test]
fn gone_consumer_fails_the_monitor() {
    let events = vec![MonitorEvent::Notification(7, false)];
    let report = run_monitor(&events);
    assert!(report.forwarded.is_empty());
    assert_eq!(
        report.outcome,
        Some(Error::ChannelFailed(
            "SlotMonitor".to_string(),
            "channel closed".to_string()
        ))
    );
    assert!(report.unsubscribed);
}

#[test]
fn quiet_monitor_keeps_its_subscription() {
    let events = vec![
        MonitorEvent::Notification(5, true),
        MonitorEvent::Notification(6, true),
    ];
    let report = run_monitor(&events);
    assert_eq!(report.forwarded, vec![5, 6]);
    assert_eq!(report.outcome, None);
    assert!(!report.unsubscribed);
}

#[test]
fn monitor_decisions_follow_the_event() {
    assert!(matches!(
        monitor_decide(MonitorEvent::Cancelled),
        MonitorStep::Stop(Error::Termination)
    ));
    assert!(matches!(
        monitor_decide(MonitorEvent::Notification(9, true)),
        MonitorStep::Continue
    ));
    match monitor_decide(MonitorEvent::Notification(9, false)) {
        MonitorStep::Stop(Error::ChannelFailed(source, detail)) => {
            assert_eq!(source, "SlotMonitor".to_string());
            assert_eq!(detail, "channel closed".to_string());
        }
        _ => panic!("a gone consumer must stop the monitor"),
    }
}

#[test]
fn aggregator_decisions_follow_the_result() {
    match aggregator_decide(StreamerResult::Block(block_b())) {
        AggregatorStep::Store(b) => assert_eq!(b.height, 43),
        _ => panic!("a block must be forwarded to the store"),
    }
    assert!(matches!(
        aggregator_decide(StreamerResult::EOS()),
        AggregatorStep::Continue
    ));
    assert!(matches!(
        aggregator_decide(StreamerResult::Error(Error::SlotSkipped(4))),
        AggregatorStep::Continue
    ));
    assert!(matches!(
        aggregator_decide(StreamerResult::Error(Error::Termination)),
        AggregatorStep::Stop(Error::Termination)
    ));
    assert!(matches!(
        aggregator_store_result(Ok(())),
        AggregatorStep::Continue
    ));
    assert!(matches!(
        aggregator_store_result(Err(Error::StorageError(StorageError::AlreadyExists(7)))),
        AggregatorStep::Stop(Error::StorageError(StorageError::AlreadyExists(7)))
    ));
}

#[test]
fn owner_decisions_follow_the_poll() {
    assert!(matches!(
        owner_decide(OwnerPoll::Cancelled),
        OwnerStep::Finish(Err(Error::Termination))
    ));
    // a closed queue means every counterpart is gone: always fatal
    match owner_decide(OwnerPoll::Closed) {
        OwnerStep::Finish(Err(Error::ChannelFailed(source, detail))) => {
            assert_eq!(source, "Database".to_string());
            assert_eq!(detail, "channel closed".to_string());
        }
        _ => panic!("a closed queue must fail the owner"),
    }
    match owner_decide(OwnerPoll::Request(Action::GetAccounts("A".to_string()))) {
        OwnerStep::Process(Action::GetAccounts(address)) => {
            assert_eq!(address, "A".to_string());
        }
        _ => panic!("a request must be processed"),
    }
    // a requester that dropped its reply channel is absorbed
    assert!(matches!(
        owner_decide(OwnerPoll::ReplyDropped),
        OwnerStep::Continue
    ));
}

#[test]
fn transient_errors_are_recognized() {
    assert!(Error::SlotSkipped(1).is_transient());
    assert!(Error::SlotMissing(1).is_transient());
    assert!(!Error::Termination.is_transient());
    assert!(!Error::RpcError("x".to_string()).is_transient());
    assert!(!Error::PubSubError("unreachable".to_string()).is_transient());
    assert!(!Error::ChannelFailed("a".to_string(), "b".to_string()).is_transient());
    assert!(!Error::StorageError(StorageError::AlreadyExists(1)).is_transient());
}
