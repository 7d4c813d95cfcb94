use solana_data_aggregator::error::Error;
use solana_data_aggregator::streamer::{
    block_from_raw, classify_fetch_error, parse_instruction, parse_transaction, resolve_fetch,
    streamer_decide, FetchFailure, ParsedInstruction, RawBlock, RawInstruction, RawMessage,
    RawTransaction, SlotPoll, StreamerStep, SYSTEM_PROGRAM_ID,
};
use solana_data_aggregator::types::{StreamerResult, Transaction};

fn transfer_instruction(source: &str, destination: &str, lamports: u64) -> RawInstruction {
    RawInstruction::Parsed(ParsedInstruction {
        program_id: SYSTEM_PROGRAM_ID.to_string(),
        kind: Some("transfer".to_string()),
        source: Some(source.to_string()),
        destination: Some(destination.to_string()),
        lamports: Some(lamports),
    })
}

#[test]
fn transfer_instruction_is_extracted() {
    let parsed = parse_instruction(&transfer_instruction("A", "B", 100)).unwrap();
    assert_eq!(
        parsed,
        Transaction {
            source: "A".to_string(),
            destination: "B".to_string(),
            amount: 100,
        }
    );
}

#[test]
fn non_transfers_are_skipped() {
    // another program
    let foreign = RawInstruction::Parsed(ParsedInstruction {
        program_id: "Vote111111111111111111111111111111111111111".to_string(),
        kind: Some("transfer".to_string()),
        source: Some("A".to_string()),
        destination: Some("B".to_string()),
        lamports: Some(1),
    });
    assert_eq!(parse_instruction(&foreign), None);

    // another instruction kind
    let delegate = RawInstruction::Parsed(ParsedInstruction {
        program_id: SYSTEM_PROGRAM_ID.to_string(),
        kind: Some("delegate".to_string()),
        source: Some("A".to_string()),
        destination: Some("B".to_string()),
        lamports: Some(1),
    });
    assert_eq!(parse_instruction(&delegate), None);

    // no kind at all
    let unkinded = RawInstruction::Parsed(ParsedInstruction {
        program_id: SYSTEM_PROGRAM_ID.to_string(),
        kind: None,
        source: Some("A".to_string()),
        destination: Some("B".to_string()),
        lamports: Some(1),
    });
    assert_eq!(parse_instruction(&unkinded), None);

    // a transfer whose fields are not in the expected shape
    let incomplete = RawInstruction::Parsed(ParsedInstruction {
        program_id: SYSTEM_PROGRAM_ID.to_string(),
        kind: Some("transfer".to_string()),
        source: Some("A".to_string()),
        destination: Some("B".to_string()),
        lamports: None,
    });
    assert_eq!(parse_instruction(&incomplete), None);

    // not parsed JSON
    assert_eq!(parse_instruction(&RawInstruction::Other), None);
}

#[test]
fn only_parsed_json_transactions_are_read() {
    let tx = RawTransaction::Json(RawMessage::Parsed(vec![
        transfer_instruction("A", "B", 7),
        RawInstruction::Other,
        transfer_instruction("C", "D", 9),
    ]));
    let extracted = parse_transaction(tx).unwrap();
    assert_eq!(extracted.len(), 2);
    assert_eq!(extracted[0].source, "A".to_string());
    assert_eq!(extracted[1].amount, 9);

    assert!(parse_transaction(RawTransaction::Json(RawMessage::Raw)).is_none());
    assert!(parse_transaction(RawTransaction::Other).is_none());

    // a parsable transaction with no transfers is valid and empty
    let empty = parse_transaction(RawTransaction::Json(RawMessage::Parsed(vec![
        RawInstruction::Other,
    ])))
    .unwrap();
    assert!(empty.is_empty());
}

#[test]
fn raw_block_parses_to_domain_block() {
    let raw = RawBlock {
        block_height: Some(99),
        blockhash: "deadbeef".to_string(),
        block_time: Some(123456),
        transactions: Some(vec![
            RawTransaction::Json(RawMessage::Parsed(vec![transfer_instruction("A", "B", 3)])),
            RawTransaction::Other,
            RawTransaction::Json(RawMessage::Parsed(vec![
                transfer_instruction("C", "D", 4),
                transfer_instruction("E", "F", 5),
            ])),
        ]),
    };
    let block = block_from_raw(raw);
    assert_eq!(block.height, 99);
    assert_eq!(block.hash, "deadbeef".to_string());
    assert_eq!(block.timestamp, 123456);
    let amounts: Vec<u64> = block.transactions.iter().map(|t| t.amount).collect();
    assert_eq!(amounts, vec![3, 4, 5]);
}

#[test]
fn raw_block_without_transactions_is_valid() {
    let raw = RawBlock {
        block_height: Some(1),
        blockhash: "h".to_string(),
        block_time: Some(2),
        transactions: None,
    };
    let block = block_from_raw(raw);
    assert!(block.transactions.is_empty());
}

#[test]
fn fetch_failures_are_classified_by_code() {
    assert_eq!(
        classify_fetch_error(42, Some(-32004), "block not available".to_string()),
        Error::SlotMissing(42)
    );
    assert_eq!(
        classify_fetch_error(42, Some(-32007), "slot was skipped".to_string()),
        Error::SlotSkipped(42)
    );
    assert_eq!(
        classify_fetch_error(42, Some(-32000), "other".to_string()),
        Error::RpcError("other".to_string())
    );
    assert_eq!(
        classify_fetch_error(42, None, "connection reset".to_string()),
        Error::RpcError("connection reset".to_string())
    );
}

#[test]
fn streamer_decisions_follow_the_poll() {
    assert!(matches!(
        streamer_decide(SlotPoll::Cancelled),
        StreamerStep::Yield(StreamerResult::Error(Error::Termination))
    ));
    assert!(matches!(
        streamer_decide(SlotPoll::Closed),
        StreamerStep::Yield(StreamerResult::EOS())
    ));
    assert!(matches!(
        streamer_decide(SlotPoll::Slot(17)),
        StreamerStep::Fetch(17)
    ));
}

#[test]
fn fetch_outcomes_resolve_to_streamer_results() {
    let raw = RawBlock {
        block_height: Some(6),
        blockhash: "abc".to_string(),
        block_time: Some(60),
        transactions: None,
    };
    match resolve_fetch(6, Ok(raw)) {
        StreamerResult::Block(b) => {
            assert_eq!(b.height, 6);
            assert_eq!(b.hash, "abc".to_string());
        }
        _ => panic!("a fetched payload must resolve to a block"),
    }
    let failure = FetchFailure {
        code: Some(-32007),
        message: "slot was skipped".to_string(),
    };
    match resolve_fetch(6, Err(failure)) {
        StreamerResult::Error(e) => assert_eq!(e, Error::SlotSkipped(6)),
        _ => panic!("a failed fetch must resolve to an error"),
    }
}
