use solana_data_aggregator::error::{Error, StorageError};
use solana_data_aggregator::storage::Database;
use solana_data_aggregator::types::{Action, ActionReply, Block, Transaction, TransactionIndex};

fn transfer(source: &str, destination: &str, amount: u64) -> Transaction {
    Transaction {
        source: source.to_string(),
        destination: destination.to_string(),
        amount,
    }
}

#[test]
fn storage_sanity_check() {
    let mut db = Database::new();

    let block_height: u64 = 4821337;
    let source = String::from(format!("source{}", block_height));
    let destination = String::from(format!("destination{}", block_height));
    let block_hash = String::from(format!("block_hash{}", block_height));

    let amount = 100;
    let transaction = Transaction {
        source: source.to_string(),
        destination: destination.to_string(),
        amount,
    };

    let block = Block {
        height: block_height,
        transactions: vec![transaction],
        hash: block_hash.to_string(),
        timestamp: 100100,
    };
    db.add_block(&block).unwrap();

    let transactions = db.get_transactions(&source).unwrap();
    assert_eq!(transactions.len(), 1);
    assert_eq!(transactions[0].amount, amount);
    assert_eq!(transactions[0].source, source);
    assert_eq!(transactions[0].destination, destination);

    let account = db.get_account(&destination).unwrap();
    assert_eq!(account.balance, amount as i64);
}

#[test]
fn single_transfer_balances_and_index() {
    let mut db = Database::new();
    let block = Block {
        height: 1,
        hash: "h1".to_string(),
        timestamp: 100,
        transactions: vec![transfer("A", "B", 100)],
    };
    db.add_block(&block).unwrap();

    let a = db.get_account(&"A".to_string()).unwrap();
    assert_eq!(a.address, "A".to_string());
    assert_eq!(a.balance, -100);

    let b = db.get_account(&"B".to_string()).unwrap();
    assert_eq!(b.address, "B".to_string());
    assert_eq!(b.balance, 100);

    let txs = db.get_transactions(&"A".to_string()).unwrap();
    assert_eq!(txs, vec![transfer("A", "B", 100)]);
}

#[test]
fn duplicate_height_rejected_and_state_kept() {
    let mut db = Database::new();
    let block = Block {
        height: 5,
        hash: "h5".to_string(),
        timestamp: 500,
        transactions: vec![transfer("A", "B", 25)],
    };
    db.add_block(&block).unwrap();
    let second = db.add_block(&block);
    assert_eq!(
        second,
        Err(Error::StorageError(StorageError::AlreadyExists(5)))
    );

    // balances and index reflect exactly one application
    assert_eq!(db.get_account(&"A".to_string()).unwrap().balance, -25);
    assert_eq!(db.get_account(&"B".to_string()).unwrap().balance, 25);
    let txs = db.get_transactions(&"A".to_string()).unwrap();
    assert_eq!(txs.len(), 1);
}

#[test]
fn balances_accumulate_across_blocks() {
    let mut db = Database::new();
    let b1 = Block {
        height: 10,
        hash: "ha".to_string(),
        timestamp: 1,
        transactions: vec![transfer("A", "B", 30), transfer("B", "C", 10)],
    };
    let b2 = Block {
        height: 11,
        hash: "hb".to_string(),
        timestamp: 2,
        transactions: vec![transfer("C", "A", 5)],
    };
    db.add_block(&b1).unwrap();
    db.add_block(&b2).unwrap();

    assert_eq!(db.get_account(&"A".to_string()).unwrap().balance, -25);
    assert_eq!(db.get_account(&"B".to_string()).unwrap().balance, 20);
    assert_eq!(db.get_account(&"C".to_string()).unwrap().balance, 5);

    let txs_b = db.get_transactions(&"B".to_string()).unwrap();
    assert_eq!(txs_b, vec![transfer("B", "C", 10)]);
}

#[test]
fn self_transfer_nets_zero() {
    // The debit is written first and the credit reads the debited value,
    // so a transfer from an address to itself conserves its balance; the
    // account still comes into existence on this first reference.
    let mut db = Database::new();
    let block = Block {
        height: 2,
        hash: "h2".to_string(),
        timestamp: 7,
        transactions: vec![transfer("A", "A", 100)],
    };
    db.add_block(&block).unwrap();
    assert_eq!(db.get_account(&"A".to_string()).unwrap().balance, 0);
    // and the transfer is still indexed
    assert_eq!(db.get_transactions(&"A".to_string()).unwrap().len(), 1);
}

#[test]
fn unknown_address_reads_fail() {
    let db = Database::new();
    assert_eq!(
        db.get_account(&"nobody".to_string()),
        Err(Error::StorageError(StorageError::AccountNotFound(
            "nobody".to_string()
        )))
    );
    assert_eq!(
        db.get_transactions(&"nobody".to_string()),
        Err(Error::StorageError(StorageError::NoTransactions(
            "nobody".to_string()
        )))
    );
}

#[test]
fn unrepresentable_balance_rejects_whole_block() {
    let mut db = Database::new();
    let block = Block {
        height: 9,
        hash: "h9".to_string(),
        timestamp: 9,
        transactions: vec![transfer("A", "B", 1), transfer("A", "B", u64::MAX)],
    };
    let r = db.add_block(&block);
    assert_eq!(
        r,
        Err(Error::StorageError(StorageError::BalanceOutOfRange(9)))
    );
    // rejected as a unit: not even the first transaction was applied
    assert!(db.get_account(&"A".to_string()).is_err());
    assert!(db.get_transactions(&"A".to_string()).is_err());
}

#[test]
fn identical_transfers_are_indexed_separately() {
    // two identical transfers at different positions are two entries
    let mut db = Database::new();
    let block = Block {
        height: 3,
        hash: "h3".to_string(),
        timestamp: 3,
        transactions: vec![transfer("A", "B", 10), transfer("A", "B", 10)],
    };
    db.add_block(&block).unwrap();
    let txs = db.get_transactions(&"A".to_string()).unwrap();
    assert_eq!(txs.len(), 2);
    assert_eq!(db.get_account(&"A".to_string()).unwrap().balance, -20);
}

#[test]
fn back_references_carry_height_and_position() {
    let mut db = Database::new();
    let block = Block {
        height: 12,
        hash: "h12".to_string(),
        timestamp: 1,
        transactions: vec![transfer("A", "B", 1), transfer("C", "D", 2), transfer("A", "D", 3)],
    };
    db.add_block(&block).unwrap();
    let entries = db.get_transaction_indices(&"A".to_string()).unwrap();
    assert_eq!(
        entries,
        vec![
            TransactionIndex {
                block_height: 12,
                index: 0
            },
            TransactionIndex {
                block_height: 12,
                index: 2
            },
        ]
    );
    assert!(db.get_transaction_indices(&"B".to_string()).is_none());
}

#[test]
fn actions_are_served_in_arrival_order() {
    let mut db = Database::new();
    let block = Block {
        height: 21,
        hash: "h21".to_string(),
        timestamp: 4,
        transactions: vec![transfer("A", "B", 40)],
    };
    let actions = vec![
        Action::GetAccounts("A".to_string()),
        Action::AddBlock(block),
        Action::GetAccounts("A".to_string()),
    ];
    let replies = db.serve_actions(actions);
    assert_eq!(replies.len(), 3);
    // the first read precedes the write and misses
    match &replies[0] {
        ActionReply::GetAccounts(res) => assert!(res.is_err()),
        _ => panic!("reply does not match its action"),
    }
    match &replies[1] {
        ActionReply::AddBlock(res) => assert!(res.is_ok()),
        _ => panic!("reply does not match its action"),
    }
    // the second read follows the write and sees it
    match &replies[2] {
        ActionReply::GetAccounts(res) => {
            assert_eq!(res.as_ref().unwrap().balance, -40);
        }
        _ => panic!("reply does not match its action"),
    }
}

#[test]
fn process_action_replies_match_actions() {
    let mut db = Database::new();
    let block = Block {
        height: 8,
        hash: "h8".to_string(),
        timestamp: 8,
        transactions: vec![transfer("X", "Y", 3)],
    };
    let reply = db.process_action(Action::AddBlock(block));
    assert!(matches!(reply, ActionReply::AddBlock(Ok(()))));
    let reply = db.process_action(Action::GetTransactions("X".to_string()));
    match reply {
        ActionReply::GetTransactions(Ok(txs)) => {
            assert_eq!(txs, vec![transfer("X", "Y", 3)]);
        }
        _ => panic!("reply does not match its action"),
    }
}
