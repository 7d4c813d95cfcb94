use solana_data_aggregator::storage::{db_key, u64_to_string, ChainMedadata, DbKey};

#[test]
fn composite_keys_join_kind_and_key() {
    assert_eq!(
        db_key(DbKey::TransactionIndex, "some_address"),
        "TransactionIndex-some_address".to_string()
    );
    assert_eq!(
        db_key(DbKey::AccountBalance, "some_address"),
        "AccountBalance-some_address".to_string()
    );
    assert_eq!(db_key(DbKey::Block, "17"), "Block-17".to_string());
    assert_eq!(db_key(DbKey::Block, ""), "Block-".to_string());
}

#[test]
fn heights_render_in_decimal() {
    assert_eq!(u64_to_string(0), "0".to_string());
    assert_eq!(u64_to_string(7), "7".to_string());
    assert_eq!(u64_to_string(10), "10".to_string());
    assert_eq!(u64_to_string(100100), "100100".to_string());
    assert_eq!(u64_to_string(4821337), "4821337".to_string());
    assert_eq!(
        u64_to_string(u64::MAX),
        "18446744073709551615".to_string()
    );
}

#[test]
fn block_keys_compose_with_rendered_heights() {
    let key = db_key(DbKey::Block, u64_to_string(100100).as_str());
    assert_eq!(key, "Block-100100".to_string());
}

#[test]
fn chain_positions_carry_slot_and_height() {
    let meta = ChainMedadata {
        last_slot: 42,
        last_block_height: 41,
    };
    assert_eq!(meta.last_slot, 42);
    assert_eq!(meta.last_block_height, 41);
}
