use block_sync::normalize::{normalize_block, normalize_header, normalize_transaction};
use block_sync::raw::{RawHeader, RawTransaction};

fn plain_header() -> RawHeader {
    RawHeader {
        number: Some(7),
        hash: Some([0x11; 32]),
        parent_hash: [0x22; 32],
        nonce: Some([0, 0, 0, 0, 0, 0, 0x12, 0x34]),
        logs_bloom: [0; 256],
        transactions_root: [0x33; 32],
        state_root: [0x44; 32],
        receipts_root: [0x55; 32],
        miner: [0xab; 20],
        difficulty: [0; 32],
        total_difficulty: None,
        extra_data: None,
        gas_limit: 30_000_000,
        gas_used: 21_000,
    }
}

fn plain_transaction() -> RawTransaction {
    RawTransaction {
        hash: [0x01; 32],
        from: [0x02; 20],
        to: Some([0x03; 20]),
        value: [0; 32],
        gas: 21_000,
        gas_price: Some(1_000_000_000),
        input: Vec::new(),
        nonce: 9,
        transaction_index: Some(4),
        max_fee_per_gas: None,
        max_priority_fee_per_gas: None,
        chain_id: Some(1),
    }
}

fn wide(high: u128, low: u128) -> [u8; 32] {
    let mut bytes = [0u8; 32];
    bytes[..16].copy_from_slice(&high.to_be_bytes());
    bytes[16..].copy_from_slice(&low.to_be_bytes());
    bytes
}

#[test]
fn hashes_are_prefixed_lowercase_hex_of_fixed_width() {
    let mut header = plain_header();
    let mut hash = [0u8; 32];
    hash[0] = 0xde;
    hash[1] = 0xad;
    hash[31] = 0x0f;
    header.hash = Some(hash);
    let record = normalize_block(7, &header);
    assert_eq!(
        record.block_hash,
        "0xdead00000000000000000000000000000000000000000000000000000000000f"
    );
    assert_eq!(record.block_hash.len(), 66);
    assert_eq!(record.parent_hash, format!("0x{}", "22".repeat(32)));
    assert_eq!(record.transactions_root, format!("0x{}", "33".repeat(32)));
    assert_eq!(record.state_root, format!("0x{}", "44".repeat(32)));
    assert_eq!(record.receipts_root, format!("0x{}", "55".repeat(32)));
}

#[test]
fn block_record_carries_number_and_gas() {
    let record = normalize_block(123_456, &plain_header());
    assert_eq!(record.block_number, 123_456);
    assert_eq!(record.gas_limit, 30_000_000);
    assert_eq!(record.gas_used, 21_000);
}

#[test]
fn miner_is_plain_lowercase_hex_without_checksum() {
    let mut header = plain_header();
    header.miner = [
        0xd8, 0xda, 0x6b, 0xf2, 0x69, 0x64, 0xaf, 0x9d, 0x7e, 0xed, 0x9e, 0x03, 0xe5, 0x34, 0x15,
        0xd3, 0x7a, 0xa9, 0x60, 0x45,
    ];
    let record = normalize_block(1, &header);
    assert_eq!(record.miner, "0xd8da6bf26964af9d7eed9e03e53415d37aa96045");
}

#[test]
fn nonce_is_eight_bytes_of_hex() {
    let record = normalize_block(1, &plain_header());
    assert_eq!(record.nonce, "0x0000000000001234");
}

#[test]
fn absent_hash_and_nonce_are_rendered_as_zero_bytes() {
    let mut header = plain_header();
    header.hash = None;
    header.nonce = None;
    let record = normalize_block(1, &header);
    assert_eq!(record.block_hash, format!("0x{}", "00".repeat(32)));
    assert_eq!(record.nonce, "0x0000000000000000");
}

#[test]
fn logs_bloom_is_256_bytes_of_hex() {
    let mut header = plain_header();
    header.logs_bloom[0] = 0x80;
    header.logs_bloom[255] = 0x01;
    let record = normalize_block(1, &header);
    assert_eq!(record.logs_bloom.len(), 2 + 512);
    assert!(record.logs_bloom.starts_with("0x80"));
    assert!(record.logs_bloom.ends_with("01"));
    assert_eq!(&record.logs_bloom[4..512], "0".repeat(508));
}

#[test]
fn difficulty_is_decimal() {
    let mut header = plain_header();
    header.difficulty = wide(0, 17_179_869_184);
    let record = normalize_block(1, &header);
    assert_eq!(record.difficulty, "17179869184");
    header.difficulty = [0; 32];
    assert_eq!(normalize_block(1, &header).difficulty, "0");
}

#[test]
fn total_difficulty_keeps_absence_and_is_decimal_when_present() {
    let mut header = plain_header();
    assert_eq!(normalize_block(1, &header).total_difficulty, None);
    header.total_difficulty = Some(wide(1, 0));
    assert_eq!(
        normalize_block(1, &header).total_difficulty,
        Some("340282366920938463463374607431768211456".to_string())
    );
    header.total_difficulty = Some([0; 32]);
    assert_eq!(normalize_block(1, &header).total_difficulty, Some("0".to_string()));
}

#[test]
fn extra_data_tells_absent_from_empty() {
    let mut header = plain_header();
    assert_eq!(normalize_block(1, &header).extra_data, None);
    header.extra_data = Some(Vec::new());
    assert_eq!(normalize_block(1, &header).extra_data, Some("0x".to_string()));
    header.extra_data = Some(vec![0xca, 0xfe, 0x00]);
    assert_eq!(normalize_block(1, &header).extra_data, Some("0xcafe00".to_string()));
}

#[test]
fn header_without_number_yields_no_record() {
    let mut header = plain_header();
    header.number = None;
    assert_eq!(normalize_header(&header), None);
}

#[test]
fn header_with_number_is_stored_under_it() {
    let header = plain_header();
    let record = normalize_header(&header).expect("the header carries a number");
    assert_eq!(record.block_number, 7);
    assert_eq!(record, normalize_block(7, &header));
}

#[test]
fn transaction_fields_are_carried_over() {
    let record = normalize_transaction(55, &plain_transaction());
    assert_eq!(record.block_number, 55);
    assert_eq!(record.transaction_hash, format!("0x{}", "01".repeat(32)));
    assert_eq!(record.from, format!("0x{}", "02".repeat(20)));
    assert_eq!(record.to, Some(format!("0x{}", "03".repeat(20))));
    assert_eq!(record.value, "0");
    assert_eq!(record.gas, 21_000);
    assert_eq!(record.gas_price, Some("1000000000".to_string()));
    assert_eq!(record.input, "0x");
    assert_eq!(record.nonce, 9);
    assert_eq!(record.transaction_index, 4);
    assert_eq!(record.max_fee_per_gas, None);
    assert_eq!(record.max_priority_fee_per_gas, None);
    assert_eq!(record.chain_id, Some("1".to_string()));
}

#[test]
fn contract_creation_has_no_recipient() {
    let mut tx = plain_transaction();
    tx.to = None;
    let record = normalize_transaction(1, &tx);
    assert_eq!(record.to, None);
    assert_ne!(record.to, Some(String::new()));
    assert_ne!(record.to, Some(format!("0x{}", "00".repeat(20))));
}

#[test]
fn zero_address_recipient_is_present() {
    let mut tx = plain_transaction();
    tx.to = Some([0; 20]);
    let record = normalize_transaction(1, &tx);
    assert_eq!(record.to, Some(format!("0x{}", "00".repeat(20))));
}

#[test]
fn value_beyond_64_bits_is_exact_decimal() {
    let mut tx = plain_transaction();
    tx.value = wide(0, 1u128 << 64);
    assert_eq!(normalize_transaction(1, &tx).value, "18446744073709551616");
    tx.value = wide(0, u128::MAX);
    assert_eq!(
        normalize_transaction(1, &tx).value,
        "340282366920938463463374607431768211455"
    );
    tx.value = wide(u128::MAX, u128::MAX);
    assert_eq!(
        normalize_transaction(1, &tx).value,
        "115792089237316195423570985008687907853269984665640564039457584007913129639935"
    );
}

#[test]
fn value_reads_back_as_the_source_number() {
    let amounts: [u128; 5] = [0, 9, 10, u64::MAX as u128 + 1, 1_000_000_000_000_000_000_000];
    for amount in amounts {
        let mut tx = plain_transaction();
        tx.value = wide(0, amount);
        let text = normalize_transaction(1, &tx).value;
        assert_eq!(text.parse::<u128>().unwrap(), amount);
        assert!(text == "0" || !text.starts_with('0'));
    }
}

#[test]
fn missing_index_is_stored_as_zero() {
    let mut tx = plain_transaction();
    tx.transaction_index = None;
    assert_eq!(normalize_transaction(1, &tx).transaction_index, 0);
    tx.transaction_index = Some(0);
    assert_eq!(normalize_transaction(1, &tx).transaction_index, 0);
    tx.transaction_index = Some(u64::MAX);
    assert_eq!(normalize_transaction(1, &tx).transaction_index, u64::MAX);
}

#[test]
fn fee_fields_keep_absence_and_are_decimal_when_present() {
    let mut tx = plain_transaction();
    tx.gas_price = None;
    tx.max_fee_per_gas = Some(30_000_000_000);
    tx.max_priority_fee_per_gas = Some(u128::MAX);
    tx.chain_id = None;
    let record = normalize_transaction(1, &tx);
    assert_eq!(record.gas_price, None);
    assert_eq!(record.max_fee_per_gas, Some("30000000000".to_string()));
    assert_eq!(
        record.max_priority_fee_per_gas,
        Some("340282366920938463463374607431768211455".to_string())
    );
    assert_eq!(record.chain_id, None);
}

#[test]
fn zero_fee_is_present_not_absent() {
    let mut tx = plain_transaction();
    tx.gas_price = Some(0);
    tx.max_fee_per_gas = Some(0);
    let record = normalize_transaction(1, &tx);
    assert_eq!(record.gas_price, Some("0".to_string()));
    assert_eq!(record.max_fee_per_gas, Some("0".to_string()));
}

#[test]
fn chain_id_is_decimal() {
    let mut tx = plain_transaction();
    tx.chain_id = Some(11_155_111);
    assert_eq!(normalize_transaction(1, &tx).chain_id, Some("11155111".to_string()));
    tx.chain_id = Some(u64::MAX);
    assert_eq!(
        normalize_transaction(1, &tx).chain_id,
        Some("18446744073709551615".to_string())
    );
}

#[test]
fn input_payload_is_hex() {
    let mut tx = plain_transaction();
    tx.input = vec![0xa9, 0x05, 0x9c, 0xbb, 0x00];
    assert_eq!(normalize_transaction(1, &tx).input, "0xa9059cbb00");
}
