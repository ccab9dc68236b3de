use block_sync::backfill::Backfill;
use block_sync::engine::{Command, Notice, Outcome, Reply};
use block_sync::normalize::{normalize_block, normalize_transaction};
use block_sync::raw::{RawBlock, RawHeader, RawTransaction};
use std::collections::BTreeMap;

fn header_of(number: u64) -> RawHeader {
    let mut hash = [0u8; 32];
    hash[24..].copy_from_slice(&number.to_be_bytes());
    RawHeader {
        number: Some(number),
        hash: Some(hash),
        parent_hash: [0; 32],
        nonce: None,
        logs_bloom: [0; 256],
        transactions_root: [0; 32],
        state_root: [0; 32],
        receipts_root: [0; 32],
        miner: [0; 20],
        difficulty: [0; 32],
        total_difficulty: None,
        extra_data: None,
        gas_limit: 0,
        gas_used: 0,
    }
}

fn transaction_at(index: u64) -> RawTransaction {
    let mut hash = [0xee; 32];
    hash[24..].copy_from_slice(&index.to_be_bytes());
    RawTransaction {
        hash,
        from: [1; 20],
        to: Some([2; 20]),
        value: [0; 32],
        gas: 21_000,
        gas_price: None,
        input: Vec::new(),
        nonce: index,
        transaction_index: Some(index),
        max_fee_per_gas: None,
        max_priority_fee_per_gas: None,
        chain_id: None,
    }
}

fn block_of(number: u64, transactions: u64) -> RawBlock {
    RawBlock {
        header: header_of(number),
        transactions: Some((0..transactions).map(transaction_at).collect()),
    }
}

/// Carries a backfill through against a node that never fails and a store
/// that accepts everything, and gives the commands in the order they came.
fn run_backfill(start: u64, end: u64, node: &BTreeMap<u64, RawBlock>) -> Vec<Command> {
    let mut commands = Vec::new();
    let (mut flow, mut command) = Backfill::start(start, end);
    loop {
        commands.push(command.clone());
        let reply = match &command {
            Command::FetchBlock { number } => Reply::Block(node.get(number).cloned()),
            Command::StoreBlock(_) | Command::StoreTransaction(_) => Reply::Stored,
            Command::Report(_) => Reply::Reported,
            Command::AwaitHeader => panic!("a backfill does not listen to the feed"),
            Command::Stop(_) => return commands,
        };
        (flow, command) = flow.step(reply);
    }
}

fn block_numbers_written(commands: &[Command]) -> Vec<u64> {
    let mut numbers = Vec::new();
    for command in commands {
        if let Command::StoreBlock(record) = command {
            numbers.push(record.block_number);
        }
    }
    numbers
}

fn transactions_written(commands: &[Command], number: u64) -> Vec<u64> {
    let mut indices = Vec::new();
    for command in commands {
        if let Command::StoreTransaction(record) = command {
            if record.block_number == number {
                indices.push(record.transaction_index);
            }
        }
    }
    indices
}

#[test]
fn backfill_skips_a_missing_block_and_goes_on() {
    let mut node = BTreeMap::new();
    node.insert(100, block_of(100, 2));
    node.insert(102, block_of(102, 1));
    let commands = run_backfill(100, 102, &node);
    let expected = vec![
        Command::FetchBlock { number: 100 },
        Command::StoreBlock(normalize_block(100, &header_of(100))),
        Command::StoreTransaction(normalize_transaction(100, &transaction_at(0))),
        Command::StoreTransaction(normalize_transaction(100, &transaction_at(1))),
        Command::FetchBlock { number: 101 },
        Command::Report(Notice::BlockAbsent { number: 101 }),
        Command::FetchBlock { number: 102 },
        Command::StoreBlock(normalize_block(102, &header_of(102))),
        Command::StoreTransaction(normalize_transaction(102, &transaction_at(0))),
        Command::Stop(Outcome::Completed),
    ];
    assert_eq!(commands, expected);
    assert_eq!(block_numbers_written(&commands), vec![100, 102]);
    assert_eq!(transactions_written(&commands, 100), vec![0, 1]);
    assert_eq!(transactions_written(&commands, 101), Vec::<u64>::new());
    assert_eq!(transactions_written(&commands, 102), vec![0]);
}

#[test]
fn backfill_writes_blocks_in_ascending_order() {
    let mut node = BTreeMap::new();
    for number in 10..=15 {
        node.insert(number, block_of(number, number % 3));
    }
    let commands = run_backfill(10, 15, &node);
    assert_eq!(block_numbers_written(&commands), vec![10, 11, 12, 13, 14, 15]);
    for number in 10..=15u64 {
        let expected: Vec<u64> = (0..number % 3).collect();
        assert_eq!(transactions_written(&commands, number), expected);
    }
}

#[test]
fn backfill_of_a_full_range_writes_every_block_once() {
    let mut node = BTreeMap::new();
    for number in 1..=4 {
        node.insert(number, block_of(number, 3));
    }
    let commands = run_backfill(1, 4, &node);
    for number in 1..=4u64 {
        let blocks = commands
            .iter()
            .filter(|c| matches!(c, Command::StoreBlock(r) if r.block_number == number))
            .count();
        assert_eq!(blocks, 1);
        assert_eq!(transactions_written(&commands, number).len(), 3);
    }
    assert_eq!(commands.len(), 4 * (1 + 1 + 3) + 1);
    assert_eq!(commands.last(), Some(&Command::Stop(Outcome::Completed)));
}

#[test]
fn backfill_looks_each_number_up_once() {
    let node = BTreeMap::new();
    let commands = run_backfill(7, 9, &node);
    let expected = vec![
        Command::FetchBlock { number: 7 },
        Command::Report(Notice::BlockAbsent { number: 7 }),
        Command::FetchBlock { number: 8 },
        Command::Report(Notice::BlockAbsent { number: 8 }),
        Command::FetchBlock { number: 9 },
        Command::Report(Notice::BlockAbsent { number: 9 }),
        Command::Stop(Outcome::Completed),
    ];
    assert_eq!(commands, expected);
}

#[test]
fn backfill_block_record_comes_before_its_transactions() {
    let mut node = BTreeMap::new();
    node.insert(5, block_of(5, 2));
    node.insert(6, block_of(6, 2));
    let commands = run_backfill(5, 6, &node);
    for (position, command) in commands.iter().enumerate() {
        if let Command::StoreTransaction(record) = command {
            let earlier = commands[..position].iter().any(
                |c| matches!(c, Command::StoreBlock(r) if r.block_number == record.block_number),
            );
            assert!(earlier);
        }
    }
}

#[test]
fn backfill_of_an_empty_range_stops_at_once() {
    let (_, command) = Backfill::start(5, 4);
    assert_eq!(command, Command::Stop(Outcome::Completed));
}

#[test]
fn backfill_of_one_number_visits_it() {
    let mut node = BTreeMap::new();
    node.insert(9, block_of(9, 0));
    let commands = run_backfill(9, 9, &node);
    let expected = vec![
        Command::FetchBlock { number: 9 },
        Command::StoreBlock(normalize_block(9, &header_of(9))),
        Command::Stop(Outcome::Completed),
    ];
    assert_eq!(commands, expected);
}

#[test]
fn backfill_ends_at_the_largest_block_number() {
    let node = BTreeMap::new();
    let commands = run_backfill(u64::MAX - 1, u64::MAX, &node);
    let expected = vec![
        Command::FetchBlock { number: u64::MAX - 1 },
        Command::Report(Notice::BlockAbsent { number: u64::MAX - 1 }),
        Command::FetchBlock { number: u64::MAX },
        Command::Report(Notice::BlockAbsent { number: u64::MAX }),
        Command::Stop(Outcome::Completed),
    ];
    assert_eq!(commands, expected);
}

#[test]
fn backfill_stores_under_the_number_it_asked_for() {
    let mut block = block_of(1, 1);
    block.header.number = Some(999);
    let (flow, _) = Backfill::start(40, 40);
    let (flow, command) = flow.step(Reply::Block(Some(block)));
    match command {
        Command::StoreBlock(record) => assert_eq!(record.block_number, 40),
        other => panic!("expected a block record, got {:?}", other),
    }
    let (_, command) = flow.step(Reply::Stored);
    match command {
        Command::StoreTransaction(record) => assert_eq!(record.block_number, 40),
        other => panic!("expected a transaction record, got {:?}", other),
    }
}

#[test]
fn backfill_goes_on_after_a_refused_record() {
    let (flow, _) = Backfill::start(1, 2);
    let (flow, command) = flow.step(Reply::Block(Some(block_of(1, 2))));
    assert!(matches!(command, Command::StoreBlock(_)));
    let (flow, command) = flow.step(Reply::Rejected);
    assert_eq!(command, Command::StoreTransaction(normalize_transaction(1, &transaction_at(0))));
    let (flow, command) = flow.step(Reply::Rejected);
    assert_eq!(command, Command::StoreTransaction(normalize_transaction(1, &transaction_at(1))));
    let (_, command) = flow.step(Reply::Rejected);
    assert_eq!(command, Command::FetchBlock { number: 2 });
}

#[test]
fn backfill_halts_when_the_node_cannot_be_reached() {
    let (flow, _) = Backfill::start(1, 9);
    let (flow, command) = flow.step(Reply::Failed);
    assert_eq!(command, Command::Stop(Outcome::TransportFailed));
    let (_, command) = flow.step(Reply::Block(None));
    assert_eq!(command, Command::Stop(Outcome::TransportFailed));
}

#[test]
fn backfill_halts_when_the_store_cannot_be_reached() {
    let (flow, _) = Backfill::start(1, 9);
    let (flow, _) = flow.step(Reply::Block(Some(block_of(1, 2))));
    let (flow, command) = flow.step(Reply::Stored);
    assert!(matches!(command, Command::StoreTransaction(_)));
    let (_, command) = flow.step(Reply::Failed);
    assert_eq!(command, Command::Stop(Outcome::TransportFailed));

    let (flow, _) = Backfill::start(1, 9);
    let (flow, _) = flow.step(Reply::Block(Some(block_of(1, 2))));
    let (_, command) = flow.step(Reply::Failed);
    assert_eq!(command, Command::Stop(Outcome::TransportFailed));
}

#[test]
fn backfill_rejects_a_reply_to_another_command() {
    let (flow, _) = Backfill::start(1, 9);
    let (_, command) = flow.step(Reply::Stored);
    assert_eq!(command, Command::Stop(Outcome::Unexpected));

    let (flow, _) = Backfill::start(1, 9);
    let (flow, _) = flow.step(Reply::Block(Some(block_of(1, 0))));
    let (_, command) = flow.step(Reply::Block(None));
    assert_eq!(command, Command::Stop(Outcome::Unexpected));

    let (flow, _) = Backfill::start(1, 9);
    let (_, command) = flow.step(Reply::Header(header_of(1)));
    assert_eq!(command, Command::Stop(Outcome::Unexpected));
}

#[test]
fn backfill_reports_a_block_without_bodies() {
    let block = RawBlock { header: header_of(3), transactions: None };
    let (flow, _) = Backfill::start(3, 4);
    let (flow, command) = flow.step(Reply::Block(Some(block)));
    assert_eq!(command, Command::StoreBlock(normalize_block(3, &header_of(3))));
    let (flow, command) = flow.step(Reply::Stored);
    assert_eq!(command, Command::Report(Notice::BodiesMissing { number: 3 }));
    let (_, command) = flow.step(Reply::Reported);
    assert_eq!(command, Command::FetchBlock { number: 4 });
}

#[test]
fn backfill_stays_finished() {
    let (flow, command) = Backfill::start(2, 1);
    assert_eq!(command, Command::Stop(Outcome::Completed));
    let (flow, command) = flow.step(Reply::Stored);
    assert_eq!(command, Command::Stop(Outcome::Completed));
    let (_, command) = flow.step(Reply::Failed);
    assert_eq!(command, Command::Stop(Outcome::Completed));
}

#[test]
fn backfill_keeps_list_order_when_indices_are_missing() {
    let mut first = transaction_at(0);
    first.transaction_index = None;
    first.nonce = 70;
    let mut second = transaction_at(0);
    second.transaction_index = None;
    second.nonce = 71;
    let block = RawBlock { header: header_of(8), transactions: Some(vec![first, second]) };
    let mut node = BTreeMap::new();
    node.insert(8, block);
    let commands = run_backfill(8, 8, &node);
    let nonces: Vec<u64> = commands
        .iter()
        .filter_map(|c| match c {
            Command::StoreTransaction(record) => Some(record.nonce),
            _ => None,
        })
        .collect();
    assert_eq!(nonces, vec![70, 71]);
    assert_eq!(transactions_written(&commands, 8), vec![0, 0]);
}
