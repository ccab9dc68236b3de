use block_sync::engine::{Command, Notice, Outcome, Reply};
use block_sync::live::Live;
use block_sync::normalize::{normalize_block, normalize_transaction};
use block_sync::raw::{RawBlock, RawHeader, RawTransaction};

fn live_header(number: Option<u64>) -> RawHeader {
    RawHeader {
        number,
        hash: Some([0x77; 32]),
        parent_hash: [0x66; 32],
        nonce: None,
        logs_bloom: [0; 256],
        transactions_root: [0; 32],
        state_root: [0; 32],
        receipts_root: [0; 32],
        miner: [9; 20],
        difficulty: [0; 32],
        total_difficulty: None,
        extra_data: Some(vec![1, 2, 3]),
        gas_limit: 30_000_000,
        gas_used: 42_000,
    }
}

fn live_transaction(index: u64) -> RawTransaction {
    RawTransaction {
        hash: [index as u8; 32],
        from: [1; 20],
        to: None,
        value: [0; 32],
        gas: 21_000,
        gas_price: Some(5),
        input: vec![index as u8],
        nonce: 0,
        transaction_index: Some(index),
        max_fee_per_gas: None,
        max_priority_fee_per_gas: None,
        chain_id: Some(1),
    }
}

#[test]
fn live_header_with_two_transactions() {
    let header = live_header(Some(500));
    let block = RawBlock {
        header: header.clone(),
        transactions: Some(vec![live_transaction(0), live_transaction(1)]),
    };
    let (flow, command) = Live::start();
    assert_eq!(command, Command::AwaitHeader);
    let (flow, command) = flow.step(Reply::Header(header.clone()));
    assert_eq!(command, Command::StoreBlock(normalize_block(500, &header)));
    match &command {
        Command::StoreBlock(record) => assert_eq!(record.block_number, 500),
        other => panic!("expected a block record, got {:?}", other),
    }
    let (flow, command) = flow.step(Reply::Stored);
    assert_eq!(command, Command::FetchBlock { number: 500 });
    let (flow, command) = flow.step(Reply::Block(Some(block)));
    assert_eq!(command, Command::StoreTransaction(normalize_transaction(500, &live_transaction(0))));
    match &command {
        Command::StoreTransaction(record) => {
            assert_eq!(record.block_number, 500);
            assert_eq!(record.transaction_index, 0);
        },
        other => panic!("expected a transaction record, got {:?}", other),
    }
    let (flow, command) = flow.step(Reply::Stored);
    match &command {
        Command::StoreTransaction(record) => {
            assert_eq!(record.block_number, 500);
            assert_eq!(record.transaction_index, 1);
        },
        other => panic!("expected a transaction record, got {:?}", other),
    }
    let (_, command) = flow.step(Reply::Stored);
    assert_eq!(command, Command::AwaitHeader);
}

#[test]
fn live_header_without_number_ends_the_flow_before_any_write() {
    let (flow, _) = Live::start();
    let (flow, command) = flow.step(Reply::Header(live_header(None)));
    assert_eq!(command, Command::Stop(Outcome::MissingNumber));
    let (_, command) = flow.step(Reply::Header(live_header(Some(1))));
    assert_eq!(command, Command::Stop(Outcome::MissingNumber));
}

#[test]
fn live_ends_when_the_feed_closes() {
    let (flow, _) = Live::start();
    let (_, command) = flow.step(Reply::FeedClosed);
    assert_eq!(command, Command::Stop(Outcome::FeedClosed));
}

#[test]
fn live_ends_when_the_node_or_store_cannot_be_reached() {
    let (flow, _) = Live::start();
    let (_, command) = flow.step(Reply::Failed);
    assert_eq!(command, Command::Stop(Outcome::TransportFailed));

    let (flow, _) = Live::start();
    let (flow, _) = flow.step(Reply::Header(live_header(Some(3))));
    let (_, command) = flow.step(Reply::Failed);
    assert_eq!(command, Command::Stop(Outcome::TransportFailed));

    let (flow, _) = Live::start();
    let (flow, _) = flow.step(Reply::Header(live_header(Some(3))));
    let (flow, _) = flow.step(Reply::Stored);
    let (_, command) = flow.step(Reply::Failed);
    assert_eq!(command, Command::Stop(Outcome::TransportFailed));
}

#[test]
fn live_goes_on_after_a_refused_block_record() {
    let (flow, _) = Live::start();
    let (flow, _) = flow.step(Reply::Header(live_header(Some(3))));
    let (_, command) = flow.step(Reply::Rejected);
    assert_eq!(command, Command::FetchBlock { number: 3 });
}

#[test]
fn live_reports_a_block_that_the_lookup_does_not_find() {
    let (flow, _) = Live::start();
    let (flow, _) = flow.step(Reply::Header(live_header(Some(8))));
    let (flow, _) = flow.step(Reply::Stored);
    let (flow, command) = flow.step(Reply::Block(None));
    assert_eq!(command, Command::Report(Notice::BlockAbsent { number: 8 }));
    let (_, command) = flow.step(Reply::Reported);
    assert_eq!(command, Command::AwaitHeader);
}

#[test]
fn live_reports_a_block_without_bodies() {
    let block = RawBlock { header: live_header(Some(8)), transactions: None };
    let (flow, _) = Live::start();
    let (flow, _) = flow.step(Reply::Header(live_header(Some(8))));
    let (flow, _) = flow.step(Reply::Stored);
    let (flow, command) = flow.step(Reply::Block(Some(block)));
    assert_eq!(command, Command::Report(Notice::BodiesMissing { number: 8 }));
    let (_, command) = flow.step(Reply::Reported);
    assert_eq!(command, Command::AwaitHeader);
}

#[test]
fn live_block_without_transactions_returns_to_the_feed() {
    let block = RawBlock { header: live_header(Some(8)), transactions: Some(Vec::new()) };
    let (flow, _) = Live::start();
    let (flow, _) = flow.step(Reply::Header(live_header(Some(8))));
    let (flow, _) = flow.step(Reply::Stored);
    let (_, command) = flow.step(Reply::Block(Some(block)));
    assert_eq!(command, Command::AwaitHeader);
}

#[test]
fn live_rejects_a_reply_to_another_command() {
    let (flow, _) = Live::start();
    let (_, command) = flow.step(Reply::Stored);
    assert_eq!(command, Command::Stop(Outcome::Unexpected));

    let (flow, _) = Live::start();
    let (flow, _) = flow.step(Reply::Header(live_header(Some(8))));
    let (_, command) = flow.step(Reply::Header(live_header(Some(9))));
    assert_eq!(command, Command::Stop(Outcome::Unexpected));
}

#[test]
fn live_handles_one_header_after_another() {
    let (mut flow, mut command) = Live::start();
    let mut written = Vec::new();
    for number in [20u64, 21, 22] {
        assert_eq!(command, Command::AwaitHeader);
        (flow, command) = flow.step(Reply::Header(live_header(Some(number))));
        loop {
            let reply = match &command {
                Command::StoreBlock(record) => {
                    written.push((record.block_number, None));
                    Reply::Stored
                },
                Command::StoreTransaction(record) => {
                    written.push((record.block_number, Some(record.transaction_index)));
                    Reply::Stored
                },
                Command::FetchBlock { number } => Reply::Block(Some(RawBlock {
                    header: live_header(Some(*number)),
                    transactions: Some(vec![live_transaction(0)]),
                })),
                _ => break,
            };
            (flow, command) = flow.step(reply);
        }
    }
    assert_eq!(
        written,
        vec![
            (20, None),
            (20, Some(0)),
            (21, None),
            (21, Some(0)),
            (22, None),
            (22, Some(0)),
        ]
    );
    let (_, command) = flow.step(Reply::FeedClosed);
    assert_eq!(command, Command::Stop(Outcome::FeedClosed));
}
