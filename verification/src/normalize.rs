use crate::raw::{RawHeader, RawTransaction};
use crate::record::{BlockData, BlockDataView, TransactionData, TransactionDataView};
use crate::text::{
    address_hex, be_value, bloom_hex, bytes_hex, decimal_text, decimal_value, fixed_bytes_hex,
    hex_text, lemma_decimal_round_trip, u128_decimal, u256_decimal,
};
use vstd::prelude::*;

verus! {

/// A string of `len` zero bytes: what stands for a hash or nonce that the
/// node left out.
pub open spec fn zero_bytes(len: nat) -> Seq<u8> {
    Seq::new(len, |i: int| 0u8)
}

/// The bytes of an optional fixed-width field, all zero when it is absent.
pub open spec fn bytes_or_zero<const N: usize>(field: Option<[u8; N]>) -> Seq<u8> {
    match field {
        Some(bytes) => bytes@,
        None => zero_bytes(N as nat),
    }
}

/// The stored text of an optional 256-bit integer.
pub open spec fn optional_wide_decimal(field: Option<[u8; 32]>) -> Option<Seq<char>> {
    match field {
        Some(bytes) => Some(decimal_text(be_value(bytes@))),
        None => None,
    }
}

/// The stored text of an optional 128-bit integer.
pub open spec fn optional_decimal(field: Option<u128>) -> Option<Seq<char>> {
    match field {
        Some(v) => Some(decimal_text(v as nat)),
        None => None,
    }
}

/// The record that a header is stored as, under the block number `number`.
pub open spec fn block_record(number: u64, header: RawHeader) -> BlockDataView {
    BlockDataView {
        block_number: number,
        block_hash: hex_text(bytes_or_zero(header.hash)),
        parent_hash: hex_text(header.parent_hash@),
        nonce: hex_text(bytes_or_zero(header.nonce)),
        logs_bloom: hex_text(header.logs_bloom@),
        transactions_root: hex_text(header.transactions_root@),
        state_root: hex_text(header.state_root@),
        receipts_root: hex_text(header.receipts_root@),
        miner: hex_text(header.miner@),
        difficulty: decimal_text(be_value(header.difficulty@)),
        total_difficulty: optional_wide_decimal(header.total_difficulty),
        extra_data: match header.extra_data {
            Some(bytes) => Some(hex_text(bytes@)),
            None => None,
        },
        gas_limit: header.gas_limit,
        gas_used: header.gas_used,
    }
}

/// The record that a transaction of block `number` is stored as.
pub open spec fn transaction_record(number: u64, tx: RawTransaction) -> TransactionDataView {
    TransactionDataView {
        block_number: number,
        transaction_hash: hex_text(tx.hash@),
        from: hex_text(tx.from@),
        to: match tx.to {
            Some(address) => Some(hex_text(address@)),
            None => None,
        },
        value: decimal_text(be_value(tx.value@)),
        gas: tx.gas,
        gas_price: optional_decimal(tx.gas_price),
        input: hex_text(tx.input@),
        nonce: tx.nonce,
        transaction_index: tx.index(),
        max_fee_per_gas: optional_decimal(tx.max_fee_per_gas),
        max_priority_fee_per_gas: optional_decimal(tx.max_priority_fee_per_gas),
        chain_id: match tx.chain_id {
            Some(id) => Some(decimal_text(id as nat)),
            None => None,
        },
    }
}

/// Renders an optional hash-like field, taking all zero bytes for an absent one.
fn hex_or_zero<const N: usize>(field: &Option<[u8; N]>) -> (text: String)
    ensures
        text@ == hex_text(bytes_or_zero(*field)),
{
    match field {
        Some(bytes) => fixed_bytes_hex(bytes),
        None => {
            let zero: [u8; N] = [0u8; N];
            assert(zero@ =~= zero_bytes(N as nat));
            fixed_bytes_hex(&zero)
        },
    }
}

/// Renders an optional 128-bit quantity in decimal, keeping absence.
fn decimal_if_present(field: Option<u128>) -> (text: Option<String>)
    ensures
        crate::record::optional_text(text) == optional_decimal(field),
{
    match field {
        Some(v) => Some(u128_decimal(v)),
        None => None,
    }
}

/// Builds the stored record of a block from its header, under `number`.
pub fn normalize_block(number: u64, header: &RawHeader) -> (record: BlockData)
    ensures
        record@ == block_record(number, *header),
{
    let total_difficulty = match &header.total_difficulty {
        Some(bytes) => Some(u256_decimal(bytes)),
        None => None,
    };
    let extra_data = match &header.extra_data {
        Some(bytes) => Some(bytes_hex(bytes)),
        None => None,
    };
    BlockData {
        block_number: number,
        block_hash: hex_or_zero(&header.hash),
        parent_hash: fixed_bytes_hex(&header.parent_hash),
        nonce: hex_or_zero(&header.nonce),
        logs_bloom: bloom_hex(&header.logs_bloom),
        transactions_root: fixed_bytes_hex(&header.transactions_root),
        state_root: fixed_bytes_hex(&header.state_root),
        receipts_root: fixed_bytes_hex(&header.receipts_root),
        miner: address_hex(&header.miner),
        difficulty: u256_decimal(&header.difficulty),
        total_difficulty,
        extra_data,
        gas_limit: header.gas_limit,
        gas_used: header.gas_used,
    }
}

/// Builds the stored record of a header that carries its own block number.
/// A header without one yields no record.
pub fn normalize_header(header: &RawHeader) -> (record: Option<BlockData>)
    ensures
        record is Some <==> header.number is Some,
        record matches Some(r) ==> r@ == block_record(header.number->0, *header),
{
    match header.number {
        Some(number) => Some(normalize_block(number, header)),
        None => None,
    }
}

/// Builds the stored record of a transaction of block `number`.
pub fn normalize_transaction(number: u64, tx: &RawTransaction) -> (record: TransactionData)
    ensures
        record@ == transaction_record(number, *tx),
{
    let to = match &tx.to {
        Some(address) => Some(address_hex(address)),
        None => None,
    };
    let chain_id = match tx.chain_id {
        Some(id) => Some(u128_decimal(id as u128)),
        None => None,
    };
    let transaction_index = match tx.transaction_index {
        Some(i) => i,
        None => 0,
    };
    TransactionData {
        block_number: number,
        transaction_hash: fixed_bytes_hex(&tx.hash),
        from: address_hex(&tx.from),
        to,
        value: u256_decimal(&tx.value),
        gas: tx.gas,
        gas_price: decimal_if_present(tx.gas_price),
        input: bytes_hex(&tx.input),
        nonce: tx.nonce,
        transaction_index,
        max_fee_per_gas: decimal_if_present(tx.max_fee_per_gas),
        max_priority_fee_per_gas: decimal_if_present(tx.max_priority_fee_per_gas),
        chain_id,
    }
}

/// A transaction without a recipient is stored with an absent recipient,
/// and one with a recipient is stored with that recipient's text, which is
/// never empty.
pub proof fn lemma_recipient_kept(number: u64, tx: RawTransaction)
    ensures
        transaction_record(number, tx).to is None <==> tx.to is None,
        tx.to matches Some(address) ==> transaction_record(number, tx).to == Some(
            hex_text(address@),
        ) && hex_text(address@).len() == 42,
{
}

/// Hashes, roots, addresses, the nonce and the bloom filter are stored at
/// the fixed width of their kind: two characters for each byte behind the
/// `0x` prefix.
pub proof fn lemma_fixed_width(number: u64, header: RawHeader, tx: RawTransaction)
    ensures
        block_record(number, header).block_hash.len() == 66,
        block_record(number, header).parent_hash.len() == 66,
        block_record(number, header).transactions_root.len() == 66,
        block_record(number, header).state_root.len() == 66,
        block_record(number, header).receipts_root.len() == 66,
        block_record(number, header).miner.len() == 42,
        block_record(number, header).nonce.len() == 18,
        block_record(number, header).logs_bloom.len() == 514,
        transaction_record(number, tx).transaction_hash.len() == 66,
        transaction_record(number, tx).from.len() == 42,
        transaction_record(number, tx).to matches Some(text) ==> text.len() == 42,
{
}

/// Optional fields keep their presence: each is stored absent exactly when
/// the source lacks it.
pub proof fn lemma_absence_kept(number: u64, header: RawHeader, tx: RawTransaction)
    ensures
        block_record(number, header).total_difficulty is None <==> header.total_difficulty is None,
        block_record(number, header).extra_data is None <==> header.extra_data is None,
        transaction_record(number, tx).gas_price is None <==> tx.gas_price is None,
        transaction_record(number, tx).max_fee_per_gas is None <==> tx.max_fee_per_gas is None,
        transaction_record(number, tx).max_priority_fee_per_gas is None
            <==> tx.max_priority_fee_per_gas is None,
        transaction_record(number, tx).chain_id is None <==> tx.chain_id is None,
        transaction_record(number, tx).to is None <==> tx.to is None,
{
}

/// The stored value of a transaction, read as a decimal numeral, is the
/// transferred amount, whatever its size.
pub proof fn lemma_value_fidelity(number: u64, tx: RawTransaction)
    ensures
        decimal_value(transaction_record(number, tx).value) == be_value(tx.value@),
{
    lemma_decimal_round_trip(be_value(tx.value@));
}

} // verus!
