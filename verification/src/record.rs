use vstd::prelude::*;

verus! {

/// The stored form of one block.
#[derive(Clone, Debug, PartialEq, Eq)]
pub struct BlockData {
    pub block_number: u64,
    pub block_hash: String,
    pub parent_hash: String,
    pub nonce: String,
    pub logs_bloom: String,
    pub transactions_root: String,
    pub state_root: String,
    pub receipts_root: String,
    pub miner: String,
    pub difficulty: String,
    pub total_difficulty: Option<String>,
    pub extra_data: Option<String>,
    pub gas_limit: u128,
    pub gas_used: u128,
}

/// The stored form of one transaction.
#[derive(Clone, Debug, PartialEq, Eq)]
pub struct TransactionData {
    pub block_number: u64,
    pub transaction_hash: String,
    pub from: String,
    pub to: Option<String>,
    pub value: String,
    pub gas: u128,
    pub gas_price: Option<String>,
    pub input: String,
    pub nonce: u64,
    pub transaction_index: u64,
    pub max_fee_per_gas: Option<String>,
    pub max_priority_fee_per_gas: Option<String>,
    pub chain_id: Option<String>,
}

/// What a [`BlockData`] holds, with each text as its characters.
pub struct BlockDataView {
    pub block_number: u64,
    pub block_hash: Seq<char>,
    pub parent_hash: Seq<char>,
    pub nonce: Seq<char>,
    pub logs_bloom: Seq<char>,
    pub transactions_root: Seq<char>,
    pub state_root: Seq<char>,
    pub receipts_root: Seq<char>,
    pub miner: Seq<char>,
    pub difficulty: Seq<char>,
    pub total_difficulty: Option<Seq<char>>,
    pub extra_data: Option<Seq<char>>,
    pub gas_limit: u128,
    pub gas_used: u128,
}

/// What a [`TransactionData`] holds, with each text as its characters.
pub struct TransactionDataView {
    pub block_number: u64,
    pub transaction_hash: Seq<char>,
    pub from: Seq<char>,
    pub to: Option<Seq<char>>,
    pub value: Seq<char>,
    pub gas: u128,
    pub gas_price: Option<Seq<char>>,
    pub input: Seq<char>,
    pub nonce: u64,
    pub transaction_index: u64,
    pub max_fee_per_gas: Option<Seq<char>>,
    pub max_priority_fee_per_gas: Option<Seq<char>>,
    pub chain_id: Option<Seq<char>>,
}

/// The characters of an optional text.
pub open spec fn optional_text(text: Option<String>) -> Option<Seq<char>> {
    match text {
        Some(t) => Some(t@),
        None => None,
    }
}

impl View for BlockData {
    type V = BlockDataView;

    open spec fn view(&self) -> BlockDataView {
        BlockDataView {
            block_number: self.block_number,
            block_hash: self.block_hash@,
            parent_hash: self.parent_hash@,
            nonce: self.nonce@,
            logs_bloom: self.logs_bloom@,
            transactions_root: self.transactions_root@,
            state_root: self.state_root@,
            receipts_root: self.receipts_root@,
            miner: self.miner@,
            difficulty: self.difficulty@,
            total_difficulty: optional_text(self.total_difficulty),
            extra_data: optional_text(self.extra_data),
            gas_limit: self.gas_limit,
            gas_used: self.gas_used,
        }
    }
}

impl View for TransactionData {
    type V = TransactionDataView;

    open spec fn view(&self) -> TransactionDataView {
        TransactionDataView {
            block_number: self.block_number,
            transaction_hash: self.transaction_hash@,
            from: self.from@,
            to: optional_text(self.to),
            value: self.value@,
            gas: self.gas,
            gas_price: optional_text(self.gas_price),
            input: self.input@,
            nonce: self.nonce,
            transaction_index: self.transaction_index,
            max_fee_per_gas: optional_text(self.max_fee_per_gas),
            max_priority_fee_per_gas: optional_text(self.max_priority_fee_per_gas),
            chain_id: optional_text(self.chain_id),
        }
    }
}

} // verus!
