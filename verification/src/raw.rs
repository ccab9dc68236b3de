use vstd::prelude::*;

verus! {

/// A block header as the chain node reports it, reduced to the fields that
/// are stored. Hashes, roots and addresses are raw bytes; the two
/// difficulties are 256-bit integers given as 32 big-endian bytes.
#[derive(Clone, Debug)]
pub struct RawHeader {
    pub number: Option<u64>,
    pub hash: Option<[u8; 32]>,
    pub parent_hash: [u8; 32],
    pub nonce: Option<[u8; 8]>,
    pub logs_bloom: [u8; 256],
    pub transactions_root: [u8; 32],
    pub state_root: [u8; 32],
    pub receipts_root: [u8; 32],
    pub miner: [u8; 20],
    pub difficulty: [u8; 32],
    pub total_difficulty: Option<[u8; 32]>,
    pub extra_data: Option<Vec<u8>>,
    pub gas_limit: u128,
    pub gas_used: u128,
}

/// A transaction as the chain node reports it inside a full block. The
/// value is a 256-bit integer given as 32 big-endian bytes.
#[derive(Clone, Debug)]
pub struct RawTransaction {
    pub hash: [u8; 32],
    pub from: [u8; 20],
    pub to: Option<[u8; 20]>,
    pub value: [u8; 32],
    pub gas: u128,
    pub gas_price: Option<u128>,
    pub input: Vec<u8>,
    pub nonce: u64,
    pub transaction_index: Option<u64>,
    pub max_fee_per_gas: Option<u128>,
    pub max_priority_fee_per_gas: Option<u128>,
    pub chain_id: Option<u64>,
}

/// A block returned by a point lookup. `transactions` is `None` when the
/// node answered without transaction bodies.
#[derive(Clone, Debug)]
pub struct RawBlock {
    pub header: RawHeader,
    pub transactions: Option<Vec<RawTransaction>>,
}

impl RawTransaction {
    /// The index under which the transaction is stored: the one the node
    /// supplied, or zero when it supplied none.
    pub open spec fn index(self) -> u64 {
        match self.transaction_index {
            Some(i) => i,
            None => 0,
        }
    }
}

impl RawBlock {
    /// The transaction bodies of the block, empty when none were supplied.
    pub open spec fn bodies(self) -> Seq<RawTransaction> {
        match self.transactions {
            Some(list) => list@,
            None => Seq::empty(),
        }
    }

    /// Whether the stored indices of the block's transactions strictly
    /// increase along the list.
    pub open spec fn indexed_in_order(self) -> bool {
        forall|i: int, j: int|
            0 <= i < j < self.bodies().len() ==> (#[trigger] self.bodies()[i]).index() < (
            #[trigger] self.bodies()[j]).index()
    }
}

} // verus!
