use crate::raw::{RawBlock, RawHeader};
use crate::record::{BlockData, BlockDataView, TransactionData, TransactionDataView};
use crate::text::{decimal_text, u128_decimal};
use vstd::prelude::*;
use vstd::string::StringExecFns;

verus! {

/// Something worth telling the operator that is not a failure.
#[derive(Clone, Copy, Debug, PartialEq, Eq, Structural)]
pub enum Notice {
    /// The node holds no block under this number.
    BlockAbsent { number: u64 },
    /// The node answered for this number without transaction bodies.
    BodiesMissing { number: u64 },
}

/// Why a flow came to rest.
#[derive(Clone, Copy, Debug, PartialEq, Eq, Structural)]
pub enum Outcome {
    /// Every block number of the range was visited.
    Completed,
    /// The live feed was closed.
    FeedClosed,
    /// The live feed delivered a header without a block number.
    MissingNumber,
    /// The node or the store could not be reached.
    TransportFailed,
    /// The reply does not answer the command that was given.
    Unexpected,
}

/// What a flow asks its driver to do next. The driver carries out one
/// command at a time and hands back one [`Reply`].
#[derive(Clone, Debug, PartialEq, Eq)]
pub enum Command {
    /// Wait for the next header of the live feed.
    AwaitHeader,
    /// Look up the block under `number`, with full transaction bodies.
    FetchBlock { number: u64 },
    /// Write one block record to the store.
    StoreBlock(BlockData),
    /// Write one transaction record to the store.
    StoreTransaction(TransactionData),
    /// Tell the operator.
    Report(Notice),
    /// Nothing is left to do.
    Stop(Outcome),
}

/// What the driver observed when it carried out a command.
#[derive(Clone, Debug)]
pub enum Reply {
    /// The live feed delivered a header.
    Header(RawHeader),
    /// The live feed ended.
    FeedClosed,
    /// The node answered a lookup, with the block or with its absence.
    Block(Option<RawBlock>),
    /// The store accepted the record.
    Stored,
    /// The store answered, and refused the record.
    Rejected,
    /// The notice was delivered.
    Reported,
    /// The node or the store could not be reached.
    Failed,
}

/// A [`Command`] with each record as its view.
pub enum CommandView {
    AwaitHeader,
    FetchBlock { number: u64 },
    StoreBlock(BlockDataView),
    StoreTransaction(TransactionDataView),
    Report(Notice),
    Stop(Outcome),
}

impl View for Command {
    type V = CommandView;

    open spec fn view(&self) -> CommandView {
        match *self {
            Command::AwaitHeader => CommandView::AwaitHeader,
            Command::FetchBlock { number } => CommandView::FetchBlock { number },
            Command::StoreBlock(record) => CommandView::StoreBlock(record@),
            Command::StoreTransaction(record) => CommandView::StoreTransaction(record@),
            Command::Report(notice) => CommandView::Report(notice),
            Command::Stop(outcome) => CommandView::Stop(outcome),
        }
    }
}

impl CommandView {
    /// The block number that a command is about.
    pub open spec fn about(self) -> Option<u64> {
        match self {
            CommandView::FetchBlock { number } => Some(number),
            CommandView::StoreBlock(record) => Some(record.block_number),
            CommandView::StoreTransaction(record) => Some(record.block_number),
            CommandView::Report(notice) => Some(notice.number_spec()),
            _ => None,
        }
    }

    /// Whether the command writes a record that belongs to block `number`.
    pub open spec fn stores_for(self, number: u64) -> bool {
        match self {
            CommandView::StoreBlock(record) => record.block_number == number,
            CommandView::StoreTransaction(record) => record.block_number == number,
            _ => false,
        }
    }
}

impl Notice {
    /// The block number that the notice is about.
    pub open spec fn number_spec(self) -> u64 {
        match self {
            Notice::BlockAbsent { number } => number,
            Notice::BodiesMissing { number } => number,
        }
    }

    /// The words of the notice.
    pub open spec fn message_spec(self) -> Seq<char> {
        match self {
            Notice::BlockAbsent { number } => "Block "@ + decimal_text(number as nat)
                + " not found"@,
            Notice::BodiesMissing { number } => "No full transactions found in block "@
                + decimal_text(number as nat),
        }
    }

    /// The words in which the notice is told to the operator.
    pub fn message(&self) -> (text: String)
        ensures
            text@ == self.message_spec(),
    {
        match self {
            Notice::BlockAbsent { number } => {
                let digits = u128_decimal(*number as u128);
                String::from_str("Block ").concat(digits.as_str()).concat(" not found")
            },
            Notice::BodiesMissing { number } => {
                let digits = u128_decimal(*number as u128);
                String::from_str("No full transactions found in block ").concat(digits.as_str())
            },
        }
    }
}

} // verus!
