use crate::engine::{Command, CommandView, Notice, Outcome, Reply};
use crate::normalize::{block_record, normalize_block, normalize_transaction, transaction_record};
use crate::raw::RawTransaction;
use vstd::prelude::*;

verus! {

/// Where a backfill stands: what its last command was about.
#[derive(Clone, Debug)]
pub enum BackfillPhase {
    /// The block under `number` is being looked up.
    Fetching { number: u64 },
    /// The record of block `number` is being written; its transactions wait.
    StoringBlock { number: u64, transactions: Option<Vec<RawTransaction>> },
    /// The transaction at `position` of block `number` is being written.
    StoringTransaction { number: u64, bodies: Vec<RawTransaction>, position: usize },
    /// A notice about block `number` is being delivered.
    Reporting { number: u64 },
    /// The flow is over.
    Finished(Outcome),
}

/// A bounded pass over the block numbers up to `end`, one block at a time.
#[derive(Clone, Debug)]
pub struct Backfill {
    pub end: u64,
    pub phase: BackfillPhase,
}

impl Backfill {
    /// The flow at rest, with the command that says so.
    pub open spec fn halt_spec(end: u64, outcome: Outcome) -> (Backfill, CommandView) {
        (Backfill { end, phase: BackfillPhase::Finished(outcome) }, CommandView::Stop(outcome))
    }

    /// The flow once block `number` is dealt with: on to the next number, or
    /// done after `end`.
    pub open spec fn advance_spec(end: u64, number: u64) -> (Backfill, CommandView) {
        if number < end {
            let next = (number + 1) as u64;
            (
                Backfill { end, phase: BackfillPhase::Fetching { number: next } },
                CommandView::FetchBlock { number: next },
            )
        } else {
            Self::halt_spec(end, Outcome::Completed)
        }
    }

    /// The flow about to write the transaction at `position` of block
    /// `number`, or past the block when no transaction is left.
    pub open spec fn deliver_spec(
        end: u64,
        number: u64,
        bodies: Vec<RawTransaction>,
        position: usize,
    ) -> (Backfill, CommandView) {
        if position < bodies.len() {
            (
                Backfill {
                    end,
                    phase: BackfillPhase::StoringTransaction { number, bodies, position },
                },
                CommandView::StoreTransaction(transaction_record(number, bodies@[position as int])),
            )
        } else {
            Self::advance_spec(end, number)
        }
    }

    /// The flow at its start, with its first command: the lookup of
    /// `start`, or nothing at all when the range is empty.
    pub open spec fn start_spec(start: u64, end: u64) -> (Backfill, CommandView) {
        if start <= end {
            (
                Backfill { end, phase: BackfillPhase::Fetching { number: start } },
                CommandView::FetchBlock { number: start },
            )
        } else {
            Self::halt_spec(end, Outcome::Completed)
        }
    }

    /// The flow after `reply` has answered its last command, with its next
    /// command.
    ///
    /// A found block has its record written, then its transactions in list
    /// order; an absent block is reported and passed over; a refusal by the
    /// store does not hold the flow up; a failure to reach the node or the
    /// store ends it, and so does a reply that answers another command.
    pub open spec fn step_spec(self, reply: Reply) -> (Backfill, CommandView) {
        match self.phase {
            BackfillPhase::Fetching { number } => match reply {
                Reply::Block(Some(block)) => (
                    Backfill {
                        end: self.end,
                        phase: BackfillPhase::StoringBlock {
                            number,
                            transactions: block.transactions,
                        },
                    },
                    CommandView::StoreBlock(block_record(number, block.header)),
                ),
                Reply::Block(None) => (
                    Backfill { end: self.end, phase: BackfillPhase::Reporting { number } },
                    CommandView::Report(Notice::BlockAbsent { number }),
                ),
                Reply::Failed => Self::halt_spec(self.end, Outcome::TransportFailed),
                _ => Self::halt_spec(self.end, Outcome::Unexpected),
            },
            BackfillPhase::StoringBlock { number, transactions } => match reply {
                Reply::Stored | Reply::Rejected => match transactions {
                    Some(bodies) => Self::deliver_spec(self.end, number, bodies, 0),
                    None => (
                        Backfill { end: self.end, phase: BackfillPhase::Reporting { number } },
                        CommandView::Report(Notice::BodiesMissing { number }),
                    ),
                },
                Reply::Failed => Self::halt_spec(self.end, Outcome::TransportFailed),
                _ => Self::halt_spec(self.end, Outcome::Unexpected),
            },
            BackfillPhase::StoringTransaction { number, bodies, position } => match reply {
                Reply::Stored | Reply::Rejected => if position < bodies.len() {
                    Self::deliver_spec(self.end, number, bodies, (position + 1) as usize)
                } else {
                    Self::advance_spec(self.end, number)
                },
                Reply::Failed => Self::halt_spec(self.end, Outcome::TransportFailed),
                _ => Self::halt_spec(self.end, Outcome::Unexpected),
            },
            BackfillPhase::Reporting { number } => match reply {
                Reply::Reported => Self::advance_spec(self.end, number),
                Reply::Failed => Self::halt_spec(self.end, Outcome::TransportFailed),
                _ => Self::halt_spec(self.end, Outcome::Unexpected),
            },
            BackfillPhase::Finished(outcome) => Self::halt_spec(self.end, outcome),
        }
    }

    fn halt(end: u64, outcome: Outcome) -> (next: (Backfill, Command))
        ensures
            next.0 == Self::halt_spec(end, outcome).0,
            next.1@ == Self::halt_spec(end, outcome).1,
    {
        (Backfill { end, phase: BackfillPhase::Finished(outcome) }, Command::Stop(outcome))
    }

    fn advance(end: u64, number: u64) -> (next: (Backfill, Command))
        ensures
            next.0 == Self::advance_spec(end, number).0,
            next.1@ == Self::advance_spec(end, number).1,
    {
        if number < end {
            let following: u64 = number + 1;
            (
                Backfill { end, phase: BackfillPhase::Fetching { number: following } },
                Command::FetchBlock { number: following },
            )
        } else {
            Self::halt(end, Outcome::Completed)
        }
    }

    fn deliver(end: u64, number: u64, bodies: Vec<RawTransaction>, position: usize) -> (next: (
        Backfill,
        Command,
    ))
        ensures
            next.0 == Self::deliver_spec(end, number, bodies, position).0,
            next.1@ == Self::deliver_spec(end, number, bodies, position).1,
    {
        if position < bodies.len() {
            let record = normalize_transaction(number, &bodies[position]);
            (
                Backfill {
                    end,
                    phase: BackfillPhase::StoringTransaction { number, bodies, position },
                },
                Command::StoreTransaction(record),
            )
        } else {
            Self::advance(end, number)
        }
    }

    /// Begins a backfill of the closed range from `start` to `end` and gives
    /// its first command.
    pub fn start(start: u64, end: u64) -> (next: (Backfill, Command))
        ensures
            next.0 == Self::start_spec(start, end).0,
            next.1@ == Self::start_spec(start, end).1,
    {
        if start <= end {
            (
                Backfill { end, phase: BackfillPhase::Fetching { number: start } },
                Command::FetchBlock { number: start },
            )
        } else {
            Self::halt(end, Outcome::Completed)
        }
    }

    /// Takes the reply to the last command and gives the next command.
    pub fn step(self, reply: Reply) -> (next: (Backfill, Command))
        ensures
            next.0 == self.step_spec(reply).0,
            next.1@ == self.step_spec(reply).1,
    {
        let end = self.end;
        match self.phase {
            BackfillPhase::Fetching { number } => match reply {
                Reply::Block(Some(block)) => {
                    let record = normalize_block(number, &block.header);
                    (
                        Backfill {
                            end,
                            phase: BackfillPhase::StoringBlock {
                                number,
                                transactions: block.transactions,
                            },
                        },
                        Command::StoreBlock(record),
                    )
                },
                Reply::Block(None) => (
                    Backfill { end, phase: BackfillPhase::Reporting { number } },
                    Command::Report(Notice::BlockAbsent { number }),
                ),
                Reply::Failed => Self::halt(end, Outcome::TransportFailed),
                _ => Self::halt(end, Outcome::Unexpected),
            },
            BackfillPhase::StoringBlock { number, transactions } => match reply {
                Reply::Stored | Reply::Rejected => match transactions {
                    Some(bodies) => Self::deliver(end, number, bodies, 0),
                    None => (
                        Backfill { end, phase: BackfillPhase::Reporting { number } },
                        Command::Report(Notice::BodiesMissing { number }),
                    ),
                },
                Reply::Failed => Self::halt(end, Outcome::TransportFailed),
                _ => Self::halt(end, Outcome::Unexpected),
            },
            BackfillPhase::StoringTransaction { number, bodies, position } => match reply {
                Reply::Stored | Reply::Rejected => if position < bodies.len() {
                    Self::deliver(end, number, bodies, position + 1)
                } else {
                    Self::advance(end, number)
                },
                Reply::Failed => Self::halt(end, Outcome::TransportFailed),
                _ => Self::halt(end, Outcome::Unexpected),
            },
            BackfillPhase::Reporting { number } => match reply {
                Reply::Reported => Self::advance(end, number),
                Reply::Failed => Self::halt(end, Outcome::TransportFailed),
                _ => Self::halt(end, Outcome::Unexpected),
            },
            BackfillPhase::Finished(outcome) => Self::halt(end, outcome),
        }
    }
}

} // verus!
