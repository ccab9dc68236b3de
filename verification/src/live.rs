use crate::engine::{Command, CommandView, Notice, Outcome, Reply};
use crate::normalize::{block_record, normalize_block, normalize_transaction, transaction_record};
use crate::raw::RawTransaction;
use vstd::prelude::*;

verus! {

/// What a subscribed flow is busy with: what its last command was about.
#[derive(Clone, Debug)]
pub enum Activity {
    /// The next header of the feed is awaited.
    Awaiting,
    /// The record of block `number`, built from its header, is being written.
    StoringBlock { number: u64 },
    /// The full block under `number` is being looked up.
    Fetching { number: u64 },
    /// The transaction at `position` of block `number` is being written.
    StoringTransaction { number: u64, bodies: Vec<RawTransaction>, position: usize },
    /// A notice about block `number` is being delivered.
    Reporting { number: u64 },
}

/// The flow that follows the chain as it grows. It holds an open feed while
/// `Subscribed` and never completes by itself: it ends when the feed does,
/// or on a failure.
#[derive(Clone, Debug)]
pub enum Live {
    Subscribed(Activity),
    Terminated(Outcome),
}

impl Live {
    /// The flow at rest, with the command that says so.
    pub open spec fn halt_spec(outcome: Outcome) -> (Live, CommandView) {
        (Live::Terminated(outcome), CommandView::Stop(outcome))
    }

    /// The flow waiting for the next header: at its start, and whenever a
    /// block is dealt with.
    pub open spec fn await_spec() -> (Live, CommandView) {
        (Live::Subscribed(Activity::Awaiting), CommandView::AwaitHeader)
    }

    /// The flow about to write the transaction at `position` of block
    /// `number`, or waiting for the next header when no transaction is left.
    pub open spec fn deliver_spec(number: u64, bodies: Vec<RawTransaction>, position: usize) -> (
        Live,
        CommandView,
    ) {
        if position < bodies.len() {
            (
                Live::Subscribed(Activity::StoringTransaction { number, bodies, position }),
                CommandView::StoreTransaction(transaction_record(number, bodies@[position as int])),
            )
        } else {
            Self::await_spec()
        }
    }

    /// The flow after `reply` has answered its last command, with its next
    /// command.
    ///
    /// A header has its record written under the number it carries, then
    /// the full block is looked up under that number and its transactions
    /// are written in list order. A header without a number ends the flow
    /// before anything is written for it. A refusal by the store does not
    /// hold the flow up; a failure to reach the node or the store ends it,
    /// and so does a reply that answers another command.
    pub open spec fn step_spec(self, reply: Reply) -> (Live, CommandView) {
        match self {
            Live::Subscribed(Activity::Awaiting) => match reply {
                Reply::Header(header) => match header.number {
                    Some(number) => (
                        Live::Subscribed(Activity::StoringBlock { number }),
                        CommandView::StoreBlock(block_record(number, header)),
                    ),
                    None => Self::halt_spec(Outcome::MissingNumber),
                },
                Reply::FeedClosed => Self::halt_spec(Outcome::FeedClosed),
                Reply::Failed => Self::halt_spec(Outcome::TransportFailed),
                _ => Self::halt_spec(Outcome::Unexpected),
            },
            Live::Subscribed(Activity::StoringBlock { number }) => match reply {
                Reply::Stored | Reply::Rejected => (
                    Live::Subscribed(Activity::Fetching { number }),
                    CommandView::FetchBlock { number },
                ),
                Reply::Failed => Self::halt_spec(Outcome::TransportFailed),
                _ => Self::halt_spec(Outcome::Unexpected),
            },
            Live::Subscribed(Activity::Fetching { number }) => match reply {
                Reply::Block(Some(block)) => match block.transactions {
                    Some(bodies) => Self::deliver_spec(number, bodies, 0),
                    None => (
                        Live::Subscribed(Activity::Reporting { number }),
                        CommandView::Report(Notice::BodiesMissing { number }),
                    ),
                },
                Reply::Block(None) => (
                    Live::Subscribed(Activity::Reporting { number }),
                    CommandView::Report(Notice::BlockAbsent { number }),
                ),
                Reply::Failed => Self::halt_spec(Outcome::TransportFailed),
                _ => Self::halt_spec(Outcome::Unexpected),
            },
            Live::Subscribed(Activity::StoringTransaction { number, bodies, position }) => match reply {
                Reply::Stored | Reply::Rejected => if position < bodies.len() {
                    Self::deliver_spec(number, bodies, (position + 1) as usize)
                } else {
                    Self::await_spec()
                },
                Reply::Failed => Self::halt_spec(Outcome::TransportFailed),
                _ => Self::halt_spec(Outcome::Unexpected),
            },
            Live::Subscribed(Activity::Reporting { number }) => match reply {
                Reply::Reported => Self::await_spec(),
                Reply::Failed => Self::halt_spec(Outcome::TransportFailed),
                _ => Self::halt_spec(Outcome::Unexpected),
            },
            Live::Terminated(outcome) => Self::halt_spec(outcome),
        }
    }

    fn halt(outcome: Outcome) -> (next: (Live, Command))
        ensures
            next.0 == Self::halt_spec(outcome).0,
            next.1@ == Self::halt_spec(outcome).1,
    {
        (Live::Terminated(outcome), Command::Stop(outcome))
    }

    fn deliver(number: u64, bodies: Vec<RawTransaction>, position: usize) -> (next: (
        Live,
        Command,
    ))
        ensures
            next.0 == Self::deliver_spec(number, bodies, position).0,
            next.1@ == Self::deliver_spec(number, bodies, position).1,
    {
        if position < bodies.len() {
            let record = normalize_transaction(number, &bodies[position]);
            (
                Live::Subscribed(Activity::StoringTransaction { number, bodies, position }),
                Command::StoreTransaction(record),
            )
        } else {
            Self::start()
        }
    }

    /// Begins a live flow on a feed that has just been opened and gives its
    /// first command: to wait for a header.
    pub fn start() -> (next: (Live, Command))
        ensures
            next.0 == Self::await_spec().0,
            next.1@ == Self::await_spec().1,
    {
        (Live::Subscribed(Activity::Awaiting), Command::AwaitHeader)
    }

    /// Takes the reply to the last command and gives the next command.
    pub fn step(self, reply: Reply) -> (next: (Live, Command))
        ensures
            next.0 == self.step_spec(reply).0,
            next.1@ == self.step_spec(reply).1,
    {
        match self {
            Live::Subscribed(Activity::Awaiting) => match reply {
                Reply::Header(header) => match header.number {
                    Some(number) => {
                        let record = normalize_block(number, &header);
                        (
                            Live::Subscribed(Activity::StoringBlock { number }),
                            Command::StoreBlock(record),
                        )
                    },
                    None => Self::halt(Outcome::MissingNumber),
                },
                Reply::FeedClosed => Self::halt(Outcome::FeedClosed),
                Reply::Failed => Self::halt(Outcome::TransportFailed),
                _ => Self::halt(Outcome::Unexpected),
            },
            Live::Subscribed(Activity::StoringBlock { number }) => match reply {
                Reply::Stored | Reply::Rejected => (
                    Live::Subscribed(Activity::Fetching { number }),
                    Command::FetchBlock { number },
                ),
                Reply::Failed => Self::halt(Outcome::TransportFailed),
                _ => Self::halt(Outcome::Unexpected),
            },
            Live::Subscribed(Activity::Fetching { number }) => match reply {
                Reply::Block(Some(block)) => match block.transactions {
                    Some(bodies) => Self::deliver(number, bodies, 0),
                    None => (
                        Live::Subscribed(Activity::Reporting { number }),
                        Command::Report(Notice::BodiesMissing { number }),
                    ),
                },
                Reply::Block(None) => (
                    Live::Subscribed(Activity::Reporting { number }),
                    Command::Report(Notice::BlockAbsent { number }),
                ),
                Reply::Failed => Self::halt(Outcome::TransportFailed),
                _ => Self::halt(Outcome::Unexpected),
            },
            Live::Subscribed(Activity::StoringTransaction { number, bodies, position }) => match reply {
                Reply::Stored | Reply::Rejected => if position < bodies.len() {
                    Self::deliver(number, bodies, position + 1)
                } else {
                    Self::start()
                },
                Reply::Failed => Self::halt(Outcome::TransportFailed),
                _ => Self::halt(Outcome::Unexpected),
            },
            Live::Subscribed(Activity::Reporting { number }) => match reply {
                Reply::Reported => Self::start(),
                Reply::Failed => Self::halt(Outcome::TransportFailed),
                _ => Self::halt(Outcome::Unexpected),
            },
            Live::Terminated(outcome) => Self::halt(outcome),
        }
    }
}

} // verus!
