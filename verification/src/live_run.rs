use crate::engine::{CommandView, Notice, Outcome, Reply};
use crate::live::{Activity, Live};
use crate::normalize::{block_record, transaction_record};
use crate::raw::{RawHeader, RawTransaction};
use crate::world::{transaction_commands, World};
use vstd::prelude::*;

verus! {

/// The reply that carrying out `command` brings while the feed still holds
/// `feed`: to a wait, its first header, or the news that it has closed.
pub open spec fn live_answer(
    world: World,
    feed: Seq<RawHeader>,
    command: CommandView,
    at: nat,
) -> Reply {
    if command is AwaitHeader && !world.unreachable.contains(at) {
        if feed.len() > 0 {
            Reply::Header(feed[0])
        } else {
            Reply::FeedClosed
        }
    } else {
        world.answer(command, at)
    }
}

/// What the feed still holds once `command` is carried out.
pub open spec fn feed_after(
    world: World,
    feed: Seq<RawHeader>,
    command: CommandView,
    at: nat,
) -> Seq<RawHeader> {
    if command is AwaitHeader && !world.unreachable.contains(at) && feed.len() > 0 {
        feed.skip(1)
    } else {
        feed
    }
}

/// The commands that a live flow gives from `command` on, its command
/// number `at`, while `world` answers them and the feed delivers `feed` and
/// then closes, up to `fuel` of them, and the command it is left with.
pub open spec fn live_run(
    machine: Live,
    command: CommandView,
    world: World,
    feed: Seq<RawHeader>,
    at: nat,
    fuel: nat,
) -> (Seq<CommandView>, CommandView)
    decreases fuel,
{
    if fuel == 0 || command is Stop {
        (Seq::empty(), command)
    } else {
        let next = machine.step_spec(live_answer(world, feed, command, at));
        let rest = live_run(
            next.0,
            next.1,
            world,
            feed_after(world, feed, command, at),
            at + 1,
            (fuel - 1) as nat,
        );
        (seq![command] + rest.0, rest.1)
    }
}

/// What follows the record of a block that the feed announced under
/// `number`: its lookup, then its transactions, or a notice.
pub open spec fn lookup_commands(world: World, number: u64) -> Seq<CommandView> {
    seq![CommandView::FetchBlock { number }] + match world.lookup(number) {
        None => seq![CommandView::Report(Notice::BlockAbsent { number })],
        Some(block) => match block.transactions {
            Some(list) => transaction_commands(number, list@),
            None => seq![CommandView::Report(Notice::BodiesMissing { number })],
        },
    }
}

/// What is owed for a feed: for each header in turn the wait for it, its
/// record, and what follows the record; and a last wait, for the header
/// without a number or for the end of the feed.
pub open spec fn feed_commands(world: World, feed: Seq<RawHeader>) -> Seq<CommandView>
    decreases feed.len(),
{
    if feed.len() == 0 {
        seq![CommandView::AwaitHeader]
    } else {
        match feed[0].number {
            None => seq![CommandView::AwaitHeader],
            Some(number) => seq![
                CommandView::AwaitHeader,
                CommandView::StoreBlock(block_record(number, feed[0])),
            ] + lookup_commands(world, number) + feed_commands(world, feed.skip(1)),
        }
    }
}

/// How a flow on `feed` ends when nothing fails it: at the first header
/// without a number, or else when the feed closes.
pub open spec fn feed_outcome(feed: Seq<RawHeader>) -> Outcome
    decreases feed.len(),
{
    if feed.len() == 0 {
        Outcome::FeedClosed
    } else if feed[0].number is None {
        Outcome::MissingNumber
    } else {
        feed_outcome(feed.skip(1))
    }
}

/// The commands of a whole live flow on `feed` in `world`.
pub open spec fn live_commands(world: World, feed: Seq<RawHeader>) -> Seq<CommandView> {
    live_run(
        Live::await_spec().0,
        Live::await_spec().1,
        world,
        feed,
        0,
        feed_commands(world, feed).len(),
    ).0
}

/// The command on which a live flow on `feed` in `world` comes to rest.
pub open spec fn live_end(world: World, feed: Seq<RawHeader>) -> CommandView {
    live_run(
        Live::await_spec().0,
        Live::await_spec().1,
        world,
        feed,
        0,
        feed_commands(world, feed).len(),
    ).1
}

/// Whether `command` is what a live flow in the state `machine` has asked
/// for.
spec fn live_in_step(machine: Live, command: CommandView) -> bool {
    match machine {
        Live::Subscribed(Activity::Awaiting) => command is AwaitHeader,
        Live::Subscribed(Activity::StoringBlock { number }) => command is StoreBlock,
        Live::Subscribed(Activity::Fetching { number }) => command == (CommandView::FetchBlock {
            number,
        }),
        Live::Subscribed(Activity::StoringTransaction { number, bodies, position }) => position
            < bodies.len() && command == CommandView::StoreTransaction(
            transaction_record(number, bodies@[position as int]),
        ),
        Live::Subscribed(Activity::Reporting { number }) => command is Report,
        Live::Terminated(outcome) => command == CommandView::Stop(outcome),
    }
}

/// What a live flow in the state `machine`, having asked for `command`,
/// still owes while the feed holds `feed`, if nothing fails from here on:
/// `command` first.
spec fn live_owed(
    world: World,
    feed: Seq<RawHeader>,
    machine: Live,
    command: CommandView,
) -> Seq<CommandView> {
    match machine {
        Live::Subscribed(Activity::Awaiting) => feed_commands(world, feed),
        Live::Subscribed(Activity::StoringBlock { number }) => seq![command] + lookup_commands(
            world,
            number,
        ) + feed_commands(world, feed),
        Live::Subscribed(Activity::Fetching { number }) => lookup_commands(world, number)
            + feed_commands(world, feed),
        Live::Subscribed(
            Activity::StoringTransaction { number, bodies, position },
        ) => transaction_commands(number, bodies@).skip(position as int) + feed_commands(
            world,
            feed,
        ),
        Live::Subscribed(Activity::Reporting { number }) => seq![command] + feed_commands(
            world,
            feed,
        ),
        Live::Terminated(_) => Seq::empty(),
    }
}

proof fn lemma_live_owed_at_transaction(
    world: World,
    feed: Seq<RawHeader>,
    number: u64,
    bodies: Vec<RawTransaction>,
    position: usize,
)
    requires
        position <= bodies.len(),
    ensures
        live_in_step(
            Live::deliver_spec(number, bodies, position).0,
            Live::deliver_spec(number, bodies, position).1,
        ),
        !(Live::deliver_spec(number, bodies, position).1 is Stop),
        live_owed(
            world,
            feed,
            Live::deliver_spec(number, bodies, position).0,
            Live::deliver_spec(number, bodies, position).1,
        ) == transaction_commands(number, bodies@).skip(position as int) + feed_commands(
            world,
            feed,
        ),
{
    if position == bodies.len() {
        let later = feed_commands(world, feed);
        assert(transaction_commands(number, bodies@).skip(position as int) + later =~= later);
    }
}

/// One step of a live flow that can reach the node and the store gives the
/// first command it owes and leaves the rest owed; it comes to rest only
/// when the feed has closed or has delivered a header without a number.
proof fn lemma_live_step_owed(
    world: World,
    feed: Seq<RawHeader>,
    machine: Live,
    command: CommandView,
    at: nat,
)
    requires
        live_in_step(machine, command),
        !(command is Stop),
        !world.unreachable.contains(at),
    ensures
        ({
            let next = machine.step_spec(live_answer(world, feed, command, at));
            let left = feed_after(world, feed, command, at);
            if next.1 is Stop {
                &&& next.1 == CommandView::Stop(feed_outcome(feed))
                &&& live_owed(world, feed, machine, command) == seq![command]
            } else {
                &&& live_in_step(next.0, next.1)
                &&& feed_outcome(left) == feed_outcome(feed)
                &&& live_owed(world, feed, machine, command) == seq![command] + live_owed(
                    world,
                    left,
                    next.0,
                    next.1,
                )
            }
        }),
{
    let next = machine.step_spec(live_answer(world, feed, command, at));
    let left = feed_after(world, feed, command, at);
    let later = feed_commands(world, feed);
    match machine {
        Live::Subscribed(Activity::Awaiting) => {
            if feed.len() > 0 && feed[0].number is Some {
                let number = feed[0].number->0;
                assert(later =~= seq![command] + (seq![next.1] + lookup_commands(world, number)
                    + feed_commands(world, left)));
            }
        },
        Live::Subscribed(Activity::StoringBlock { number }) => {
            assert(seq![command] + lookup_commands(world, number) + later =~= seq![command] + (
            lookup_commands(world, number) + later));
        },
        Live::Subscribed(Activity::Fetching { number }) => {
            match world.lookup(number) {
                Some(block) => match block.transactions {
                    Some(list) => {
                        lemma_live_owed_at_transaction(world, feed, number, list, 0);
                        let writes = transaction_commands(number, list@);
                        assert(writes.skip(0) =~= writes);
                        assert(lookup_commands(world, number) + later =~= seq![command] + (writes
                            + later));
                    },
                    None => {
                        assert(lookup_commands(world, number) + later =~= seq![command] + (
                        seq![next.1] + later));
                    },
                },
                None => {
                    assert(lookup_commands(world, number) + later =~= seq![command] + (seq![next.1]
                        + later));
                },
            }
        },
        Live::Subscribed(Activity::StoringTransaction { number, bodies, position }) => {
            let writes = transaction_commands(number, bodies@);
            lemma_live_owed_at_transaction(world, feed, number, bodies, (position + 1) as usize);
            assert(writes.skip(position as int) + later =~= seq![command] + (writes.skip(
                position + 1,
            ) + later));
        },
        Live::Subscribed(Activity::Reporting { number }) => {},
        Live::Terminated(_) => {},
    }
}

proof fn lemma_live_owed_begins(
    world: World,
    feed: Seq<RawHeader>,
    machine: Live,
    command: CommandView,
)
    requires
        live_in_step(machine, command),
        !(command is Stop),
    ensures
        live_owed(world, feed, machine, command).len() > 0,
        live_owed(world, feed, machine, command)[0] == command,
{
    match machine {
        Live::Subscribed(Activity::Fetching { number }) => {
            assert(lookup_commands(world, number)[0] == command);
        },
        Live::Subscribed(Activity::Awaiting) => {
            assert(feed_commands(world, feed)[0] == command);
        },
        _ => {},
    }
}

/// The shape of every run of a live flow: it gives what it owes, in order,
/// and comes to rest either when all of that is given, or right after a
/// command at which the feed, the node or the store could not be reached.
proof fn lemma_live_run_shape(
    world: World,
    feed: Seq<RawHeader>,
    machine: Live,
    command: CommandView,
    at: nat,
    fuel: nat,
)
    requires
        live_in_step(machine, command),
        !(command is Stop),
    ensures
        ({
            let given = live_run(machine, command, world, feed, at, fuel).0;
            let last = live_run(machine, command, world, feed, at, fuel).1;
            let full = live_owed(world, feed, machine, command);
            &&& given.is_prefix_of(full)
            &&& fuel >= full.len() ==> last is Stop
            &&& last is Stop ==> {
                ||| last == CommandView::Stop(feed_outcome(feed)) && given == full
                    && world.reachable(at, given.len())
                ||| last == CommandView::Stop(Outcome::TransportFailed) && given.len() > 0
                    && world.reachable(at, (given.len() - 1) as nat)
                    && world.unreachable.contains((at + given.len() - 1) as nat)
            }
        }),
    decreases fuel,
{
    let full = live_owed(world, feed, machine, command);
    lemma_live_owed_begins(world, feed, machine, command);
    if fuel > 0 {
        let next = machine.step_spec(live_answer(world, feed, command, at));
        let left = feed_after(world, feed, command, at);
        let rest = live_run(next.0, next.1, world, left, at + 1, (fuel - 1) as nat);
        if world.unreachable.contains(at) {
            assert(next == Live::halt_spec(Outcome::TransportFailed));
            assert(rest == (Seq::<CommandView>::empty(), next.1));
            assert(seq![command] + rest.0 =~= seq![command]);
            assert(seq![command] =~= full.subrange(0, 1));
        } else {
            lemma_live_step_owed(world, feed, machine, command, at);
            if next.1 is Stop {
                assert(rest == (Seq::<CommandView>::empty(), next.1));
                assert(seq![command] + rest.0 =~= seq![command]);
            } else {
                lemma_live_run_shape(world, left, next.0, next.1, at + 1, (fuel - 1) as nat);
                let later = live_owed(world, left, next.0, next.1);
                assert(full == seq![command] + later);
                assert((seq![command] + rest.0) =~= full.subrange(0, rest.0.len() as int + 1)) by {
                    assert(rest.0 =~= later.subrange(0, rest.0.len() as int));
                }
            }
        }
    }
}

/// Every live flow gives, in order, what is owed for the headers of its
/// feed, and nothing else. It comes to rest either with all of it given and
/// the feed, the node and the store reached each time, at the first header
/// without a number or else at the end of the feed; or right after the
/// first command at which one of them could not be reached.
pub proof fn lemma_live_shape(world: World, feed: Seq<RawHeader>)
    ensures
        live_commands(world, feed).is_prefix_of(feed_commands(world, feed)),
        ({
            ||| live_end(world, feed) == CommandView::Stop(feed_outcome(feed)) && live_commands(
                world,
                feed,
            ) == feed_commands(world, feed) && world.reachable(
                0,
                live_commands(world, feed).len(),
            )
            ||| live_end(world, feed) == CommandView::Stop(Outcome::TransportFailed)
                && live_commands(world, feed).len() > 0 && world.reachable(
                0,
                (live_commands(world, feed).len() - 1) as nat,
            ) && world.unreachable.contains(
                (live_commands(world, feed).len() - 1) as nat,
            )
        }),
{
    let begin = Live::await_spec();
    lemma_live_run_shape(world, feed, begin.0, begin.1, 0, feed_commands(world, feed).len());
}

/// A live flow in which the feed, the node and the store can always be
/// reached gives all that is owed for its feed, and ends at the first
/// header without a number, or else when the feed closes.
pub proof fn lemma_live_commands(world: World, feed: Seq<RawHeader>)
    requires
        world.dependable(),
    ensures
        live_commands(world, feed) == feed_commands(world, feed),
        live_end(world, feed) == CommandView::Stop(feed_outcome(feed)),
{
    lemma_live_shape(world, feed);
}

} // verus!
