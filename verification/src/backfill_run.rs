use crate::backfill::{Backfill, BackfillPhase};
use crate::engine::{CommandView, Notice, Outcome};
use crate::normalize::{block_record, transaction_record};
use crate::raw::RawTransaction;
use crate::world::{transaction_commands, World};
use vstd::prelude::*;

verus! {

/// The commands that a backfill gives from `command` on, its command
/// number `at`, while `world` answers them, up to `fuel` of them, and the
/// command it is left with.
pub open spec fn run(
    machine: Backfill,
    command: CommandView,
    world: World,
    at: nat,
    fuel: nat,
) -> (Seq<CommandView>, CommandView)
    decreases fuel,
{
    if fuel == 0 || command is Stop {
        (Seq::empty(), command)
    } else {
        let next = machine.step_spec(world.answer(command, at));
        let rest = run(next.0, next.1, world, at + 1, (fuel - 1) as nat);
        (seq![command] + rest.0, rest.1)
    }
}

/// What follows the record of block `number`: one write for each of its
/// transactions, or a notice where the node sent no bodies.
pub open spec fn body_commands(number: u64, transactions: Option<Vec<RawTransaction>>) -> Seq<
    CommandView,
> {
    match transactions {
        Some(list) => transaction_commands(number, list@),
        None => seq![CommandView::Report(Notice::BodiesMissing { number })],
    }
}

/// What is owed for one block number: its lookup, then either the notice of
/// its absence, or its record followed by its transactions.
pub open spec fn block_commands(world: World, number: u64) -> Seq<CommandView> {
    match world.lookup(number) {
        None => seq![
            CommandView::FetchBlock { number },
            CommandView::Report(Notice::BlockAbsent { number }),
        ],
        Some(block) => seq![
            CommandView::FetchBlock { number },
            CommandView::StoreBlock(block_record(number, block.header)),
        ] + body_commands(number, block.transactions),
    }
}

/// What is owed for the block numbers from `start` to `end`, in ascending
/// order.
pub open spec fn range_commands(world: World, start: int, end: int) -> Seq<CommandView>
    decreases end - start + 1,
{
    if start > end {
        Seq::empty()
    } else {
        block_commands(world, start as u64) + range_commands(world, start + 1, end)
    }
}

/// The commands of a whole backfill of `[start, end]` in `world`: as many
/// as would be owed if nothing failed, or fewer where the flow is ended
/// early.
pub open spec fn backfill_commands(world: World, start: u64, end: u64) -> Seq<CommandView> {
    run(
        Backfill::start_spec(start, end).0,
        Backfill::start_spec(start, end).1,
        world,
        0,
        range_commands(world, start as int, end as int).len(),
    ).0
}

/// The command on which a backfill of `[start, end]` in `world` comes to
/// rest.
pub open spec fn backfill_end(world: World, start: u64, end: u64) -> CommandView {
    run(
        Backfill::start_spec(start, end).0,
        Backfill::start_spec(start, end).1,
        world,
        0,
        range_commands(world, start as int, end as int).len(),
    ).1
}

/// Whether `command` is what a backfill in the state `machine` has asked
/// for, in a run that began at the start of a range.
spec fn in_step(machine: Backfill, command: CommandView) -> bool {
    match machine.phase {
        BackfillPhase::Fetching { number } => number <= machine.end && command
            == (CommandView::FetchBlock { number }),
        BackfillPhase::StoringBlock { number, transactions } => number <= machine.end
            && command is StoreBlock,
        BackfillPhase::StoringTransaction { number, bodies, position } => number <= machine.end
            && position < bodies.len() && command == CommandView::StoreTransaction(
            transaction_record(number, bodies@[position as int]),
        ),
        BackfillPhase::Reporting { number } => number <= machine.end && command is Report,
        BackfillPhase::Finished(outcome) => command == CommandView::Stop(outcome),
    }
}

/// What a backfill in the state `machine`, having asked for `command`, still
/// owes if nothing fails from here on: `command` first.
spec fn owed(world: World, machine: Backfill, command: CommandView) -> Seq<CommandView> {
    match machine.phase {
        BackfillPhase::Fetching { number } => range_commands(
            world,
            number as int,
            machine.end as int,
        ),
        BackfillPhase::StoringBlock { number, transactions } => seq![command] + body_commands(
            number,
            transactions,
        ) + range_commands(world, number + 1, machine.end as int),
        BackfillPhase::StoringTransaction { number, bodies, position } => transaction_commands(
            number,
            bodies@,
        ).skip(position as int) + range_commands(world, number + 1, machine.end as int),
        BackfillPhase::Reporting { number } => seq![command] + range_commands(
            world,
            number + 1,
            machine.end as int,
        ),
        BackfillPhase::Finished(_) => Seq::empty(),
    }
}

proof fn lemma_owed_after_block(world: World, end: u64, number: u64)
    requires
        number <= end,
    ensures
        in_step(Backfill::advance_spec(end, number).0, Backfill::advance_spec(end, number).1),
        owed(world, Backfill::advance_spec(end, number).0, Backfill::advance_spec(end, number).1)
            == range_commands(world, number + 1, end as int),
        Backfill::advance_spec(end, number).1 is Stop ==> Backfill::advance_spec(end, number).1
            == CommandView::Stop(Outcome::Completed),
{
}

proof fn lemma_owed_at_transaction(
    world: World,
    end: u64,
    number: u64,
    bodies: Vec<RawTransaction>,
    position: usize,
)
    requires
        number <= end,
        position <= bodies.len(),
    ensures
        in_step(
            Backfill::deliver_spec(end, number, bodies, position).0,
            Backfill::deliver_spec(end, number, bodies, position).1,
        ),
        owed(
            world,
            Backfill::deliver_spec(end, number, bodies, position).0,
            Backfill::deliver_spec(end, number, bodies, position).1,
        ) == transaction_commands(number, bodies@).skip(position as int) + range_commands(
            world,
            number + 1,
            end as int,
        ),
        Backfill::deliver_spec(end, number, bodies, position).1 is Stop ==> Backfill::deliver_spec(
            end,
            number,
            bodies,
            position,
        ).1 == CommandView::Stop(Outcome::Completed),
{
    if position == bodies.len() {
        lemma_owed_after_block(world, end, number);
        let later = range_commands(world, number + 1, end as int);
        assert(transaction_commands(number, bodies@).skip(position as int) + later =~= later);
    }
}

/// One step of a backfill that can reach the node and the store gives the
/// first command it owes and leaves the rest owed.
proof fn lemma_step_owed(world: World, machine: Backfill, command: CommandView, at: nat)
    requires
        in_step(machine, command),
        !(command is Stop),
        !world.unreachable.contains(at),
    ensures
        in_step(
            machine.step_spec(world.answer(command, at)).0,
            machine.step_spec(world.answer(command, at)).1,
        ),
        owed(world, machine, command) == seq![command] + owed(
            world,
            machine.step_spec(world.answer(command, at)).0,
            machine.step_spec(world.answer(command, at)).1,
        ),
        machine.step_spec(world.answer(command, at)).1 is Stop ==> machine.step_spec(
            world.answer(command, at),
        ).1 == CommandView::Stop(Outcome::Completed),
{
    let end = machine.end;
    let next = machine.step_spec(world.answer(command, at));
    match machine.phase {
        BackfillPhase::Fetching { number } => {
            let later = range_commands(world, number + 1, end as int);
            assert(owed(world, machine, command) == block_commands(world, number) + later);
            match world.lookup(number) {
                None => {
                    assert(block_commands(world, number) + later =~= seq![command] + (seq![next.1]
                        + later));
                },
                Some(block) => {
                    assert(block_commands(world, number) + later =~= seq![command] + (seq![next.1]
                        + body_commands(number, block.transactions) + later));
                },
            }
        },
        BackfillPhase::StoringBlock { number, transactions } => {
            let later = range_commands(world, number + 1, end as int);
            match transactions {
                Some(bodies) => {
                    lemma_owed_at_transaction(world, end, number, bodies, 0);
                    let writes = transaction_commands(number, bodies@);
                    assert(writes.skip(0) =~= writes);
                    assert(seq![command] + writes + later =~= seq![command] + (writes + later));
                },
                None => {
                    assert(seq![command] + body_commands(number, transactions) + later
                        =~= seq![command] + (seq![next.1] + later));
                },
            }
        },
        BackfillPhase::StoringTransaction { number, bodies, position } => {
            let later = range_commands(world, number + 1, end as int);
            let writes = transaction_commands(number, bodies@);
            lemma_owed_at_transaction(world, end, number, bodies, (position + 1) as usize);
            assert(writes.skip(position as int) + later =~= seq![command] + (writes.skip(
                position + 1,
            ) + later));
        },
        BackfillPhase::Reporting { number } => {
            lemma_owed_after_block(world, end, number);
        },
        BackfillPhase::Finished(_) => {},
    }
}

proof fn lemma_owed_begins(world: World, machine: Backfill, command: CommandView)
    requires
        in_step(machine, command),
        !(command is Stop),
    ensures
        owed(world, machine, command).len() > 0,
        owed(world, machine, command)[0] == command,
{
    match machine.phase {
        BackfillPhase::Fetching { number } => {
            assert(block_commands(world, number)[0] == command);
        },
        _ => {},
    }
}

/// The shape of every run of a backfill: it gives what it owes, in order,
/// and comes to rest either when all of that is given, or right after a
/// command at which the node or the store could not be reached.
proof fn lemma_run_shape(
    world: World,
    machine: Backfill,
    command: CommandView,
    at: nat,
    fuel: nat,
)
    requires
        in_step(machine, command),
        command is Stop ==> command == CommandView::Stop(Outcome::Completed),
    ensures
        ({
            let given = run(machine, command, world, at, fuel).0;
            let last = run(machine, command, world, at, fuel).1;
            let full = owed(world, machine, command);
            &&& given.is_prefix_of(full)
            &&& fuel >= full.len() ==> last is Stop
            &&& last is Stop ==> {
                ||| last == CommandView::Stop(Outcome::Completed) && given == full
                    && world.reachable(at, given.len())
                ||| last == CommandView::Stop(Outcome::TransportFailed) && given.len() > 0
                    && world.reachable(at, (given.len() - 1) as nat)
                    && world.unreachable.contains((at + given.len() - 1) as nat)
            }
        }),
    decreases fuel,
{
    let full = owed(world, machine, command);
    if fuel == 0 || command is Stop {
        if !(command is Stop) {
            lemma_owed_begins(world, machine, command);
        }
    } else {
        let next = machine.step_spec(world.answer(command, at));
        let rest = run(next.0, next.1, world, at + 1, (fuel - 1) as nat);
        lemma_owed_begins(world, machine, command);
        if world.unreachable.contains(at) {
            assert(next == Backfill::halt_spec(machine.end, Outcome::TransportFailed));
            assert(rest == (Seq::<CommandView>::empty(), next.1));
            assert(seq![command] + rest.0 =~= seq![command]);
            assert(seq![command] =~= full.subrange(0, 1));
        } else {
            lemma_step_owed(world, machine, command, at);
            lemma_run_shape(world, next.0, next.1, at + 1, (fuel - 1) as nat);
            let later = owed(world, next.0, next.1);
            assert(full == seq![command] + later);
            assert((seq![command] + rest.0) =~= full.subrange(0, rest.0.len() as int + 1)) by {
                assert(rest.0 =~= later.subrange(0, rest.0.len() as int));
            }
        }
    }
}

/// Every backfill gives, in order, what is owed for the block numbers of
/// its range, in ascending order, and nothing else. It comes to rest either
/// completed, with all of it given and the node and the store reached each
/// time, or right after the first command at which one of them could not be
/// reached.
pub proof fn lemma_backfill_shape(world: World, start: u64, end: u64)
    ensures
        backfill_commands(world, start, end).is_prefix_of(
            range_commands(world, start as int, end as int),
        ),
        ({
            ||| backfill_end(world, start, end) == CommandView::Stop(Outcome::Completed)
                && backfill_commands(world, start, end) == range_commands(
                world,
                start as int,
                end as int,
            ) && world.reachable(0, backfill_commands(world, start, end).len())
            ||| backfill_end(world, start, end) == CommandView::Stop(Outcome::TransportFailed)
                && backfill_commands(world, start, end).len() > 0 && world.reachable(
                0,
                (backfill_commands(world, start, end).len() - 1) as nat,
            ) && world.unreachable.contains(
                (backfill_commands(world, start, end).len() - 1) as nat,
            )
        }),
{
    let begin = Backfill::start_spec(start, end);
    lemma_run_shape(
        world,
        begin.0,
        begin.1,
        0,
        range_commands(world, start as int, end as int).len(),
    );
}

/// A backfill in which the node and the store can always be reached gives
/// all that is owed for its range, and completes.
pub proof fn lemma_backfill_commands(world: World, start: u64, end: u64)
    requires
        world.dependable(),
    ensures
        backfill_commands(world, start, end) == range_commands(world, start as int, end as int),
        backfill_end(world, start, end) == CommandView::Stop(Outcome::Completed),
{
    lemma_backfill_shape(world, start, end);
}

} // verus!
