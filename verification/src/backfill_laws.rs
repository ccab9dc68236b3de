use crate::backfill_run::{
    backfill_commands, block_commands, lemma_backfill_commands, lemma_backfill_shape,
    range_commands,
};
use crate::engine::{CommandView, Notice};
use crate::normalize::block_record;
use crate::world::{lemma_filter_all, lemma_filter_none, transaction_commands, World};
use vstd::prelude::*;

verus! {

/// The test that picks the writes for block `number` out of a run.
pub open spec fn writes_for(number: u64) -> spec_fn(CommandView) -> bool {
    |command: CommandView| command.stores_for(number)
}

/// The test that picks the lookups out of a run.
pub open spec fn is_lookup() -> spec_fn(CommandView) -> bool {
    |command: CommandView| command is FetchBlock
}

/// The writes that block `number` is owed: none when the node lacks it,
/// else its record followed by one write for each of its transactions.
pub open spec fn owed_writes(world: World, number: u64) -> Seq<CommandView> {
    match world.lookup(number) {
        None => Seq::empty(),
        Some(block) => seq![CommandView::StoreBlock(block_record(number, block.header))]
            + transaction_commands(number, block.bodies()),
    }
}

/// The lookups of the block numbers from `start` to `end`, one each.
pub open spec fn lookups(start: int, end: int) -> Seq<CommandView> {
    Seq::new(
        if start <= end {
            (end - start + 1) as nat
        } else {
            0
        },
        |i: int| CommandView::FetchBlock { number: (start + i) as u64 },
    )
}

/// Whether each block that the node holds in the range from `start` to
/// `end` has its transactions' indices in strictly ascending order.
pub open spec fn indexed_in_order(world: World, start: u64, end: u64) -> bool {
    forall|number: u64|
        start <= number <= end && #[trigger] world.blocks.contains_key(number)
            ==> world.blocks[number].indexed_in_order()
}

proof fn lemma_block_about(world: World, number: u64)
    ensures
        forall|i: int|
            0 <= i < block_commands(world, number).len() ==> (#[trigger] block_commands(
                world,
                number,
            )[i]).about() == Some(number),
{
}

proof fn lemma_range_about(world: World, start: int, end: int)
    requires
        0 <= start,
        end <= u64::MAX,
    ensures
        forall|i: int|
            0 <= i < range_commands(world, start, end).len() ==> {
                let about = (#[trigger] range_commands(world, start, end)[i]).about();
                about is Some && start <= about->0 <= end
            },
    decreases end - start + 1,
{
    if start <= end {
        lemma_block_about(world, start as u64);
        lemma_range_about(world, start + 1, end);
    }
}

proof fn lemma_block_writes(world: World, number: u64, wanted: u64)
    ensures
        block_commands(world, number).filter(writes_for(wanted)) == if number == wanted {
            owed_writes(world, wanted)
        } else {
            Seq::empty()
        },
{
    let keep = writes_for(wanted);
    if number != wanted {
        lemma_block_about(world, number);
        lemma_filter_none(block_commands(world, number), keep);
    } else {
        let fetch = seq![CommandView::FetchBlock { number }];
        lemma_filter_none(fetch, keep);
        match world.lookup(number) {
            None => {
                lemma_filter_none(block_commands(world, number), keep);
            },
            Some(block) => {
                let store = seq![CommandView::StoreBlock(block_record(number, block.header))];
                lemma_filter_all(store, keep);
                match block.transactions {
                    Some(list) => {
                        let writes = transaction_commands(number, list@);
                        lemma_filter_all(writes, keep);
                        assert(block_commands(world, number) =~= fetch + (store + writes));
                        Seq::filter_distributes_over_add(fetch, store + writes, keep);
                        Seq::filter_distributes_over_add(store, writes, keep);
                        assert(Seq::<CommandView>::empty() + (store + writes) =~= store + writes);
                    },
                    None => {
                        let notice = seq![
                            CommandView::Report(Notice::BodiesMissing { number }),
                        ];
                        lemma_filter_none(notice, keep);
                        assert(block_commands(world, number) =~= fetch + (store + notice));
                        Seq::filter_distributes_over_add(fetch, store + notice, keep);
                        Seq::filter_distributes_over_add(store, notice, keep);
                        assert(transaction_commands(number, block.bodies()) =~= Seq::empty());
                        assert(Seq::<CommandView>::empty() + (store + Seq::<CommandView>::empty())
                            =~= store + transaction_commands(number, block.bodies()));
                    },
                }
            },
        }
    }
}

proof fn lemma_range_writes(world: World, start: int, end: int, wanted: u64)
    requires
        0 <= start,
        end <= u64::MAX,
    ensures
        range_commands(world, start, end).filter(writes_for(wanted)) == if start <= wanted
            <= end {
            owed_writes(world, wanted)
        } else {
            Seq::empty()
        },
    decreases end - start + 1,
{
    let keep = writes_for(wanted);
    if start <= end {
        let first = block_commands(world, start as u64);
        let later = range_commands(world, start + 1, end);
        lemma_block_writes(world, start as u64, wanted);
        lemma_range_writes(world, start + 1, end, wanted);
        Seq::filter_distributes_over_add(first, later, keep);
        assert(owed_writes(world, wanted) + Seq::<CommandView>::empty() =~= owed_writes(
            world,
            wanted,
        ));
        assert(Seq::<CommandView>::empty() + owed_writes(world, wanted) =~= owed_writes(
            world,
            wanted,
        ));
        assert(Seq::<CommandView>::empty() + Seq::<CommandView>::empty()
            =~= Seq::<CommandView>::empty());
    } else {
        reveal(Seq::filter);
    }
}

proof fn lemma_block_lookups(world: World, number: u64)
    ensures
        block_commands(world, number).filter(is_lookup()) == seq![
            CommandView::FetchBlock { number },
        ],
{
    let keep = is_lookup();
    let fetch = seq![CommandView::FetchBlock { number }];
    let after = block_commands(world, number).skip(1);
    lemma_filter_all(fetch, keep);
    lemma_filter_none(after, keep);
    assert(block_commands(world, number) =~= fetch + after);
    Seq::filter_distributes_over_add(fetch, after, keep);
    assert(fetch + Seq::<CommandView>::empty() =~= fetch);
}

proof fn lemma_range_lookups(world: World, start: int, end: int)
    requires
        0 <= start,
        end <= u64::MAX,
    ensures
        range_commands(world, start, end).filter(is_lookup()) == lookups(start, end),
    decreases end - start + 1,
{
    let keep = is_lookup();
    if start <= end {
        let first = block_commands(world, start as u64);
        let later = range_commands(world, start + 1, end);
        lemma_block_lookups(world, start as u64);
        lemma_range_lookups(world, start + 1, end);
        Seq::filter_distributes_over_add(first, later, keep);
        assert(seq![CommandView::FetchBlock { number: start as u64 }] + lookups(start + 1, end)
            =~= lookups(start, end));
    } else {
        reveal(Seq::filter);
        assert(lookups(start, end) =~= Seq::empty());
    }
}

proof fn lemma_range_blocks_ascend(world: World, start: int, end: int)
    requires
        0 <= start,
        end <= u64::MAX,
    ensures
        forall|i: int, j: int|
            #![trigger range_commands(world, start, end)[i], range_commands(world, start, end)[j]]
            0 <= i < j < range_commands(world, start, end).len() ==> {
                let earlier = range_commands(world, start, end)[i];
                let later = range_commands(world, start, end)[j];
                earlier is StoreBlock && later is StoreBlock ==> earlier->StoreBlock_0.block_number
                    < later->StoreBlock_0.block_number
            },
    decreases end - start + 1,
{
    if start <= end {
        let first = block_commands(world, start as u64);
        let rest = range_commands(world, start + 1, end);
        let all = range_commands(world, start, end);
        lemma_block_about(world, start as u64);
        lemma_range_about(world, start + 1, end);
        lemma_range_blocks_ascend(world, start + 1, end);
        assert forall|i: int, j: int|
            #![trigger all[i], all[j]]
            0 <= i < j < all.len() && all[i] is StoreBlock && all[j] is StoreBlock implies all[i]->StoreBlock_0.block_number
            < all[j]->StoreBlock_0.block_number by {
            if j < first.len() {
                assert(all[i] == first[i] && all[j] == first[j]);
                assert(i == 1 && j == 1);
            } else if i < first.len() {
                assert(all[i] == first[i]);
                assert(all[j] == rest[j - first.len()]);
                assert(first[i].about() == Some(start as u64));
                assert(rest[j - first.len()].about()->0 >= start + 1);
            } else {
                assert(all[i] == rest[i - first.len()]);
                assert(all[j] == rest[j - first.len()]);
            }
        }
    }
}

proof fn lemma_range_transactions_ascend(world: World, start: int, end: int)
    requires
        0 <= start,
        end <= u64::MAX,
        forall|number: u64|
            start <= number <= end && #[trigger] world.blocks.contains_key(number)
                ==> world.blocks[number].indexed_in_order(),
    ensures
        forall|i: int, j: int|
            #![trigger range_commands(world, start, end)[i], range_commands(world, start, end)[j]]
            0 <= i < j < range_commands(world, start, end).len() ==> {
                let earlier = range_commands(world, start, end)[i];
                let later = range_commands(world, start, end)[j];
                earlier is StoreTransaction && later is StoreTransaction
                    && earlier->StoreTransaction_0.block_number
                    == later->StoreTransaction_0.block_number
                    ==> earlier->StoreTransaction_0.transaction_index
                    < later->StoreTransaction_0.transaction_index
            },
    decreases end - start + 1,
{
    if start <= end {
        let number = start as u64;
        let first = block_commands(world, number);
        let rest = range_commands(world, start + 1, end);
        let all = range_commands(world, start, end);
        lemma_block_about(world, number);
        lemma_range_about(world, start + 1, end);
        lemma_range_transactions_ascend(world, start + 1, end);
        assert forall|i: int, j: int|
            #![trigger all[i], all[j]]
            0 <= i < j < all.len() && all[i] is StoreTransaction && all[j] is StoreTransaction
                && all[i]->StoreTransaction_0.block_number
                == all[j]->StoreTransaction_0.block_number implies all[i]->StoreTransaction_0.transaction_index
            < all[j]->StoreTransaction_0.transaction_index by {
            if j < first.len() {
                assert(all[i] == first[i] && all[j] == first[j]);
                let block = world.lookup(number)->0;
                assert(world.blocks.contains_key(number));
                assert(block.indexed_in_order());
                let bodies = block.bodies();
                assert(first[i] == transaction_commands(number, bodies)[i - 2]);
                assert(first[j] == transaction_commands(number, bodies)[j - 2]);
                assert(bodies[i - 2].index() < bodies[j - 2].index());
            } else if i < first.len() {
                assert(all[i] == first[i]);
                assert(all[j] == rest[j - first.len()]);
                assert(first[i].about() == Some(number));
                assert(rest[j - first.len()].about()->0 >= start + 1);
            } else {
                assert(all[i] == rest[i - first.len()]);
                assert(all[j] == rest[j - first.len()]);
            }
        }
    }
}

proof fn lemma_range_block_first(world: World, start: int, end: int)
    requires
        0 <= start,
        end <= u64::MAX,
    ensures
        forall|j: int|
            0 <= j < range_commands(world, start, end).len() && (#[trigger] range_commands(
                world,
                start,
                end,
            )[j]) is StoreTransaction ==> exists|i: int|
                0 <= i < j && (#[trigger] range_commands(world, start, end)[i]) is StoreBlock
                    && range_commands(world, start, end)[i]->StoreBlock_0.block_number
                    == range_commands(world, start, end)[j]->StoreTransaction_0.block_number,
    decreases end - start + 1,
{
    if start <= end {
        let number = start as u64;
        let first = block_commands(world, number);
        let rest = range_commands(world, start + 1, end);
        let all = range_commands(world, start, end);
        lemma_block_about(world, number);
        lemma_range_block_first(world, start + 1, end);
        assert forall|j: int| 0 <= j < all.len() && (#[trigger] all[j]) is StoreTransaction implies exists|
            i: int,
        |
            0 <= i < j && (#[trigger] all[i]) is StoreBlock && all[i]->StoreBlock_0.block_number
                == all[j]->StoreTransaction_0.block_number by {
            if j < first.len() {
                assert(all[j] == first[j]);
                assert(first[j].about() == Some(number));
                assert(all[1] == first[1]);
                assert(first[1].about() == Some(number));
                assert(all[1] is StoreBlock);
            } else {
                let k = j - first.len();
                assert(all[j] == rest[k]);
                let h = choose|h: int|
                    0 <= h < k && (#[trigger] rest[h]) is StoreBlock
                        && rest[h]->StoreBlock_0.block_number
                        == rest[k]->StoreTransaction_0.block_number;
                assert(all[h + first.len()] == rest[h]);
            }
        }
    }
}

/// In a backfill, block records are written in strictly ascending order of
/// block number.
pub proof fn lemma_blocks_ascend(world: World, start: u64, end: u64)
    ensures
        forall|i: int, j: int|
            #![trigger backfill_commands(world, start, end)[i], backfill_commands(world, start, end)[j]]
            0 <= i < j < backfill_commands(world, start, end).len() ==> {
                let earlier = backfill_commands(world, start, end)[i];
                let later = backfill_commands(world, start, end)[j];
                earlier is StoreBlock && later is StoreBlock ==> earlier->StoreBlock_0.block_number
                    < later->StoreBlock_0.block_number
            },
{
    let given = backfill_commands(world, start, end);
    let full = range_commands(world, start as int, end as int);
    lemma_backfill_shape(world, start, end);
    lemma_range_blocks_ascend(world, start as int, end as int);
    assert forall|i: int, j: int|
        #![trigger given[i], given[j]]
        0 <= i < j < given.len() && given[i] is StoreBlock && given[j] is StoreBlock implies given[i]->StoreBlock_0.block_number
        < given[j]->StoreBlock_0.block_number by {
        assert(given[i] == full[i] && given[j] == full[j]);
    }
}

/// In a backfill over blocks whose transactions carry strictly ascending
/// indices, the transaction records of one block are written in strictly
/// ascending order of index.
pub proof fn lemma_transactions_ascend(world: World, start: u64, end: u64)
    requires
        indexed_in_order(world, start, end),
    ensures
        forall|i: int, j: int|
            #![trigger backfill_commands(world, start, end)[i], backfill_commands(world, start, end)[j]]
            0 <= i < j < backfill_commands(world, start, end).len() ==> {
                let earlier = backfill_commands(world, start, end)[i];
                let later = backfill_commands(world, start, end)[j];
                earlier is StoreTransaction && later is StoreTransaction
                    && earlier->StoreTransaction_0.block_number
                    == later->StoreTransaction_0.block_number
                    ==> earlier->StoreTransaction_0.transaction_index
                    < later->StoreTransaction_0.transaction_index
            },
{
    let given = backfill_commands(world, start, end);
    let full = range_commands(world, start as int, end as int);
    lemma_backfill_shape(world, start, end);
    lemma_range_transactions_ascend(world, start as int, end as int);
    assert forall|i: int, j: int|
        #![trigger given[i], given[j]]
        0 <= i < j < given.len() && given[i] is StoreTransaction && given[j] is StoreTransaction
            && given[i]->StoreTransaction_0.block_number
            == given[j]->StoreTransaction_0.block_number implies given[i]->StoreTransaction_0.transaction_index
        < given[j]->StoreTransaction_0.transaction_index by {
        assert(given[i] == full[i] && given[j] == full[j]);
    }
}

/// In a backfill, every transaction record is written after the record of
/// the block it belongs to.
pub proof fn lemma_block_precedes_transactions(world: World, start: u64, end: u64)
    ensures
        forall|j: int|
            0 <= j < backfill_commands(world, start, end).len() && (#[trigger] backfill_commands(
                world,
                start,
                end,
            )[j]) is StoreTransaction ==> exists|i: int|
                0 <= i < j && (#[trigger] backfill_commands(world, start, end)[i]) is StoreBlock
                    && backfill_commands(world, start, end)[i]->StoreBlock_0.block_number
                    == backfill_commands(world, start, end)[j]->StoreTransaction_0.block_number,
{
    let given = backfill_commands(world, start, end);
    let full = range_commands(world, start as int, end as int);
    lemma_backfill_shape(world, start, end);
    lemma_range_block_first(world, start as int, end as int);
    assert forall|j: int| 0 <= j < given.len() && (#[trigger] given[j]) is StoreTransaction implies exists|
        i: int,
    |
        0 <= i < j && (#[trigger] given[i]) is StoreBlock && given[i]->StoreBlock_0.block_number
            == given[j]->StoreTransaction_0.block_number by {
        assert(given[j] == full[j]);
        let i = choose|i: int|
            0 <= i < j && (#[trigger] full[i]) is StoreBlock && full[i]->StoreBlock_0.block_number
                == full[j]->StoreTransaction_0.block_number;
        assert(given[i] == full[i]);
    }
}

/// A backfill in which the node and the store can always be reached looks
/// up each block number of its range exactly once, in ascending order, and
/// no other.
pub proof fn lemma_visits_each_once(world: World, start: u64, end: u64)
    requires
        world.dependable(),
    ensures
        backfill_commands(world, start, end).filter(is_lookup()) == lookups(
            start as int,
            end as int,
        ),
{
    lemma_backfill_commands(world, start, end);
    lemma_range_lookups(world, start as int, end as int);
}

/// In a backfill in which the node and the store can always be reached,
/// the writes for one block number are what that number is owed, and
/// nothing is written for a number outside the range.
pub proof fn lemma_writes_per_block(world: World, start: u64, end: u64, number: u64)
    requires
        world.dependable(),
    ensures
        backfill_commands(world, start, end).filter(writes_for(number)) == if start <= number
            <= end {
            owed_writes(world, number)
        } else {
            Seq::empty()
        },
{
    lemma_backfill_commands(world, start, end);
    lemma_range_writes(world, start as int, end as int, number);
}

/// Where the node holds every block of the range, and it and the store can
/// always be reached, a backfill writes for each number exactly one block
/// record, followed by exactly one record for each transaction of that
/// block, in list order.
pub proof fn lemma_complete(world: World, start: u64, end: u64)
    requires
        world.dependable(),
        forall|number: u64| start <= number <= end ==> world.blocks.contains_key(number),
    ensures
        forall|number: u64|
            start <= number <= end ==> #[trigger] backfill_commands(world, start, end).filter(
                writes_for(number),
            ) == seq![
                CommandView::StoreBlock(block_record(number, world.blocks[number].header)),
            ] + transaction_commands(number, world.blocks[number].bodies()),
{
    assert forall|number: u64| start <= number <= end implies #[trigger] backfill_commands(
        world,
        start,
        end,
    ).filter(writes_for(number)) == seq![
        CommandView::StoreBlock(block_record(number, world.blocks[number].header)),
    ] + transaction_commands(number, world.blocks[number].bodies()) by {
        lemma_writes_per_block(world, start, end, number);
    }
}

/// Where the node lacks block `gap` of the range, a backfill in which the
/// node and the store can always be reached writes nothing for it and
/// reports its absence; it still looks up every number of the range, and
/// writes for every later number what that number is owed.
pub proof fn lemma_gap_tolerated(world: World, start: u64, end: u64, gap: u64)
    requires
        world.dependable(),
        start <= gap <= end,
        !world.blocks.contains_key(gap),
    ensures
        backfill_commands(world, start, end).filter(writes_for(gap)) == Seq::<
            CommandView,
        >::empty(),
        backfill_commands(world, start, end).contains(
            CommandView::Report(Notice::BlockAbsent { number: gap }),
        ),
        backfill_commands(world, start, end).filter(is_lookup()) == lookups(
            start as int,
            end as int,
        ),
        forall|number: u64|
            gap < number <= end ==> #[trigger] backfill_commands(world, start, end).filter(
                writes_for(number),
            ) == owed_writes(world, number),
{
    lemma_backfill_commands(world, start, end);
    lemma_range_gap(world, start as int, end as int, gap);
}

proof fn lemma_range_gap(world: World, start: int, end: int, gap: u64)
    requires
        0 <= start <= gap <= end <= u64::MAX,
        !world.blocks.contains_key(gap),
    ensures
        range_commands(world, start, end).filter(writes_for(gap)) == Seq::<CommandView>::empty(),
        range_commands(world, start, end).contains(
            CommandView::Report(Notice::BlockAbsent { number: gap }),
        ),
        range_commands(world, start, end).filter(is_lookup()) == lookups(start, end),
        forall|number: u64|
            gap < number <= end ==> #[trigger] range_commands(world, start, end).filter(
                writes_for(number),
            ) == owed_writes(world, number),
{
    let all = range_commands(world, start, end);
    lemma_range_writes(world, start, end, gap);
    lemma_range_lookups(world, start, end);
    lemma_range_holds(world, start, end, gap, 1);
    assert forall|number: u64| gap < number <= end implies #[trigger] all.filter(
        writes_for(number),
    ) == owed_writes(world, number) by {
        lemma_range_writes(world, start, end, number);
    }
}

proof fn lemma_range_holds(world: World, start: int, end: int, number: u64, k: int)
    requires
        0 <= start <= number <= end <= u64::MAX,
        0 <= k < block_commands(world, number).len(),
    ensures
        range_commands(world, start, end).contains(block_commands(world, number)[k]),
    decreases end - start + 1,
{
    let all = range_commands(world, start, end);
    let first = block_commands(world, start as u64);
    let rest = range_commands(world, start + 1, end);
    if start == number {
        assert(all[k] == first[k]);
    } else {
        lemma_range_holds(world, start + 1, end, number, k);
        let wanted = block_commands(world, number)[k];
        let h = choose|h: int| 0 <= h < rest.len() && rest[h] == wanted;
        assert(all[h + first.len()] == rest[h]);
    }
}

} // verus!
