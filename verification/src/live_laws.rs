use crate::engine::CommandView;
use crate::live_run::{feed_commands, lemma_live_commands, live_commands, lookup_commands};
use crate::normalize::block_record;
use crate::raw::{RawHeader, RawTransaction};
use crate::world::{lemma_filter_all, lemma_filter_none, transaction_commands, World};
use vstd::prelude::*;

verus! {

/// The writes that a feed is owed: for each header in turn, up to the first
/// one without a number, its record and then one write for each transaction
/// that the node holds for it.
pub open spec fn feed_writes(world: World, feed: Seq<RawHeader>) -> Seq<CommandView>
    decreases feed.len(),
{
    if feed.len() == 0 {
        Seq::empty()
    } else {
        match feed[0].number {
            None => Seq::empty(),
            Some(number) => seq![CommandView::StoreBlock(block_record(number, feed[0]))]
                + transaction_commands(
                number,
                match world.lookup(number) {
                    Some(block) => block.bodies(),
                    None => Seq::empty(),
                },
            ) + feed_writes(world, feed.skip(1)),
        }
    }
}

/// The test that picks the writes out of a run.
pub open spec fn is_write() -> spec_fn(CommandView) -> bool {
    |command: CommandView| command is StoreBlock || command is StoreTransaction
}

proof fn lemma_lookup_writes(world: World, number: u64)
    ensures
        lookup_commands(world, number).filter(is_write()) == transaction_commands(
            number,
            match world.lookup(number) {
                Some(block) => block.bodies(),
                None => Seq::empty(),
            },
        ),
{
    let keep = is_write();
    let fetch = seq![CommandView::FetchBlock { number }];
    let after = lookup_commands(world, number).skip(1);
    assert(lookup_commands(world, number) =~= fetch + after);
    lemma_filter_none(fetch, keep);
    Seq::filter_distributes_over_add(fetch, after, keep);
    assert(Seq::<CommandView>::empty() + after.filter(keep) =~= after.filter(keep));
    match world.lookup(number) {
        Some(block) => match block.transactions {
            Some(list) => {
                assert(after =~= transaction_commands(number, list@));
                lemma_filter_all(after, keep);
            },
            None => {
                lemma_filter_none(after, keep);
                assert(transaction_commands(number, block.bodies()) =~= Seq::empty());
            },
        },
        None => {
            lemma_filter_none(after, keep);
            assert(transaction_commands(number, Seq::<RawTransaction>::empty()) =~= Seq::empty());
        },
    }
}

proof fn lemma_header_writes(world: World, header: RawHeader, later: Seq<CommandView>)
    requires
        header.number is Some,
    ensures
        (seq![
            CommandView::AwaitHeader,
            CommandView::StoreBlock(block_record(header.number->0, header)),
        ] + lookup_commands(world, header.number->0) + later).filter(is_write()) == seq![
            CommandView::StoreBlock(block_record(header.number->0, header)),
        ] + lookup_commands(world, header.number->0).filter(is_write()) + later.filter(is_write()),
{
    let keep = is_write();
    let number = header.number->0;
    let wait = seq![CommandView::AwaitHeader];
    let record = seq![CommandView::StoreBlock(block_record(number, header))];
    let found = lookup_commands(world, number);
    lemma_filter_none(wait, keep);
    lemma_filter_all(record, keep);
    Seq::filter_distributes_over_add(wait, record, keep);
    Seq::filter_distributes_over_add(wait + record, found, keep);
    Seq::filter_distributes_over_add(wait + record + found, later, keep);
    assert(wait + record =~= seq![
        CommandView::AwaitHeader,
        CommandView::StoreBlock(block_record(number, header)),
    ]);
    assert(Seq::<CommandView>::empty() + record =~= record);
}

proof fn lemma_feed_writes(world: World, feed: Seq<RawHeader>)
    ensures
        feed_commands(world, feed).filter(is_write()) == feed_writes(world, feed),
    decreases feed.len(),
{
    let keep = is_write();
    if feed.len() > 0 && feed[0].number is Some {
        let number = feed[0].number->0;
        let later = feed_commands(world, feed.skip(1));
        lemma_lookup_writes(world, number);
        lemma_feed_writes(world, feed.skip(1));
        lemma_header_writes(world, feed[0], later);
    } else {
        lemma_filter_none(seq![CommandView::AwaitHeader], keep);
    }
}

/// In a live flow in which the feed, the node and the store can always be
/// reached, each header up to the first one without a number has exactly
/// one block record written, under the number it carries, followed by
/// exactly one record for each transaction that the node holds for that
/// number, in list order; nothing is written for a header without a number
/// nor for any header after it.
pub proof fn lemma_live_writes(world: World, feed: Seq<RawHeader>)
    requires
        world.dependable(),
    ensures
        live_commands(world, feed).filter(is_write()) == feed_writes(world, feed),
{
    lemma_live_commands(world, feed);
    lemma_feed_writes(world, feed);
}

} // verus!
