use crate::engine::{CommandView, Reply};
use crate::normalize::transaction_record;
use crate::raw::{RawBlock, RawTransaction};
use vstd::prelude::*;

verus! {

/// The surroundings of a flow: a node that answers lookups from `blocks`,
/// and, counting the flow's commands from zero, the writes that the store
/// refuses, in `refused`, and the commands at which the feed, the node or
/// the store cannot be reached, in `unreachable`.
pub struct World {
    pub blocks: Map<u64, RawBlock>,
    pub refused: Set<nat>,
    pub unreachable: Set<nat>,
}

impl World {
    /// What the node holds under `number`.
    pub open spec fn lookup(self, number: u64) -> Option<RawBlock> {
        if self.blocks.contains_key(number) {
            Some(self.blocks[number])
        } else {
            None
        }
    }

    /// Whether the feed, the node and the store can always be reached.
    pub open spec fn dependable(self) -> bool {
        forall|at: nat| !self.unreachable.contains(at)
    }

    /// Whether the feed, the node and the store can be reached at each of
    /// the `count` commands from number `from` on.
    pub open spec fn reachable(self, from: nat, count: nat) -> bool {
        forall|at: nat| from <= at < from + count ==> !self.unreachable.contains(at)
    }

    /// The reply that carrying out `command` brings when it is the flow's
    /// command number `at`.
    pub open spec fn answer(self, command: CommandView, at: nat) -> Reply {
        if self.unreachable.contains(at) {
            Reply::Failed
        } else {
            match command {
                CommandView::FetchBlock { number } => Reply::Block(self.lookup(number)),
                CommandView::StoreBlock(_) | CommandView::StoreTransaction(_) => if self.refused.contains(
                    at,
                ) {
                    Reply::Rejected
                } else {
                    Reply::Stored
                },
                CommandView::Report(_) => Reply::Reported,
                CommandView::AwaitHeader => Reply::FeedClosed,
                CommandView::Stop(_) => Reply::Reported,
            }
        }
    }
}

/// The writes of the transactions `bodies` of block `number`, in list order.
pub open spec fn transaction_commands(number: u64, bodies: Seq<RawTransaction>) -> Seq<
    CommandView,
> {
    Seq::new(
        bodies.len(),
        |i: int| CommandView::StoreTransaction(transaction_record(number, bodies[i])),
    )
}

/// Filtering leaves nothing of a sequence in which no item passes.
pub(crate) proof fn lemma_filter_none<A>(s: Seq<A>, keep: spec_fn(A) -> bool)
    requires
        forall|i: int| 0 <= i < s.len() ==> !keep(#[trigger] s[i]),
    ensures
        s.filter(keep) == Seq::<A>::empty(),
    decreases s.len(),
{
    reveal(Seq::filter);
    if s.len() > 0 {
        assert forall|i: int| 0 <= i < s.drop_last().len() implies !keep(
            #[trigger] s.drop_last()[i],
        ) by {
            assert(s.drop_last()[i] == s[i]);
        }
        lemma_filter_none(s.drop_last(), keep);
    }
}

/// Filtering leaves a sequence as it is when every item passes.
pub(crate) proof fn lemma_filter_all<A>(s: Seq<A>, keep: spec_fn(A) -> bool)
    requires
        forall|i: int| 0 <= i < s.len() ==> keep(#[trigger] s[i]),
    ensures
        s.filter(keep) == s,
    decreases s.len(),
{
    reveal(Seq::filter);
    if s.len() > 0 {
        assert forall|i: int| 0 <= i < s.drop_last().len() implies keep(
            #[trigger] s.drop_last()[i],
        ) by {
            assert(s.drop_last()[i] == s[i]);
        }
        lemma_filter_all(s.drop_last(), keep);
        assert(s.drop_last().push(s.last()) =~= s);
    }
}

} // verus!
