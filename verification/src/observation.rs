//! Equivocation and duplicate-proposal observation.
//!
//! A process-wide record of (proposer, slot) → block root. The
//! observe-and-check operation is an atomic check-then-insert (the caller
//! serialises it behind a write lock), which is the sole safeguard against two
//! sibling blocks from the same proposer both being accepted.

use vstd::prelude::*;
use crate::types::Block;

verus! {

/// Outcome of observing a proposal.
#[derive(Clone, Copy, Debug, PartialEq, Eq, Structural)]
pub enum SeenBlock {
    /// A different block from the same (proposer, slot) was already observed.
    Slashable,
    /// This exact block was already observed.
    Duplicate,
    /// First proposal observed from this (proposer, slot).
    UniqueNonSlashable,
}

/// One observed proposal.
#[derive(Clone, Copy, Debug, PartialEq, Eq, Structural)]
pub struct ObservedProposal {
    pub proposer: u64,
    pub slot: u64,
    pub root: u64,
}

/// The root recorded for (`proposer`, `slot`), scanning front to back.
pub open spec fn spec_find_proposal(items: Seq<ObservedProposal>, proposer: u64, slot: u64) -> Option<
    u64,
>
    decreases items.len(),
{
    if items.len() == 0 {
        None
    } else if items.first().proposer == proposer && items.first().slot == slot {
        Some(items.first().root)
    } else {
        spec_find_proposal(items.drop_first(), proposer, slot)
    }
}

/// The verdict observing (`root`, `proposer`, `slot`) against a record yields.
pub open spec fn spec_observe_verdict(
    items: Seq<ObservedProposal>,
    root: u64,
    proposer: u64,
    slot: u64,
) -> SeenBlock {
    match spec_find_proposal(items, proposer, slot) {
        Some(seen_root) => if seen_root == root {
            SeenBlock::Duplicate
        } else {
            SeenBlock::Slashable
        },
        None => SeenBlock::UniqueNonSlashable,
    }
}

/// Proposals retained by a prune at `finalized_slot`: those for later slots.
pub open spec fn spec_retained(items: Seq<ObservedProposal>, finalized_slot: u64) -> Seq<
    ObservedProposal,
> {
    items.filter(|p: ObservedProposal| p.slot > finalized_slot)
}

/// Per-proposer record of observed proposals, used to reject equivocating or
/// duplicate proposals.
pub struct ObservedBlockProducers {
    items: Vec<ObservedProposal>,
}

impl ObservedBlockProducers {
    /// The observed proposals, in observation order.
    pub closed spec fn view_items(self) -> Seq<ObservedProposal> {
        self.items@
    }

    /// An empty record.
    pub fn new() -> (r: Self)
        ensures
            r.view_items() == Seq::<ObservedProposal>::empty(),
    {
        ObservedBlockProducers { items: Vec::new() }
    }

    /// Atomic check-then-insert: observes the proposal of `block` under
    /// `block_root` and reports whether it is new, an exact repeat, or a
    /// slashable equivocation. Only a new proposal is recorded.
    pub fn observe_proposal(&mut self, block_root: u64, block: &Block) -> (r: SeenBlock)
        ensures
            r == spec_observe_verdict(
                old(self).view_items(),
                block_root,
                block.proposer_index,
                block.slot,
            ),
            r == SeenBlock::UniqueNonSlashable ==> final(self).view_items() == old(
                self,
            ).view_items().push(
                ObservedProposal {
                    proposer: block.proposer_index,
                    slot: block.slot,
                    root: block_root,
                },
            ),
            r != SeenBlock::UniqueNonSlashable ==> *final(self) == *old(self),
    {
        let n = self.items.len();
        let ghost items = self.items@;
        proof {
            assert(items.skip(0) =~= items);
        }
        for i in 0..n
            invariant
                n == items.len(),
                items == self.items@,
                spec_find_proposal(items, block.proposer_index, block.slot) == spec_find_proposal(
                    items.skip(i as int),
                    block.proposer_index,
                    block.slot,
                ),
        {
            proof {
                assert(items.skip(i as int).first() == items[i as int]);
                assert(items.skip(i as int).drop_first() =~= items.skip(i + 1));
            }
            let entry = self.items[i];
            if entry.proposer == block.proposer_index && entry.slot == block.slot {
                if entry.root == block_root {
                    return SeenBlock::Duplicate;
                } else {
                    return SeenBlock::Slashable;
                }
            }
        }
        assert(items.skip(n as int) =~= Seq::<ObservedProposal>::empty());
        self.items.push(
            ObservedProposal {
                proposer: block.proposer_index,
                slot: block.slot,
                root: block_root,
            },
        );
        SeenBlock::UniqueNonSlashable
    }

    /// Drops every observation at or before `finalized_slot`.
    pub fn prune(&mut self, finalized_slot: u64)
        ensures
            final(self).view_items() == spec_retained(old(self).view_items(), finalized_slot),
    {
        broadcast use vstd::seq_lib::group_filter_ensures;

        let n = self.items.len();
        let mut kept: Vec<ObservedProposal> = Vec::new();
        let ghost items = self.items@;
        proof {
            assert(items.take(0) =~= Seq::<ObservedProposal>::empty());
            assert(Seq::<ObservedProposal>::empty().filter(
                |p: ObservedProposal| p.slot > finalized_slot,
            ) =~= Seq::<ObservedProposal>::empty());
        }
        for i in 0..n
            invariant
                n == items.len(),
                items == self.items@,
                kept@ == items.take(i as int).filter(
                    |p: ObservedProposal| p.slot > finalized_slot,
                ),
        {
            let entry = self.items[i];
            proof {
                assert(items.take(i + 1) =~= items.take(i as int).push(items[i as int]));
                Seq::lemma_filter_push(
                    items.take(i as int),
                    items[i as int],
                    |p: ObservedProposal| p.slot > finalized_slot,
                );
            }
            if entry.slot > finalized_slot {
                kept.push(entry);
            }
        }
        proof {
            assert(items.take(n as int) =~= items);
        }
        self.items = kept;
    }
}

/// Record of (slot, proposer, root) triples seen anywhere, kept for slashing
/// evidence even when the block is otherwise rejected.
pub struct ObservedSlashable {
    items: Vec<ObservedProposal>,
}

impl ObservedSlashable {
    /// The observed triples, in observation order.
    pub closed spec fn view_items(self) -> Seq<ObservedProposal> {
        self.items@
    }

    /// An empty record.
    pub fn new() -> (r: Self)
        ensures
            r.view_items() == Seq::<ObservedProposal>::empty(),
    {
        ObservedSlashable { items: Vec::new() }
    }

    /// Records the triple; observing the same triple twice keeps one copy.
    pub fn observe_slashable(&mut self, slot: u64, proposer: u64, block_root: u64)
        ensures
            final(self).view_items().contains(
                ObservedProposal { proposer, slot, root: block_root },
            ),
            final(self).view_items() == old(self).view_items() || final(self).view_items() == old(
                self,
            ).view_items().push(ObservedProposal { proposer, slot, root: block_root }),
            old(self).view_items().contains(ObservedProposal { proposer, slot, root: block_root })
                ==> *final(self) == *old(self),
    {
        let target = ObservedProposal { proposer, slot, root: block_root };
        let n = self.items.len();
        for i in 0..n
            invariant
                n == self.items@.len(),
                target == (ObservedProposal { proposer, slot, root: block_root }),
                forall|j: int| 0 <= j < i ==> self.items@[j] != target,
        {
            let entry = self.items[i];
            if entry.proposer == proposer && entry.slot == slot && entry.root == block_root {
                assert(self.items@[i as int] == target);
                return ;
            }
        }
        assert(!self.items@.contains(target));
        self.items.push(target);
        assert(final(self).view_items().last() == target);
    }
}

/// Finding a proposal in a record extended at the back: the original record's
/// answer wins; the new entry answers only where the original had none.
proof fn lemma_find_proposal_push(
    items: Seq<ObservedProposal>,
    entry: ObservedProposal,
    proposer: u64,
    slot: u64,
)
    ensures
        spec_find_proposal(items.push(entry), proposer, slot) == match spec_find_proposal(
            items,
            proposer,
            slot,
        ) {
            Some(root) => Some(root),
            None => if entry.proposer == proposer && entry.slot == slot {
                Some(entry.root)
            } else {
                None
            },
        },
    decreases items.len(),
{
    if items.len() == 0 {
        assert(spec_find_proposal(Seq::<ObservedProposal>::empty(), proposer, slot) is None);
        assert(items =~= Seq::<ObservedProposal>::empty());
        assert(items.push(entry).drop_first() =~= Seq::<ObservedProposal>::empty());
        assert(items.push(entry).first() == entry);
        assert(items.push(entry).len() == 1);
        if entry.proposer == proposer && entry.slot == slot {
            assert(spec_find_proposal(items.push(entry), proposer, slot) == Some(entry.root));
        } else {
            assert(spec_find_proposal(items.push(entry), proposer, slot) == spec_find_proposal(
                items.push(entry).drop_first(),
                proposer,
                slot,
            ));
        }
    } else {
        assert(items.push(entry).first() == items.first());
        assert(items.push(entry).len() > 1);
        assert(items.push(entry).drop_first() =~= items.drop_first().push(entry));
        lemma_find_proposal_push(items.drop_first(), entry, proposer, slot);
        if items.first().proposer == proposer && items.first().slot == slot {
            assert(spec_find_proposal(items.push(entry), proposer, slot) == Some(
                items.first().root,
            ));
            assert(spec_find_proposal(items, proposer, slot) == Some(items.first().root));
        } else {
            assert(spec_find_proposal(items.push(entry), proposer, slot) == spec_find_proposal(
                items.drop_first().push(entry),
                proposer,
                slot,
            ));
            assert(spec_find_proposal(items, proposer, slot) == spec_find_proposal(
                items.drop_first(),
                proposer,
                slot,
            ));
        }
    }
}

/// Equivocation detection: once a proposal from (proposer, slot) has been
/// accepted as unique, any further proposal from the same (proposer, slot) is
/// rejected — as a duplicate when it is the same block, as slashable when it
/// is a different one. Two distinct blocks are never both accepted.
pub proof fn lemma_equivocation_detection(
    items: Seq<ObservedProposal>,
    first_root: u64,
    second_root: u64,
    proposer: u64,
    slot: u64,
)
    requires
        spec_observe_verdict(items, first_root, proposer, slot) == SeenBlock::UniqueNonSlashable,
    ensures
        spec_observe_verdict(
            items.push(ObservedProposal { proposer, slot, root: first_root }),
            second_root,
            proposer,
            slot,
        ) == if second_root == first_root {
            SeenBlock::Duplicate
        } else {
            SeenBlock::Slashable
        },
{
    lemma_find_proposal_push(
        items,
        ObservedProposal { proposer, slot, root: first_root },
        proposer,
        slot,
    );
}

} // verus!
