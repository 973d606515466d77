//! The fork-choice view consumed by block verification: known blocks, the
//! finalized checkpoint, and the registration of attestations and slashings
//! extracted from imported blocks.

use vstd::prelude::*;
use crate::types::{AttesterSlashing, IndexedAttestation};
use crate::SLOTS_PER_EPOCH;

verus! {

/// Execution-layer status of a block known to fork choice.
#[derive(Clone, Copy, Debug, PartialEq, Eq, Structural)]
pub enum BlockExecutionStatus {
    /// The engine confirmed the payload valid.
    Valid(u64),
    /// The engine rejected the payload; no descendant can be valid.
    Invalid(u64),
    /// Imported optimistically; the payload is not yet confirmed.
    Optimistic(u64),
    /// Pre-merge block without a payload.
    Irrelevant,
}

impl BlockExecutionStatus {
    /// Whether the status marks the payload invalid.
    pub open spec fn spec_is_invalid(self) -> bool {
        self is Invalid
    }

    /// Whether the status marks the payload invalid.
    pub fn is_invalid(&self) -> (r: bool)
        ensures
            r == self.spec_is_invalid(),
    {
        matches!(self, BlockExecutionStatus::Invalid(_))
    }

    /// The execution block hash carried by the status, or zero pre-merge.
    pub fn block_hash(&self) -> (r: u64)
        ensures
            r == match *self {
                BlockExecutionStatus::Valid(h) => h,
                BlockExecutionStatus::Invalid(h) => h,
                BlockExecutionStatus::Optimistic(h) => h,
                BlockExecutionStatus::Irrelevant => 0u64,
            },
    {
        match self {
            BlockExecutionStatus::Valid(h) => *h,
            BlockExecutionStatus::Invalid(h) => *h,
            BlockExecutionStatus::Optimistic(h) => *h,
            BlockExecutionStatus::Irrelevant => 0,
        }
    }
}

/// Summary of a block as fork choice tracks it.
#[derive(Clone, Copy, Debug, PartialEq, Eq, Structural)]
pub struct ProtoBlock {
    pub root: u64,
    pub slot: u64,
    pub state_root: u64,
    pub execution_status: BlockExecutionStatus,
    /// Decision root for the shuffling of the epoch after the block's.
    pub next_epoch_shuffling_decision_root: u64,
}

/// An epoch boundary with its block root.
#[derive(Clone, Copy, Debug, PartialEq, Eq, Structural)]
pub struct Checkpoint {
    pub epoch: u64,
    pub root: u64,
}

/// Error registering an attestation with fork choice.
#[derive(Clone, Copy, Debug, PartialEq, Eq, Structural)]
pub enum ForkChoiceError {
    /// The attestation is stale or refers to an unknown block.
    InvalidAttestation,
}

/// The first tracked block with `root`, scanning front to back.
pub open spec fn spec_find_block(blocks: Seq<ProtoBlock>, root: u64) -> Option<ProtoBlock>
    decreases blocks.len(),
{
    if blocks.len() == 0 {
        None
    } else if blocks.first().root == root {
        Some(blocks.first())
    } else {
        spec_find_block(blocks.drop_first(), root)
    }
}

/// Fork choice's view of the chain. After pruning at finality it holds exactly
/// the finalized checkpoint's block and its descendants.
pub struct ForkChoiceView {
    /// Blocks tracked by fork choice, all descendants of the finalized
    /// checkpoint (or the checkpoint's own block).
    pub blocks: Vec<ProtoBlock>,
    pub finalized_checkpoint: Checkpoint,
    /// Attestations registered from imported blocks, in order.
    pub attestations: Vec<IndexedAttestation>,
    /// Attester slashings registered from imported blocks, in order.
    pub attester_slashings: Vec<AttesterSlashing>,
}

impl ForkChoiceView {
    /// First slot of the finalized epoch.
    pub open spec fn spec_finalized_slot(self) -> u64
        recommends
            self.finalized_checkpoint.epoch * SLOTS_PER_EPOCH <= u64::MAX,
    {
        (self.finalized_checkpoint.epoch * SLOTS_PER_EPOCH) as u64
    }

    /// Well-formedness: the finalized slot fits the slot range.
    pub open spec fn wf(self) -> bool {
        self.finalized_checkpoint.epoch * SLOTS_PER_EPOCH <= u64::MAX
    }

    /// First slot of the finalized epoch.
    pub fn finalized_slot(&self) -> (r: u64)
        requires
            self.wf(),
        ensures
            r == self.spec_finalized_slot(),
    {
        self.finalized_checkpoint.epoch * SLOTS_PER_EPOCH
    }

    /// Whether fork choice tracks a block with this root.
    pub fn contains_block(&self, block_root: u64) -> (r: bool)
        ensures
            r == (spec_find_block(self.blocks@, block_root) is Some),
    {
        self.get_block(block_root).is_some()
    }

    /// The tracked block with this root, if any.
    pub fn get_block(&self, block_root: u64) -> (r: Option<ProtoBlock>)
        ensures
            r == spec_find_block(self.blocks@, block_root),
    {
        let n = self.blocks.len();
        let ghost blocks = self.blocks@;
        proof {
            assert(blocks.skip(0) =~= blocks);
        }
        for i in 0..n
            invariant
                n == blocks.len(),
                blocks == self.blocks@,
                spec_find_block(blocks, block_root) == spec_find_block(
                    blocks.skip(i as int),
                    block_root,
                ),
        {
            proof {
                assert(blocks.skip(i as int).first() == blocks[i as int]);
                assert(blocks.skip(i as int).drop_first() =~= blocks.skip(i + 1));
            }
            if self.blocks[i].root == block_root {
                return Some(self.blocks[i]);
            }
        }
        assert(blocks.skip(n as int) =~= Seq::<ProtoBlock>::empty());
        None
    }

    /// Whether `block_root` is the finalized checkpoint or one of its
    /// descendants. Fork choice tracks exactly those blocks, so this is
    /// membership in its view.
    pub fn is_finalized_checkpoint_or_descendant(&self, block_root: u64) -> (r: bool)
        ensures
            r == (spec_find_block(self.blocks@, block_root) is Some),
    {
        self.contains_block(block_root)
    }

    /// Registers an attestation extracted from an imported block. A stale
    /// attestation — for a slot not yet reached or for a block fork choice
    /// does not know — is rejected, which importing callers deliberately
    /// tolerate.
    pub fn on_attestation(&mut self, current_slot: u64, attestation: IndexedAttestation) -> (r:
        Result<(), ForkChoiceError>)
        ensures
            final(self).blocks@ == old(self).blocks@,
            final(self).finalized_checkpoint == old(self).finalized_checkpoint,
            final(self).attester_slashings@ == old(self).attester_slashings@,
            match r {
                Ok(()) => {
                    &&& attestation.data.slot <= current_slot
                    &&& spec_find_block(old(self).blocks@, attestation.data.beacon_block_root)
                        is Some
                    &&& final(self).attestations@.len() == old(self).attestations@.len() + 1
                    &&& final(self).attestations@.drop_last() == old(self).attestations@
                    &&& crate::context::indexed_view_eq(
                        final(self).attestations@.last(),
                        attestation,
                    )
                },
                Err(e) => e == ForkChoiceError::InvalidAttestation && final(self).attestations@
                    == old(self).attestations@ && (attestation.data.slot > current_slot
                    || spec_find_block(old(self).blocks@, attestation.data.beacon_block_root)
                    is None),
            },
    {
        if attestation.data.slot > current_slot {
            return Err(ForkChoiceError::InvalidAttestation);
        }
        if !self.contains_block(attestation.data.beacon_block_root) {
            return Err(ForkChoiceError::InvalidAttestation);
        }
        self.attestations.push(attestation);
        Ok(())
    }

    /// Registers an attester slashing extracted from an imported block.
    pub fn on_attester_slashing(&mut self, slashing: AttesterSlashing)
        ensures
            final(self).blocks@ == old(self).blocks@,
            final(self).finalized_checkpoint == old(self).finalized_checkpoint,
            final(self).attestations@ == old(self).attestations@,
            final(self).attester_slashings@.len() == old(self).attester_slashings@.len() + 1,
            final(self).attester_slashings@.drop_last() == old(self).attester_slashings@,
            crate::context::indexed_view_eq(
                final(self).attester_slashings@.last().attestation_1,
                slashing.attestation_1,
            ),
            crate::context::indexed_view_eq(
                final(self).attester_slashings@.last().attestation_2,
                slashing.attestation_2,
            ),
    {
        self.attester_slashings.push(slashing);
    }
}

} // verus!
