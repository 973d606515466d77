//! Cheap structural and temporal gates: future slot, genesis, slot ceiling,
//! weak-subjectivity anchor, finalized slot, already-known; the ancestry
//! check against the finalized checkpoint; and loading the parent snapshot.

use vstd::prelude::*;
use crate::chain::BeaconChain;
use crate::errors::{BeaconChainError, BlockError};
use crate::fork_choice::{spec_find_block, ForkChoiceView, ProtoBlock};
use crate::state::{BeaconState, StateModel};
use crate::store::{spec_find_state, spec_find_stored_block};
use crate::types::{Block, SignedBlock, SignedBlockHeader};

verus! {

/// Maximum block slot number: blocks with bigger slots are not processed.
/// A sanity bound against overflow abuse, far beyond any reachable slot.
pub const MAXIMUM_BLOCK_SLOT_NUMBER: u64 = 4_294_967_296;

/// The rejection of the weak-subjectivity anchor gate, if any: a block at or
/// below the anchor slot conflicts with the configured checkpoint.
pub open spec fn spec_anchor_verdict(chain: BeaconChain, block_slot: u64) -> Option<BlockError> {
    match chain.store@.anchor_slot {
        Some(anchor_slot) => if block_slot <= anchor_slot {
            Some(BlockError::WeakSubjectivityConflict)
        } else {
            None
        },
        None => None,
    }
}

/// The rejection of the finalized-slot gate, if any: a block at or below the
/// finalized slot would revert finality.
pub open spec fn spec_finalized_slot_verdict(chain: BeaconChain, block_slot: u64) -> Option<
    BlockError,
> {
    if block_slot <= chain.fork_choice.spec_finalized_slot() {
        Some(
            BlockError::WouldRevertFinalizedSlot {
                block_slot,
                finalized_slot: chain.fork_choice.spec_finalized_slot(),
            },
        )
    } else {
        None
    }
}

/// The relevancy gate's classification of (block, root) on this chain state:
/// the first failing check, in order — clock readable, not from the future,
/// not genesis, below the slot ceiling, later than the finalized slot, not
/// already known — or nothing when the block is relevant.
pub open spec fn spec_relevancy_verdict(chain: BeaconChain, block: Block, block_root: u64) -> Option<
    BlockError,
> {
    match chain.current_slot {
        None => Some(BlockError::BeaconChainError(BeaconChainError::UnableToReadSlot)),
        Some(present_slot) => if block.slot > present_slot {
            Some(BlockError::FutureSlot { present_slot, block_slot: block.slot })
        } else if block.slot == 0 {
            Some(BlockError::GenesisBlock)
        } else if block.slot >= MAXIMUM_BLOCK_SLOT_NUMBER {
            Some(BlockError::BlockSlotLimitReached)
        } else if spec_finalized_slot_verdict(chain, block.slot) is Some {
            spec_finalized_slot_verdict(chain, block.slot)
        } else if spec_find_block(chain.fork_choice.blocks@, block_root) is Some {
            Some(BlockError::BlockIsAlreadyKnown(block_root))
        } else {
            None
        },
    }
}

/// Whether two chain handles agree on everything the relevancy checks read:
/// the clock, fork choice and the anchor. Their classification depends on
/// nothing else, so preserving this view preserves it.
pub open spec fn spec_gate_view_eq(c1: BeaconChain, c2: BeaconChain) -> bool {
    &&& c1.current_slot == c2.current_slot
    &&& c1.fork_choice == c2.fork_choice
    &&& c1.store@.anchor_slot == c2.store@.anchor_slot
}

/// Whether a chain handle is unchanged except for pre-finalization
/// bookkeeping.
pub open spec fn spec_unchanged_but_bookkeeping(c1: BeaconChain, c2: BeaconChain) -> bool {
    &&& c2.chain_spec == c1.chain_spec
    &&& c2.genesis_validators_root == c1.genesis_validators_root
    &&& c2.current_slot == c1.current_slot
    &&& c2.head_fork_version == c1.head_fork_version
    &&& c2.fork_choice == c1.fork_choice
    &&& c2.store == c1.store
    &&& c2.observed_block_producers == c1.observed_block_producers
    &&& c2.observed_slashable == c1.observed_slashable
    &&& c2.validator_pubkey_cache == c1.validator_pubkey_cache
    &&& c2.beacon_proposer_cache == c1.beacon_proposer_cache
    &&& c2.slasher == c1.slasher
}

/// Returns nothing if the block's slot is beyond the anchor slot (if any):
/// blocks at or below the weak-subjectivity anchor are never re-verified.
pub fn check_block_against_anchor_slot(block: &Block, chain: &BeaconChain) -> (r: Result<
    (),
    BlockError,
>)
    ensures
        match spec_anchor_verdict(*chain, block.slot) {
            Some(e) => r == Err::<(), BlockError>(e),
            None => r == Ok::<(), BlockError>(()),
        },
{
    if let Some(anchor_slot) = chain.store.get_anchor_slot() {
        if block.slot <= anchor_slot {
            return Err(BlockError::WeakSubjectivityConflict);
        }
    }
    Ok(())
}

/// Returns nothing if the block is later than the finalized slot known to
/// fork choice. A block at or below it is rejected and recorded as a
/// pre-finalization rejection for bookkeeping; nothing else changes.
pub fn check_block_against_finalized_slot(
    block: &Block,
    block_root: u64,
    chain: &mut BeaconChain,
) -> (r: Result<(), BlockError>)
    requires
        old(chain).wf(),
    ensures
        match spec_finalized_slot_verdict(*old(chain), block.slot) {
            Some(e) => r == Err::<(), BlockError>(e) && final(chain).pre_finalization_rejected@
                == (if old(chain).pre_finalization_rejected@.contains(block_root) {
                old(chain).pre_finalization_rejected@
            } else {
                old(chain).pre_finalization_rejected@.push(block_root)
            }),
            None => r == Ok::<(), BlockError>(()) && *final(chain) == *old(chain),
        },
        spec_unchanged_but_bookkeeping(*old(chain), *final(chain)),
{
    let finalized_slot = chain.fork_choice.finalized_slot();
    if block.slot <= finalized_slot {
        chain.pre_finalization_block_rejected(block_root);
        Err(BlockError::WouldRevertFinalizedSlot { block_slot: block.slot, finalized_slot })
    } else {
        Ok(())
    }
}

/// Performs simple, cheap checks to ensure that the block is relevant to be
/// imported: the claimed root is returned if the block passes, the first
/// failing check's rejection otherwise. Beyond the bookkeeping of a
/// finalized-slot rejection nothing is written, and that record is never
/// read here, so repeating the call classifies the block the same way and
/// writes nothing new.
pub fn check_block_relevancy(
    signed_block: &SignedBlock,
    block_root: u64,
    chain: &mut BeaconChain,
) -> (r: Result<u64, BlockError>)
    requires
        old(chain).wf(),
    ensures
        match spec_relevancy_verdict(*old(chain), signed_block.message, block_root) {
            Some(e) => r == Err::<u64, BlockError>(e),
            None => r == Ok::<u64, BlockError>(block_root),
        },
        spec_unchanged_but_bookkeeping(*old(chain), *final(chain)),
        spec_gate_view_eq(*old(chain), *final(chain)),
        final(chain).pre_finalization_rejected@ == (if spec_relevancy_verdict(
            *old(chain),
            signed_block.message,
            block_root,
        ) == Some(
            BlockError::WouldRevertFinalizedSlot {
                block_slot: signed_block.message.slot,
                finalized_slot: old(chain).fork_choice.spec_finalized_slot(),
            },
        ) && !old(chain).pre_finalization_rejected@.contains(block_root) {
            old(chain).pre_finalization_rejected@.push(block_root)
        } else {
            old(chain).pre_finalization_rejected@
        }),
{
    let block = &signed_block.message;
    let present_slot = match chain.slot() {
        Ok(slot) => slot,
        Err(e) => {
            return Err(BlockError::BeaconChainError(e));
        },
    };
    if block.slot > present_slot {
        return Err(BlockError::FutureSlot { present_slot, block_slot: block.slot });
    }
    if block.slot == 0 {
        return Err(BlockError::GenesisBlock);
    }
    if block.slot >= MAXIMUM_BLOCK_SLOT_NUMBER {
        return Err(BlockError::BlockSlotLimitReached);
    }
    match check_block_against_finalized_slot(block, block_root, chain) {
        Ok(()) => (),
        Err(e) => {
            return Err(e);
        },
    }
    if chain.fork_choice.contains_block(block_root) {
        return Err(BlockError::BlockIsAlreadyKnown(block_root));
    }
    Ok(block_root)
}

/// Idempotence of the relevancy checks: they read only the clock, fork
/// choice and the anchor, which they preserve, so repeating them for one
/// (block, root) pair yields the same classification; and once a rejection
/// has been recorded, repeating it leaves the chain handle untouched — the
/// bookkeeping entry of a pre-finalization rejection is already present.
pub proof fn lemma_relevancy_gate_idempotent(
    before: BeaconChain,
    after: BeaconChain,
    block: Block,
    block_root: u64,
)
    requires
        spec_gate_view_eq(before, after),
        spec_unchanged_but_bookkeeping(before, after),
        after.pre_finalization_rejected@ == (if spec_relevancy_verdict(before, block, block_root)
            == Some(
            BlockError::WouldRevertFinalizedSlot {
                block_slot: block.slot,
                finalized_slot: before.fork_choice.spec_finalized_slot(),
            },
        ) && !before.pre_finalization_rejected@.contains(block_root) {
            before.pre_finalization_rejected@.push(block_root)
        } else {
            before.pre_finalization_rejected@
        }),
    ensures
        spec_relevancy_verdict(after, block, block_root) == spec_relevancy_verdict(
            before,
            block,
            block_root,
        ),
        spec_relevancy_verdict(before, block, block_root) is Some
            ==> after.pre_finalization_rejected@ == (if spec_relevancy_verdict(
            after,
            block,
            block_root,
        ) == Some(
            BlockError::WouldRevertFinalizedSlot {
                block_slot: block.slot,
                finalized_slot: after.fork_choice.spec_finalized_slot(),
            },
        ) && !after.pre_finalization_rejected@.contains(block_root) {
            after.pre_finalization_rejected@.push(block_root)
        } else {
            after.pre_finalization_rejected@
        }),
{
    if spec_relevancy_verdict(before, block, block_root) == Some(
        BlockError::WouldRevertFinalizedSlot {
            block_slot: block.slot,
            finalized_slot: before.fork_choice.spec_finalized_slot(),
        },
    ) && !before.pre_finalization_rejected@.contains(block_root) {
        assert(after.pre_finalization_rejected@.last() == block_root);
        assert(after.pre_finalization_rejected@.contains(block_root));
    }
}

/// Returns nothing if the block descends from the finalized checkpoint.
/// Otherwise the parent is not in fork choice's post-finalization view: a
/// parent in durable storage means the block conflicts with finality, an
/// entirely unknown parent should be requested from peers.
pub fn check_block_is_finalized_checkpoint_or_descendant(
    chain: &BeaconChain,
    fork_choice: &ForkChoiceView,
    block: &SignedBlock,
) -> (r: Result<(), BlockError>)
    ensures
        spec_find_block(fork_choice.blocks@, block.message.parent_root) is Some ==> r == Ok::<
            (),
            BlockError,
        >(()),
        spec_find_block(fork_choice.blocks@, block.message.parent_root) is None ==> r == Err::<
            (),
            BlockError,
        >(
            if spec_find_stored_block(chain.store@.blocks, block.message.parent_root) is Some {
                BlockError::NotFinalizedDescendant { block_parent_root: block.message.parent_root }
            } else {
                BlockError::ParentUnknown { parent_root: block.message.parent_root }
            },
        ),
{
    if fork_choice.is_finalized_checkpoint_or_descendant(block.parent_root()) {
        Ok(())
    } else {
        if chain.store.block_exists(block.parent_root()) {
            Err(BlockError::NotFinalizedDescendant { block_parent_root: block.message.parent_root })
        } else {
            Err(BlockError::ParentUnknown { parent_root: block.message.parent_root })
        }
    }
}

/// Verifies that the parent of `block` is known to fork choice, returning the
/// parent's fork-choice summary.
pub fn verify_parent_block_is_known(
    block_root: u64,
    fork_choice: &ForkChoiceView,
    block: &SignedBlock,
) -> (r: Result<ProtoBlock, BlockError>)
    ensures
        match spec_find_block(fork_choice.blocks@, block.message.parent_root) {
            Some(proto_block) => r == Ok::<ProtoBlock, BlockError>(proto_block),
            None => r == Err::<ProtoBlock, BlockError>(
                BlockError::ParentUnknown { parent_root: block.message.parent_root },
            ),
        },
{
    match fork_choice.get_block(block.parent_root()) {
        Some(proto_block) => Ok(proto_block),
        None => Err(BlockError::ParentUnknown { parent_root: block.message.parent_root }),
    }
}

/// The parent snapshot a stage owns while verifying a block: the parent block
/// (blinded, as a header), its root, the pre-state to build on — possibly
/// already advanced past the parent's slot — and the pre-state's root when it
/// is exactly the parent block's state. Transferred by move between stages,
/// never copied.
pub struct PreProcessingSnapshot {
    pub beacon_block: SignedBlockHeader,
    pub beacon_block_root: u64,
    pub pre_state: BeaconState,
    pub beacon_state_root: Option<u64>,
}

/// What loading the parent of `block` yields on this chain: the parent header
/// and the stored pre-state — possibly advanced past the parent's slot, but
/// never past the block's — or the rejection. A parent outside fork choice is
/// unknown (fetchable); a parent in fork choice but missing from the store,
/// or stored with a state past the block, is an internal inconsistency.
pub open spec fn spec_load_parent_verdict(chain: BeaconChain, block: SignedBlock) -> Result<
    (SignedBlockHeader, StateModel, Option<u64>),
    BlockError,
> {
    if spec_find_block(chain.fork_choice.blocks@, block.message.parent_root) is None {
        Err(BlockError::ParentUnknown { parent_root: block.message.parent_root })
    } else {
        match spec_find_stored_block(chain.store@.blocks, block.message.parent_root) {
            None => Err(
                BlockError::BeaconChainError(
                    BeaconChainError::MissingBeaconBlock(block.message.parent_root),
                ),
            ),
            Some(parent_header) => match spec_find_state(
                chain.store@.states,
                parent_header.message.state_root,
            ) {
                None => Err(
                    BlockError::BeaconChainError(
                        BeaconChainError::DBInconsistent(block.message.parent_root),
                    ),
                ),
                Some(state) => if state.slot > block.message.slot {
                    Err(
                        BlockError::BeaconChainError(
                            BeaconChainError::DBInconsistent(block.message.parent_root),
                        ),
                    )
                } else {
                    Ok(
                        (
                            parent_header,
                            state,
                            if state.slot == parent_header.message.slot {
                                Some(parent_header.message.state_root)
                            } else {
                                None
                            },
                        ),
                    )
                },
            },
        }
    }
}

/// Loads the parent snapshot (block and pre-state) of the given block from
/// the store, provided fork choice knows the parent.
pub fn load_parent(block: &SignedBlock, chain: &BeaconChain) -> (r: Result<
    PreProcessingSnapshot,
    BlockError,
>)
    ensures
        match spec_load_parent_verdict(*chain, *block) {
            Ok((parent_header, state, state_root)) => match r {
                Ok(snapshot) => {
                    &&& snapshot.beacon_block == parent_header
                    &&& snapshot.beacon_block_root == block.message.parent_root
                    &&& snapshot.pre_state@ == state
                    &&& snapshot.pre_state@.slot <= block.message.slot
                    &&& snapshot.beacon_state_root == state_root
                },
                Err(_) => false,
            },
            Err(e) => r matches Err(e2) && e2 == e,
        },
{
    if !chain.fork_choice.contains_block(block.parent_root()) {
        return Err(BlockError::ParentUnknown { parent_root: block.message.parent_root });
    }
    let root = block.parent_root();
    let parent_block = match chain.store.get_blinded_block(root) {
        Some(header) => header,
        None => {
            return Err(
                BlockError::BeaconChainError(BeaconChainError::MissingBeaconBlock(root)),
            );
        },
    };
    let (parent_state_root, state) = match chain.store.get_advanced_hot_state(
        root,
        block.slot(),
        parent_block.message.state_root,
    ) {
        Some(found) => found,
        None => {
            return Err(BlockError::BeaconChainError(BeaconChainError::DBInconsistent(root)));
        },
    };
    // The stored pre-state may be advanced past the parent, but never past
    // the block it is to serve.
    if state.slot > block.slot() {
        return Err(BlockError::BeaconChainError(BeaconChainError::DBInconsistent(root)));
    }
    let beacon_state_root = if state.slot == parent_block.message.slot {
        if parent_state_root != parent_block.message.state_root {
            return Err(BlockError::BeaconChainError(BeaconChainError::DBInconsistent(root)));
        }
        Some(parent_block.message.state_root)
    } else {
        None
    };
    Ok(
        PreProcessingSnapshot {
            beacon_block: parent_block,
            beacon_block_root: root,
            pre_state: state,
            beacon_state_root,
        },
    )
}

} // verus!
