//! Typed rejection taxonomy for the verification pipeline.
//!
//! Every failure is classified: structural/temporal rejections, unknown
//! ancestry, cryptographic rejections, execution-payload rejections,
//! state-transition rejections, slashable equivocations, and internal errors
//! that must never be attributed to the peer.

use vstd::prelude::*;
use crate::context::ContextError;

verus! {

/// Errors internal to the model beacon state.
#[derive(Clone, Copy, Debug, PartialEq, Eq, Structural)]
pub enum BeaconStateError {
    /// A committee or proposer lookup ran before the caches were built.
    CommitteeCacheUninitialized,
    /// A validator index beyond the registry.
    UnknownValidator(u64),
    /// A slot outside the range the state can serve.
    SlotOutOfBounds,
    /// The committee index is not allocated at this slot.
    NoCommitteeFound(u64),
    /// An aggregation bitfield whose length does not match its committee.
    InvalidBitfield,
}

/// Infrastructure errors: never evidence that a block is invalid.
#[derive(Clone, Copy, Debug, PartialEq, Eq, Structural)]
pub enum BeaconChainError {
    /// The slot clock could not be read.
    UnableToReadSlot,
    /// A block known to fork choice is missing from the store.
    MissingBeaconBlock(u64),
    /// The store lacks the state that must accompany a stored block;
    /// carries the parent block root involved.
    DBInconsistent(u64),
    BeaconStateError(BeaconStateError),
    /// No proposer could be derived for the slot.
    NoProposerForSlot(u64),
    /// The runtime is shutting down; verification is inconclusive.
    RuntimeShutdown,
    /// An arithmetic overflow guard triggered; verification is inconclusive.
    ArithError,
    /// Collecting a block's signature sets failed structurally.
    BlockSignatureVerifierError(BlockSignatureVerifierError),
    /// The pre-state loaded for a block fails the slot sanity bounds.
    BadPreState {
        parent_root: u64,
        parent_slot: u64,
        block_root: u64,
        block_slot: u64,
        state_slot: u64,
    },
}

/// Rejections raised while collecting a block's signature sets.
#[derive(Clone, Copy, Debug, PartialEq, Eq, Structural)]
pub enum BlockSignatureVerifierError {
    /// The block names a proposer other than the locally derived one: an
    /// invalid block, not an internal error.
    IncorrectBlockProposer { block: u64, local_shuffling: u64 },
    /// A validator index with no public key in the cache.
    ValidatorUnknown(u64),
    /// A consensus-context lookup failed.
    ContextError(ContextError),
}

/// Rejections raised by the per-block state transition.
#[derive(Clone, Copy, Debug, PartialEq, Eq, Structural)]
pub enum BlockProcessingError {
    /// State-internal failure: surfaced as an internal error, not invalidity.
    BeaconStateError(BeaconStateError),
    /// The block's slot does not equal the state's slot.
    StateSlotMismatch { block_slot: u64, state_slot: u64 },
    /// The block is not newer than the latest header in the state.
    HeaderSlotNotLaterThanLatest { block_slot: u64, latest_slot: u64 },
    /// The block's parent root does not match the state's latest header.
    ParentBlockRootMismatch { expected: u64, found: u64 },
    /// The block names a proposer other than the state's assignment.
    ProposerIndexMismatch { block_proposer_index: u64, state_proposer_index: u64 },
    /// The RANDAO reveal is not a valid signature by the proposer.
    RandaoSignatureInvalid,
    /// The consensus context does not belong to this block's slot.
    ConsensusContext(ContextError),
    /// The proposer's block signature is invalid.
    ProposalSignatureInvalid,
}

/// Status an execution engine reports for a payload.
#[derive(Clone, Copy, Debug, PartialEq, Eq, Structural)]
pub enum PayloadStatus {
    Valid,
    Invalid,
    Syncing,
    Accepted,
}

/// Returned when block validation failed due to some issue verifying the
/// execution payload.
#[derive(Clone, Copy, Debug, PartialEq, Eq, Structural)]
pub enum ExecutionPayloadError {
    /// There is no execution-engine connection; our fault, not the peer's.
    NoExecutionConnection,
    /// The engine call failed; our configuration, not the peer.
    RequestFailed,
    /// The engine returned INVALID for the payload.
    RejectedByExecutionEngine { status: PayloadStatus },
    /// The payload's timestamp does not match the slot.
    InvalidPayloadTimestamp { expected: u64, found: u64 },
    /// The payload references an execution block that cannot trigger the merge.
    InvalidTerminalPoWBlock { parent_hash: u64 },
    /// A terminal block hash is configured but its activation epoch is not reached.
    InvalidActivationEpoch { activation_epoch: u64, epoch: u64 },
    /// A terminal block hash is configured and the payload does not match it.
    InvalidTerminalBlockHash { terminal_block_hash: u64, payload_parent_hash: u64 },
    /// The engine is syncing and the block fails the optimistic-import conditions.
    UnverifiedNonOptimisticCandidate,
}

impl ExecutionPayloadError {
    /// Whether this sub-kind is the peer's fault.
    pub open spec fn spec_penalize_peer(self) -> bool {
        match self {
            ExecutionPayloadError::NoExecutionConnection => false,
            ExecutionPayloadError::RequestFailed => false,
            ExecutionPayloadError::RejectedByExecutionEngine { .. } => false,
            ExecutionPayloadError::InvalidPayloadTimestamp { .. } => true,
            ExecutionPayloadError::InvalidTerminalPoWBlock { .. } => false,
            ExecutionPayloadError::InvalidActivationEpoch { .. } => false,
            ExecutionPayloadError::InvalidTerminalBlockHash { .. } => false,
            ExecutionPayloadError::UnverifiedNonOptimisticCandidate => false,
        }
    }

    /// Whether the peer should be penalised for this rejection. Only the
    /// trivially-checkable timestamp condition is always the peer's fault; an
    /// honest optimistic node may forward any of the others.
    pub fn penalize_peer(&self) -> (r: bool)
        ensures
            r == self.spec_penalize_peer(),
    {
        match self {
            ExecutionPayloadError::NoExecutionConnection => false,
            ExecutionPayloadError::RequestFailed => false,
            ExecutionPayloadError::RejectedByExecutionEngine { .. } => false,
            ExecutionPayloadError::InvalidPayloadTimestamp { .. } => true,
            ExecutionPayloadError::InvalidTerminalPoWBlock { .. } => false,
            ExecutionPayloadError::InvalidActivationEpoch { .. } => false,
            ExecutionPayloadError::InvalidTerminalBlockHash { .. } => false,
            ExecutionPayloadError::UnverifiedNonOptimisticCandidate => false,
        }
    }
}

/// Returned when a block was not verified: either the block is invalid, or an
/// internal error prevented verification.
#[derive(Clone, Copy, Debug, PartialEq, Eq, Structural)]
pub enum BlockError {
    /// The parent block was unknown: not necessarily faulty, fetch the parent.
    ParentUnknown { parent_root: u64 },
    /// The block's slot is beyond the present slot.
    FutureSlot { present_slot: u64, block_slot: u64 },
    /// The declared state root does not match the computed post-state.
    StateRootMismatch { block: u64, local: u64 },
    /// Genesis blocks cannot be re-imported.
    GenesisBlock,
    /// The block is for an already finalized slot.
    WouldRevertFinalizedSlot { block_slot: u64, finalized_slot: u64 },
    /// The block conflicts with finalization.
    NotFinalizedDescendant { block_parent_root: u64 },
    /// A block with this root was already imported.
    BlockIsAlreadyKnown(u64),
    /// The slot exceeds the absolute ceiling.
    BlockSlotLimitReached,
    /// The declared proposer differs from the locally derived one.
    IncorrectBlockProposer { block: u64, local_shuffling: u64 },
    /// The proposal signature is invalid.
    ProposalSignatureInvalid,
    /// The proposer index is not a known validator.
    UnknownValidator(u64),
    /// Some signature in the block is invalid (exactly which is unknown).
    InvalidSignature,
    /// The block is not from a later slot than its parent.
    BlockIsNotLaterThanParent { block_slot: u64, parent_slot: u64 },
    /// A segment block's parent root is not the prior block's root.
    NonLinearParentRoots,
    /// A segment's slots are not strictly increasing.
    NonLinearSlots,
    /// The per-block state transition rejected the block.
    PerBlockProcessingError(BlockProcessingError),
    /// An internal error; the block may still be valid.
    BeaconChainError(BeaconChainError),
    /// The block conflicts with the weak-subjectivity checkpoint.
    WeakSubjectivityConflict,
    /// The block has the wrong structure for the fork at its slot.
    InconsistentFork { fork_at_slot: u64, object_fork: u64 },
    /// The execution payload failed validation.
    ExecutionPayloadError(ExecutionPayloadError),
    /// The parent's execution payload is known to be invalid.
    ParentExecutionPayloadInvalid { parent_root: u64 },
    /// The block is a slashable equivocation from its proposer.
    Slashable,
}

/// Returned when a blob sidecar fails gossip verification.
#[derive(Clone, Copy, Debug, PartialEq, Eq, Structural)]
pub enum GossipBlobError {
    /// The blob is not from a later slot than its parent.
    BlobIsNotLaterThanParent { blob_slot: u64, parent_slot: u64 },
    /// The proposer index is not a known validator.
    UnknownValidator(u64),
    /// The proposal signature is invalid.
    ProposalSignatureInvalid,
    /// An internal error; the blob may still be valid.
    BeaconChainError(BeaconChainError),
}

/// Returned when a data-column sidecar fails gossip verification.
#[derive(Clone, Copy, Debug, PartialEq, Eq, Structural)]
pub enum GossipDataColumnError {
    /// The column is not from a later slot than its parent.
    IsNotLaterThanParent { data_column_slot: u64, parent_slot: u64 },
    /// The proposer index is not a known validator.
    UnknownValidator(u64),
    /// The proposal signature is invalid.
    ProposalSignatureInvalid,
    /// An internal error; the column may still be valid.
    BeaconChainError(BeaconChainError),
}

/// Unifies the block, blob and data-column error types, so that shared checks
/// (header signature, cheap state advance) can construct whichever the caller
/// needs.
pub trait BlockBlobError: Sized {
    /// The "not later than parent" rejection of this error type.
    spec fn spec_not_later_than_parent(block_slot: u64, parent_slot: u64) -> Self;

    /// The "unknown validator" rejection of this error type.
    spec fn spec_unknown_validator(validator_index: u64) -> Self;

    /// The "proposal signature invalid" rejection of this error type.
    spec fn spec_proposer_signature_invalid() -> Self;

    /// The internal-error wrapper of this error type.
    spec fn spec_beacon_chain_error(e: BeaconChainError) -> Self;

    fn not_later_than_parent_error(block_slot: u64, parent_slot: u64) -> (r: Self)
        ensures
            r == Self::spec_not_later_than_parent(block_slot, parent_slot),
    ;

    fn unknown_validator_error(validator_index: u64) -> (r: Self)
        ensures
            r == Self::spec_unknown_validator(validator_index),
    ;

    fn proposer_signature_invalid() -> (r: Self)
        ensures
            r == Self::spec_proposer_signature_invalid(),
    ;

    fn beacon_chain_error(e: BeaconChainError) -> (r: Self)
        ensures
            r == Self::spec_beacon_chain_error(e),
    ;
}

impl BlockBlobError for BlockError {
    open spec fn spec_not_later_than_parent(block_slot: u64, parent_slot: u64) -> Self {
        BlockError::BlockIsNotLaterThanParent { block_slot, parent_slot }
    }

    open spec fn spec_unknown_validator(validator_index: u64) -> Self {
        BlockError::UnknownValidator(validator_index)
    }

    open spec fn spec_proposer_signature_invalid() -> Self {
        BlockError::ProposalSignatureInvalid
    }

    open spec fn spec_beacon_chain_error(e: BeaconChainError) -> Self {
        BlockError::BeaconChainError(e)
    }

    fn not_later_than_parent_error(block_slot: u64, parent_slot: u64) -> (r: Self) {
        BlockError::BlockIsNotLaterThanParent { block_slot, parent_slot }
    }

    fn unknown_validator_error(validator_index: u64) -> (r: Self) {
        BlockError::UnknownValidator(validator_index)
    }

    fn proposer_signature_invalid() -> (r: Self) {
        BlockError::ProposalSignatureInvalid
    }

    fn beacon_chain_error(e: BeaconChainError) -> (r: Self) {
        BlockError::BeaconChainError(e)
    }
}

impl BlockBlobError for GossipBlobError {
    open spec fn spec_not_later_than_parent(block_slot: u64, parent_slot: u64) -> Self {
        GossipBlobError::BlobIsNotLaterThanParent { blob_slot: block_slot, parent_slot }
    }

    open spec fn spec_unknown_validator(validator_index: u64) -> Self {
        GossipBlobError::UnknownValidator(validator_index)
    }

    open spec fn spec_proposer_signature_invalid() -> Self {
        GossipBlobError::ProposalSignatureInvalid
    }

    open spec fn spec_beacon_chain_error(e: BeaconChainError) -> Self {
        GossipBlobError::BeaconChainError(e)
    }

    fn not_later_than_parent_error(block_slot: u64, parent_slot: u64) -> (r: Self) {
        GossipBlobError::BlobIsNotLaterThanParent { blob_slot: block_slot, parent_slot }
    }

    fn unknown_validator_error(validator_index: u64) -> (r: Self) {
        GossipBlobError::UnknownValidator(validator_index)
    }

    fn proposer_signature_invalid() -> (r: Self) {
        GossipBlobError::ProposalSignatureInvalid
    }

    fn beacon_chain_error(e: BeaconChainError) -> (r: Self) {
        GossipBlobError::BeaconChainError(e)
    }
}

impl BlockBlobError for GossipDataColumnError {
    open spec fn spec_not_later_than_parent(block_slot: u64, parent_slot: u64) -> Self {
        GossipDataColumnError::IsNotLaterThanParent { data_column_slot: block_slot, parent_slot }
    }

    open spec fn spec_unknown_validator(validator_index: u64) -> Self {
        GossipDataColumnError::UnknownValidator(validator_index)
    }

    open spec fn spec_proposer_signature_invalid() -> Self {
        GossipDataColumnError::ProposalSignatureInvalid
    }

    open spec fn spec_beacon_chain_error(e: BeaconChainError) -> Self {
        GossipDataColumnError::BeaconChainError(e)
    }

    fn not_later_than_parent_error(block_slot: u64, parent_slot: u64) -> (r: Self) {
        GossipDataColumnError::IsNotLaterThanParent { data_column_slot: block_slot, parent_slot }
    }

    fn unknown_validator_error(validator_index: u64) -> (r: Self) {
        GossipDataColumnError::UnknownValidator(validator_index)
    }

    fn proposer_signature_invalid() -> (r: Self) {
        GossipDataColumnError::ProposalSignatureInvalid
    }

    fn beacon_chain_error(e: BeaconChainError) -> (r: Self) {
        GossipDataColumnError::BeaconChainError(e)
    }
}

} // verus!
