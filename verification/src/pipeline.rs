//! The verification stage pipeline: an untrusted block moves from unverified
//! through gossip-verified and signature-verified to execution-pending, each
//! wrapper capturing strictly more validation work. Constructors consume the
//! predecessor by move, so a block can never regress to a weaker stage.

use vstd::prelude::*;
use crate::chain::BeaconChain;
use crate::context::ConsensusContext;
use crate::errors::{BeaconChainError, BeaconStateError, BlockError, BlockProcessingError,
    BlockSignatureVerifierError, ExecutionPayloadError, GossipBlobError, GossipDataColumnError,
    PayloadStatus};
use crate::fork_choice::{spec_find_block, BlockExecutionStatus, ProtoBlock};
use crate::observation::{spec_observe_verdict, ObservedProposal, SeenBlock};
use crate::relevancy::{check_block_against_anchor_slot, check_block_against_finalized_slot,
    check_block_relevancy, check_block_is_finalized_checkpoint_or_descendant, load_parent,
    spec_anchor_verdict, spec_finalized_slot_verdict, spec_load_parent_verdict,
    spec_relevancy_verdict, verify_parent_block_is_known, PreProcessingSnapshot};
use crate::roots::{block_root_of, get_block_header_root, header_of, signed_block_header};
use crate::signatures::{all_valid, get_signature_verifier, spec_guarded_pubkeys,
    spec_header_signature_valid, verify_header_signature};
use crate::state::{cheap_state_advance_to_obtain_committees, spec_cheap_advanced, ChainSpec,
    CommitteeState, ForkScheduleEntry, StateModel};
use crate::types::{ExecutionPayload, SignedBlock, SignedBlockHeader, DOMAIN_BEACON_PROPOSER};
use crate::{epoch_of, spec_epoch_of, SLOTS_PER_EPOCH};

verus! {

/// How much validation work a wrapper captures. The pipeline only ever moves
/// a block to a stage of strictly higher rank.
#[derive(Clone, Copy, Debug, PartialEq, Eq, Structural)]
pub enum VerificationStage {
    Unverified,
    GossipVerified,
    SignatureVerified,
    ExecutionPending,
}

/// Order of the stages: each transition strictly increases it.
pub open spec fn stage_rank(stage: VerificationStage) -> int {
    match stage {
        VerificationStage::Unverified => 0,
        VerificationStage::GossipVerified => 1,
        VerificationStage::SignatureVerified => 2,
        VerificationStage::ExecutionPending => 3,
    }
}

/// Monotonicity of the pipeline: every constructor consumes its input stage
/// by move and produces a wrapper of strictly higher rank, so the stage a
/// block has reached never regresses: gossip verification lifts an unverified
/// block, signature verification lifts either, and the final stage lifts a
/// signature-verified block.
pub proof fn lemma_stage_progression()
    ensures
        stage_rank(VerificationStage::GossipVerified) > stage_rank(VerificationStage::Unverified),
        stage_rank(VerificationStage::SignatureVerified) > stage_rank(
            VerificationStage::GossipVerified,
        ),
        stage_rank(VerificationStage::ExecutionPending) > stage_rank(
            VerificationStage::SignatureVerified,
        ),
{
}

/// Information about invalid blocks which might still be slashable despite
/// being invalid.
pub enum BlockSlashInfo<TErr> {
    /// The block is invalid, but its proposer signature wasn't checked.
    SignatureNotChecked(SignedBlockHeader, TErr),
    /// The block's proposer signature is invalid, so it is never slashable.
    SignatureInvalid(TErr),
    /// The signature is valid but the block is invalid in some other way.
    SignatureValid(SignedBlockHeader, TErr),
}

impl BlockSlashInfo<BlockError> {
    /// Classifies an early block rejection: a failed proposal signature is
    /// never slashable; any other failure leaves the proposer signature
    /// unchecked, so the header is carried for an independent check.
    /// `InvalidSignature` could mean any signature in the block, so the
    /// proposer signature still counts as unchecked.
    pub fn from_early_error_block(header: SignedBlockHeader, e: BlockError) -> (r: Self)
        ensures
            r == (if e == BlockError::ProposalSignatureInvalid {
                BlockSlashInfo::SignatureInvalid(e)
            } else {
                BlockSlashInfo::SignatureNotChecked(header, e)
            }),
    {
        match e {
            BlockError::ProposalSignatureInvalid => BlockSlashInfo::SignatureInvalid(e),
            _ => BlockSlashInfo::SignatureNotChecked(header, e),
        }
    }
}

impl BlockSlashInfo<GossipBlobError> {
    /// As for blocks: classifies an early blob rejection.
    pub fn from_early_error_blob(header: SignedBlockHeader, e: GossipBlobError) -> (r: Self)
        ensures
            r == (if e == GossipBlobError::ProposalSignatureInvalid {
                BlockSlashInfo::SignatureInvalid(e)
            } else {
                BlockSlashInfo::SignatureNotChecked(header, e)
            }),
    {
        match e {
            GossipBlobError::ProposalSignatureInvalid => BlockSlashInfo::SignatureInvalid(e),
            _ => BlockSlashInfo::SignatureNotChecked(header, e),
        }
    }
}

impl BlockSlashInfo<GossipDataColumnError> {
    /// As for blocks: classifies an early data-column rejection.
    pub fn from_early_error_data_column(header: SignedBlockHeader, e: GossipDataColumnError) -> (r:
        Self)
        ensures
            r == (if e == GossipDataColumnError::ProposalSignatureInvalid {
                BlockSlashInfo::SignatureInvalid(e)
            } else {
                BlockSlashInfo::SignatureNotChecked(header, e)
            }),
    {
        match e {
            GossipDataColumnError::ProposalSignatureInvalid => BlockSlashInfo::SignatureInvalid(e),
            _ => BlockSlashInfo::SignatureNotChecked(header, e),
        }
    }
}

/// Whether slash-info processing forwards the carried header to the slasher:
/// a header whose signature was already confirmed is forwarded directly; one
/// never checked is forwarded only if the independent header-only signature
/// check confirms it; an invalid signature is never forwarded.
pub open spec fn spec_slash_info_forwards<TErr>(
    chain: BeaconChain,
    slash_info: BlockSlashInfo<TErr>,
) -> Option<SignedBlockHeader> {
    match slash_info {
        BlockSlashInfo::SignatureNotChecked(header, _) => if spec_header_signature_valid(
            chain,
            header,
        ) {
            Some(header)
        } else {
            None
        },
        BlockSlashInfo::SignatureInvalid(_) => None,
        BlockSlashInfo::SignatureValid(header, _) => Some(header),
    }
}

/// The error a slash-info classification carries.
pub open spec fn spec_slash_info_error<TErr>(slash_info: BlockSlashInfo<TErr>) -> TErr {
    match slash_info {
        BlockSlashInfo::SignatureNotChecked(_, e) => e,
        BlockSlashInfo::SignatureInvalid(e) => e,
        BlockSlashInfo::SignatureValid(_, e) => e,
    }
}

/// Processes an invalid block's slashing evidence and returns the original
/// rejection. If a slasher is attached, a header is forwarded to it exactly
/// when its proposer signature is confirmed: headers already confirmed go
/// directly, unchecked ones only after the independent header-only check, and
/// a header whose signature failed is never forwarded. Without a slasher this
/// is a no-op.
pub fn process_block_slash_info<E: crate::errors::BlockBlobError>(
    chain: &mut BeaconChain,
    slash_info: BlockSlashInfo<E>,
) -> (r: E)
    ensures
        r == spec_slash_info_error(slash_info),
        final(chain).chain_spec == old(chain).chain_spec,
        final(chain).genesis_validators_root == old(chain).genesis_validators_root,
        final(chain).current_slot == old(chain).current_slot,
        final(chain).head_fork_version == old(chain).head_fork_version,
        final(chain).fork_choice == old(chain).fork_choice,
        final(chain).store == old(chain).store,
        final(chain).observed_block_producers == old(chain).observed_block_producers,
        final(chain).observed_slashable == old(chain).observed_slashable,
        final(chain).validator_pubkey_cache == old(chain).validator_pubkey_cache,
        final(chain).beacon_proposer_cache == old(chain).beacon_proposer_cache,
        final(chain).pre_finalization_rejected == old(chain).pre_finalization_rejected,
        match old(chain).slasher {
            None => final(chain).slasher == old(chain).slasher,
            Some(slasher) => match spec_slash_info_forwards(*old(chain), slash_info) {
                Some(header) => final(chain).slasher matches Some(s) && s.accepted_headers@
                    == slasher.accepted_headers@.push(header),
                None => final(chain).slasher == old(chain).slasher,
            },
        },
{
    let has_slasher = chain.slasher.is_some();
    if has_slasher {
        let (verified_header, error) = match slash_info {
            BlockSlashInfo::SignatureNotChecked(header, e) => {
                match verify_header_signature::<E>(chain, &header) {
                    Ok(()) => (header, e),
                    Err(_) => {
                        return e;
                    },
                }
            },
            BlockSlashInfo::SignatureInvalid(e) => {
                return e;
            },
            BlockSlashInfo::SignatureValid(header, e) => (header, e),
        };
        match &mut chain.slasher {
            Some(slasher) => {
                slasher.accept_block_header(verified_header);
            },
            None => {
                assert(false);
            },
        }
        error
    } else {
        match slash_info {
            BlockSlashInfo::SignatureNotChecked(_, e) => e,
            BlockSlashInfo::SignatureInvalid(e) => e,
            BlockSlashInfo::SignatureValid(_, e) => e,
        }
    }
}

/// Slash-info safety: a rejection whose proposer signature was never checked
/// forwards its header to the slasher only when the independent header-only
/// signature check confirms it; when that check fails, the header is not
/// forwarded.
pub proof fn lemma_slash_info_safety<TErr>(
    chain: BeaconChain,
    header: SignedBlockHeader,
    e: TErr,
)
    ensures
        !spec_header_signature_valid(chain, header) ==> spec_slash_info_forwards(
            chain,
            BlockSlashInfo::SignatureNotChecked(header, e),
        ) is None,
        spec_header_signature_valid(chain, header) ==> spec_slash_info_forwards(
            chain,
            BlockSlashInfo::SignatureNotChecked(header, e),
        ) == Some(header),
{
}

/// Records whether the execution engine validated the block's payload and
/// whether this block is a merge-transition boundary block.
#[derive(Clone, Copy, Debug, PartialEq, Eq, Structural)]
pub struct PayloadVerificationOutcome {
    pub payload_verification_status: PayloadVerificationStatus,
    pub is_valid_merge_transition_block: bool,
}

/// How far the execution engine got with a payload.
#[derive(Clone, Copy, Debug, PartialEq, Eq, Structural)]
pub enum PayloadVerificationStatus {
    /// The engine confirmed the payload valid.
    Verified,
    /// The engine could not (yet) confirm it; imported optimistically.
    Optimistic,
    /// Pre-merge block: no payload to verify.
    Irrelevant,
}

/// Whether the caller wants the execution layer notified of the new payload.
#[derive(Clone, Copy, Debug, PartialEq, Eq, Structural)]
pub enum NotifyExecutionLayer {
    Yes,
    No,
}

/// Everything the asynchronous payload check needs: handed to the runner that
/// performs the engine round-trip concurrently with state transition, then
/// joined through `complete_payload_verification`.
#[derive(Clone, Copy, Debug, PartialEq, Eq, Structural)]
pub struct PayloadVerificationRequest {
    pub notify_execution_layer: NotifyExecutionLayer,
    pub payload: Option<ExecutionPayload>,
    pub block_root: u64,
    pub block_slot: u64,
    pub parent_root: u64,
    pub is_valid_merge_transition_block: bool,
    /// Terminal execution-block hash configured for the merge; zero if unset.
    pub terminal_block_hash: u64,
    pub terminal_block_hash_activation_epoch: u64,
}

/// The payload-check outcome for given engine answers: `terminal_valid` is
/// the engine's view of the terminal block (absent when it cannot tell yet),
/// `payload_status` the engine's answer to the new payload (absent without a
/// connection), `engine_synced` whether the engine itself is synced enough to
/// justify optimistic trust.
pub open spec fn spec_payload_verification_verdict(
    request: PayloadVerificationRequest,
    terminal_valid: Option<bool>,
    payload_status: Option<PayloadStatus>,
    engine_synced: bool,
) -> Result<PayloadVerificationOutcome, BlockError> {
    if request.payload is None {
        Ok(
            PayloadVerificationOutcome {
                payload_verification_status: PayloadVerificationStatus::Irrelevant,
                is_valid_merge_transition_block: false,
            },
        )
    } else if request.notify_execution_layer == NotifyExecutionLayer::No {
        Ok(
            PayloadVerificationOutcome {
                payload_verification_status: PayloadVerificationStatus::Optimistic,
                is_valid_merge_transition_block: request.is_valid_merge_transition_block,
            },
        )
    } else {
        let payload = request.payload.unwrap();
        if request.is_valid_merge_transition_block && request.terminal_block_hash != 0 && spec_epoch_of(
            request.block_slot,
        ) < request.terminal_block_hash_activation_epoch {
            Err(
                BlockError::ExecutionPayloadError(
                    ExecutionPayloadError::InvalidActivationEpoch {
                        activation_epoch: request.terminal_block_hash_activation_epoch,
                        epoch: spec_epoch_of(request.block_slot),
                    },
                ),
            )
        } else if request.is_valid_merge_transition_block && request.terminal_block_hash != 0
            && payload.parent_hash != request.terminal_block_hash {
            Err(
                BlockError::ExecutionPayloadError(
                    ExecutionPayloadError::InvalidTerminalBlockHash {
                        terminal_block_hash: request.terminal_block_hash,
                        payload_parent_hash: payload.parent_hash,
                    },
                ),
            )
        } else if request.is_valid_merge_transition_block && request.terminal_block_hash == 0
            && terminal_valid == Some(false) {
            Err(
                BlockError::ExecutionPayloadError(
                    ExecutionPayloadError::InvalidTerminalPoWBlock {
                        parent_hash: payload.parent_hash,
                    },
                ),
            )
        } else {
            match payload_status {
                None => Err(
                    BlockError::ExecutionPayloadError(ExecutionPayloadError::NoExecutionConnection),
                ),
                Some(PayloadStatus::Valid) => Ok(
                    PayloadVerificationOutcome {
                        payload_verification_status: PayloadVerificationStatus::Verified,
                        is_valid_merge_transition_block: request.is_valid_merge_transition_block,
                    },
                ),
                Some(PayloadStatus::Invalid) => Err(
                    BlockError::ExecutionPayloadError(
                        ExecutionPayloadError::RejectedByExecutionEngine {
                            status: PayloadStatus::Invalid,
                        },
                    ),
                ),
                Some(status) => if engine_synced {
                    Ok(
                        PayloadVerificationOutcome {
                            payload_verification_status: PayloadVerificationStatus::Optimistic,
                            is_valid_merge_transition_block:
                                request.is_valid_merge_transition_block,
                        },
                    )
                } else {
                    Err(
                        BlockError::ExecutionPayloadError(
                            ExecutionPayloadError::UnverifiedNonOptimisticCandidate,
                        ),
                    )
                },
            }
        }
    }
}

/// Joins the asynchronous payload check: decides, from the engine's answers,
/// whether the payload stands. A merge-transition block is first held to the
/// terminal-block rules; then the engine's answer to the new payload decides,
/// with a syncing engine granting only optimistic status, and that only when
/// the engine itself is synced enough to justify optimistic import.
pub fn complete_payload_verification(
    request: PayloadVerificationRequest,
    terminal_valid: Option<bool>,
    payload_status: Option<PayloadStatus>,
    engine_synced: bool,
) -> (r: Result<PayloadVerificationOutcome, BlockError>)
    ensures
        r == spec_payload_verification_verdict(
            request,
            terminal_valid,
            payload_status,
            engine_synced,
        ),
{
    let payload = match request.payload {
        Some(p) => p,
        None => {
            return Ok(
                PayloadVerificationOutcome {
                    payload_verification_status: PayloadVerificationStatus::Irrelevant,
                    is_valid_merge_transition_block: false,
                },
            );
        },
    };
    if matches!(request.notify_execution_layer, NotifyExecutionLayer::No) {
        return Ok(
            PayloadVerificationOutcome {
                payload_verification_status: PayloadVerificationStatus::Optimistic,
                is_valid_merge_transition_block: request.is_valid_merge_transition_block,
            },
        );
    }
    if request.is_valid_merge_transition_block {
        if request.terminal_block_hash != 0 {
            let block_epoch = epoch_of(request.block_slot);
            if block_epoch < request.terminal_block_hash_activation_epoch {
                return Err(
                    BlockError::ExecutionPayloadError(
                        ExecutionPayloadError::InvalidActivationEpoch {
                            activation_epoch: request.terminal_block_hash_activation_epoch,
                            epoch: block_epoch,
                        },
                    ),
                );
            }
            if payload.parent_hash != request.terminal_block_hash {
                return Err(
                    BlockError::ExecutionPayloadError(
                        ExecutionPayloadError::InvalidTerminalBlockHash {
                            terminal_block_hash: request.terminal_block_hash,
                            payload_parent_hash: payload.parent_hash,
                        },
                    ),
                );
            }
        } else if matches!(terminal_valid, Some(false)) {
            return Err(
                BlockError::ExecutionPayloadError(
                    ExecutionPayloadError::InvalidTerminalPoWBlock {
                        parent_hash: payload.parent_hash,
                    },
                ),
            );
        }
    }
    match payload_status {
        None => Err(BlockError::ExecutionPayloadError(ExecutionPayloadError::NoExecutionConnection)),
        Some(PayloadStatus::Valid) => Ok(
            PayloadVerificationOutcome {
                payload_verification_status: PayloadVerificationStatus::Verified,
                is_valid_merge_transition_block: request.is_valid_merge_transition_block,
            },
        ),
        Some(PayloadStatus::Invalid) => Err(
            BlockError::ExecutionPayloadError(
                ExecutionPayloadError::RejectedByExecutionEngine {
                    status: PayloadStatus::Invalid,
                },
            ),
        ),
        Some(_) => {
            if engine_synced {
                Ok(
                    PayloadVerificationOutcome {
                        payload_verification_status: PayloadVerificationStatus::Optimistic,
                        is_valid_merge_transition_block: request.is_valid_merge_transition_block,
                    },
                )
            } else {
                Err(
                    BlockError::ExecutionPayloadError(
                        ExecutionPayloadError::UnverifiedNonOptimisticCandidate,
                    ),
                )
            }
        },
    }
}

/// The fork version a body's shape implies: the first scheduled fork whose
/// payload expectation matches the body.
pub open spec fn spec_body_fork(entries: Seq<ForkScheduleEntry>, has_payload: bool) -> u64
    decreases entries.len(),
{
    if entries.len() == 0 {
        0u64
    } else if entries.first().has_payload == has_payload {
        entries.first().version
    } else {
        spec_body_fork(entries.drop_first(), has_payload)
    }
}

/// The rejection of the fork-consistency check, if any: the block must have
/// the structure — an execution payload or none — of the fork at its slot.
pub open spec fn spec_fork_consistency_verdict(chain_spec: ChainSpec, block: SignedBlock) -> Option<
    BlockError,
> {
    let entry = chain_spec.spec_fork_at_epoch(spec_epoch_of(block.message.slot));
    let has_payload = block.message.body.execution_payload is Some;
    if has_payload != entry.has_payload {
        Some(
            BlockError::InconsistentFork {
                fork_at_slot: entry.version,
                object_fork: spec_body_fork(chain_spec.fork_schedule@, has_payload),
            },
        )
    } else {
        None
    }
}

/// Checks the block has the right structure for the fork at its slot.
pub fn check_fork_consistency(chain_spec: &ChainSpec, block: &SignedBlock) -> (r: Result<
    (),
    BlockError,
>)
    requires
        chain_spec.wf(),
    ensures
        match spec_fork_consistency_verdict(*chain_spec, *block) {
            Some(e) => r == Err::<(), BlockError>(e),
            None => r == Ok::<(), BlockError>(()),
        },
{
    let entry = chain_spec.fork_at_epoch(epoch_of(block.message.slot));
    let has_payload = block.message.body.execution_payload.is_some();
    proof {
        assert(has_payload == (block.message.body.execution_payload is Some));
        assert(entry == chain_spec.spec_fork_at_epoch(spec_epoch_of(block.message.slot)));
    }
    if has_payload != entry.has_payload {
        proof {
            assert(spec_fork_consistency_verdict(*chain_spec, *block) matches Some(e2) && e2
                matches BlockError::InconsistentFork { fork_at_slot, object_fork }
                && fork_at_slot == entry.version && object_fork == spec_body_fork(
                chain_spec.fork_schedule@,
                has_payload,
            ));
        }
        let n = chain_spec.fork_schedule.len();
        let ghost entries = chain_spec.fork_schedule@;
        proof {
            assert(entries.skip(0) =~= entries);
        }
        let mut i: usize = 0;
        while i < n
            invariant
                i <= n,
                n == entries.len(),
                entries == chain_spec.fork_schedule@,
                has_payload == (block.message.body.execution_payload is Some),
                entry == chain_spec.spec_fork_at_epoch(spec_epoch_of(block.message.slot)),
                has_payload != entry.has_payload,
                spec_body_fork(entries, has_payload) == spec_body_fork(
                    entries.skip(i as int),
                    has_payload,
                ),
            decreases n - i,
        {
            proof {
                assert(entries.skip(i as int).first() == entries[i as int]);
                assert(entries.skip(i as int).drop_first() =~= entries.skip(i + 1));
            }
            if chain_spec.fork_schedule[i].has_payload == has_payload {
                proof {
                    assert(entries.skip(i as int).len() > 0);
                    assert(spec_body_fork(entries.skip(i as int), has_payload) == entries[
                        i as int
                    ].version);
                }
                return Err(
                    BlockError::InconsistentFork {
                        fork_at_slot: entry.version,
                        object_fork: chain_spec.fork_schedule[i].version,
                    },
                );
            }
            i = i + 1;
        }
        assert(entries.skip(n as int) =~= Seq::<ForkScheduleEntry>::empty());
        Err(BlockError::InconsistentFork { fork_at_slot: entry.version, object_fork: 0 })
    } else {
        Ok(())
    }
}

/// The rejection of the gossip-time payload gate, if any: a payload must
/// declare the timestamp of its slot and link to the parent's execution
/// block.
pub open spec fn spec_payload_gossip_verdict(
    chain_spec: ChainSpec,
    parent_block: ProtoBlock,
    block: SignedBlock,
) -> Option<BlockError> {
    match block.message.body.execution_payload {
        None => None,
        Some(payload) => if block.message.slot >= 0x1_0000_0000 {
            Some(BlockError::BeaconChainError(BeaconChainError::ArithError))
        } else {
            let expected = (chain_spec.genesis_time + block.message.slot
                * chain_spec.seconds_per_slot) as u64;
            if payload.timestamp != expected {
                Some(
                    BlockError::ExecutionPayloadError(
                        ExecutionPayloadError::InvalidPayloadTimestamp {
                            expected,
                            found: payload.timestamp,
                        },
                    ),
                )
            } else if !(parent_block.execution_status is Irrelevant)
                && payload.parent_hash != spec_execution_hash(parent_block.execution_status) {
                Some(
                    BlockError::ExecutionPayloadError(
                        ExecutionPayloadError::InvalidTerminalPoWBlock {
                            parent_hash: payload.parent_hash,
                        },
                    ),
                )
            } else {
                None
            }
        },
    }
}

/// The execution-block hash a status carries; zero pre-merge.
pub open spec fn spec_execution_hash(status: BlockExecutionStatus) -> u64 {
    match status {
        BlockExecutionStatus::Valid(h) => h,
        BlockExecutionStatus::Invalid(h) => h,
        BlockExecutionStatus::Optimistic(h) => h,
        BlockExecutionStatus::Irrelevant => 0u64,
    }
}

/// Validates the execution payload's gossip-time constraints: the declared
/// timestamp must be the slot's, and the payload must link to the parent's
/// execution block when the parent has one.
pub fn validate_execution_payload_for_gossip(
    parent_block: &ProtoBlock,
    block: &SignedBlock,
    chain_spec: &ChainSpec,
) -> (r: Result<(), BlockError>)
    requires
        chain_spec.wf(),
    ensures
        match spec_payload_gossip_verdict(*chain_spec, *parent_block, *block) {
            Some(e) => r == Err::<(), BlockError>(e),
            None => r == Ok::<(), BlockError>(()),
        },
{
    let payload = match &block.message.body.execution_payload {
        Some(p) => *p,
        None => {
            return Ok(());
        },
    };
    if block.message.slot >= 0x1_0000_0000 {
        return Err(BlockError::BeaconChainError(BeaconChainError::ArithError));
    }
    assert(chain_spec.genesis_time + block.message.slot * chain_spec.seconds_per_slot
        <= u64::MAX) by (nonlinear_arith)
        requires
            block.message.slot < 0x1_0000_0000,
            chain_spec.genesis_time + chain_spec.seconds_per_slot * 0x1_0000_0000 <= u64::MAX,
            chain_spec.seconds_per_slot >= 1,
    ;
    let expected = chain_spec.genesis_time + block.message.slot * chain_spec.seconds_per_slot;
    if payload.timestamp != expected {
        return Err(
            BlockError::ExecutionPayloadError(
                ExecutionPayloadError::InvalidPayloadTimestamp {
                    expected,
                    found: payload.timestamp,
                },
            ),
        );
    }
    if !matches!(parent_block.execution_status, BlockExecutionStatus::Irrelevant) {
        let parent_hash = parent_block.execution_status.block_hash();
        if payload.parent_hash != parent_hash {
            return Err(
                BlockError::ExecutionPayloadError(
                    ExecutionPayloadError::InvalidTerminalPoWBlock {
                        parent_hash: payload.parent_hash,
                    },
                ),
            );
        }
    }
    Ok(())
}

/// Model of a parent snapshot: the parent header, its root, the pre-state's
/// view and the known pre-state root.
pub struct SnapshotModel {
    pub beacon_block: SignedBlockHeader,
    pub beacon_block_root: u64,
    pub pre_state: StateModel,
    pub beacon_state_root: Option<u64>,
}

/// View of a parent snapshot.
pub open spec fn snapshot_model(s: PreProcessingSnapshot) -> SnapshotModel {
    SnapshotModel {
        beacon_block: s.beacon_block,
        beacon_block_root: s.beacon_block_root,
        pre_state: s.pre_state@,
        beacon_state_root: s.beacon_state_root,
    }
}

/// The decision root keying the proposer shuffling of the block's epoch: the
/// parent itself when it closed the previous epoch, otherwise the decision
/// root the parent recorded for its next epoch.
pub open spec fn spec_decision_root(parent_block: ProtoBlock, block_epoch: u64) -> u64 {
    if spec_epoch_of(parent_block.slot) == block_epoch {
        parent_block.next_epoch_shuffling_decision_root
    } else {
        parent_block.root
    }
}

/// The state the pipeline derives committees from, given a pre-state: the
/// pre-state itself (with caches built) when it already serves the block's
/// epoch, an ordering rejection when it is past the block, and otherwise a
/// cheaply advanced copy.
pub open spec fn spec_advance_for_block(
    state: StateModel,
    state_root: Option<u64>,
    block_slot: u64,
    chain_spec: ChainSpec,
) -> Result<StateModel, BlockError> {
    if spec_epoch_of(state.slot) == spec_epoch_of(block_slot) {
        Ok(state.with_caches())
    } else if state.slot > block_slot {
        Err(BlockError::BlockIsNotLaterThanParent { block_slot, parent_slot: state.slot })
    } else {
        Ok(spec_cheap_advanced(state, state_root, block_slot, chain_spec))
    }
}

/// How gossip verification resolves the expected proposer: from the shuffling
/// cache when it answers (index, fork, and no parent is loaded), otherwise by
/// loading the parent snapshot and cheaply advancing its state to the block's
/// epoch. Yields (proposer index, fork version, cache hit).
pub open spec fn spec_gossip_proposer(
    chain: BeaconChain,
    block: SignedBlock,
    parent_block: ProtoBlock,
) -> Result<(u64, u64, bool), BlockError> {
    let decision_root = spec_decision_root(parent_block, spec_epoch_of(block.message.slot));
    match crate::chain::spec_cached_proposer(
        chain.beacon_proposer_cache.view_entries(),
        decision_root,
        block.message.slot,
    ) {
        Some(proposer) => Ok((proposer.index, proposer.fork_version, true)),
        None => match spec_load_parent_verdict(chain, block) {
            Err(e) => Err(e),
            Ok(loaded) => match spec_advance_for_block(
                loaded.1,
                loaded.2,
                block.message.slot,
                chain.chain_spec,
            ) {
                Err(e) => Err(e),
                Ok(state) => match state.epoch_proposers() {
                    None => Err(
                        BlockError::BeaconChainError(
                            BeaconChainError::BeaconStateError(state.proposer_lookup_error()),
                        ),
                    ),
                    Some(proposers) => Ok(
                        (
                            proposers[(block.message.slot % SLOTS_PER_EPOCH) as int],
                            state.fork_version,
                            false,
                        ),
                    ),
                },
            },
        },
    }
}

/// The clock reading gossip compares against: the current slot plus the
/// configured clock-disparity tolerance.
pub open spec fn spec_tolerant_slot(chain: BeaconChain) -> Option<u64> {
    match chain.current_slot {
        Some(slot) => Some(
            if slot + chain.chain_spec.maximum_gossip_clock_disparity_slots <= u64::MAX {
                (slot + chain.chain_spec.maximum_gossip_clock_disparity_slots) as u64
            } else {
                u64::MAX
            },
        ),
        None => None,
    }
}

/// The rejection of gossip verification before its signature check, if any:
/// the structural and temporal gates, ancestry, parent ordering, proposer
/// resolution, and the proposer's public key. Checks run in this order and
/// the first failure wins.
pub open spec fn spec_gossip_pre_signature_verdict(chain: BeaconChain, block: SignedBlock) -> Option<
    BlockError,
> {
    match spec_gossip_structural_verdict(chain, block) {
        Some(e) => Some(e),
        None => {
            let block_root = block_root_of(block.message);
            let parent_block = spec_find_block(
                chain.fork_choice.blocks@,
                block.message.parent_root,
            ).unwrap();
            match spec_gossip_proposer(chain, block, parent_block) {
                Err(e) => Some(e),
                Ok((expected_proposer, fork_version, _)) => if block.message.proposer_index
                    >= chain.validator_pubkey_cache.view_pubkeys().len() {
                    Some(BlockError::UnknownValidator(block.message.proposer_index))
                } else if !block.signature.spec_is_valid(
                    chain.validator_pubkey_cache.view_pubkeys()[
                        block.message.proposer_index as int],
                    block_root,
                    DOMAIN_BEACON_PROPOSER,
                    fork_version,
                    chain.genesis_validators_root,
                ) {
                    Some(BlockError::ProposalSignatureInvalid)
                } else {
                    None
                },
            }
        },
    }
}

/// The structural and temporal part of the gossip classification: every
/// check before proposer resolution — fork shape, clock, future slot, the
/// anchor and finalized gates, deduplication, ancestry, and the parent
/// ordering — first failure wins.
pub open spec fn spec_gossip_structural_verdict(
    chain: BeaconChain,
    block: SignedBlock,
) -> Option<BlockError> {
    if spec_fork_consistency_verdict(chain.chain_spec, block) is Some {
        spec_fork_consistency_verdict(chain.chain_spec, block)
    } else {
        match spec_tolerant_slot(chain) {
            None => Some(BlockError::BeaconChainError(BeaconChainError::UnableToReadSlot)),
            Some(present_slot) => if block.message.slot > present_slot {
                Some(BlockError::FutureSlot { present_slot, block_slot: block.message.slot })
            } else {
                let block_root = block_root_of(block.message);
                if spec_anchor_verdict(chain, block.message.slot) is Some {
                    spec_anchor_verdict(chain, block.message.slot)
                } else if spec_finalized_slot_verdict(chain, block.message.slot) is Some {
                    spec_finalized_slot_verdict(chain, block.message.slot)
                } else if spec_find_block(chain.fork_choice.blocks@, block_root) is Some {
                    Some(BlockError::BlockIsAlreadyKnown(block_root))
                } else if spec_find_block(
                    chain.fork_choice.blocks@,
                    block.message.parent_root,
                ) is None {
                    Some(
                        if crate::store::spec_find_stored_block(
                            chain.store@.blocks,
                            block.message.parent_root,
                        ) is Some {
                            BlockError::NotFinalizedDescendant {
                                block_parent_root: block.message.parent_root,
                            }
                        } else {
                            BlockError::ParentUnknown { parent_root: block.message.parent_root }
                        },
                    )
                } else {
                    let parent_block = spec_find_block(
                        chain.fork_choice.blocks@,
                        block.message.parent_root,
                    ).unwrap();
                    if parent_block.slot >= block.message.slot {
                        Some(
                            BlockError::BlockIsNotLaterThanParent {
                                block_slot: block.message.slot,
                                parent_slot: parent_block.slot,
                            },
                        )
                    } else {
                        None
                    }
                }
            },
        }
    }
}

/// The proposer-shuffling cache after one gossip pass: the slow proposer path
/// — reached once the structural checks pass and the cache misses — primes
/// the cache with the epoch's computed proposers, so a later identical lookup
/// takes the fast path; every other outcome leaves the cache as it was.
pub open spec fn spec_gossip_cache_after(chain: BeaconChain, block: SignedBlock) -> Seq<
    crate::chain::ProposerCacheEntryModel,
> {
    let entries = chain.beacon_proposer_cache.view_entries();
    if spec_gossip_structural_verdict(chain, block) is Some {
        entries
    } else {
        let parent_block = spec_find_block(
            chain.fork_choice.blocks@,
            block.message.parent_root,
        ).unwrap();
        let decision_root = spec_decision_root(parent_block, spec_epoch_of(block.message.slot));
        if crate::chain::spec_cached_proposer(entries, decision_root, block.message.slot)
            is Some {
            entries
        } else {
            match spec_load_parent_verdict(chain, block) {
                Err(_) => entries,
                Ok(loaded) => match spec_advance_for_block(
                    loaded.1,
                    loaded.2,
                    block.message.slot,
                    chain.chain_spec,
                ) {
                    Err(_) => entries,
                    Ok(state) => match state.epoch_proposers() {
                        None => entries,
                        Some(proposers) => entries.push(
                            crate::chain::ProposerCacheEntryModel {
                                epoch: spec_epoch_of(block.message.slot),
                                decision_root,
                                proposers,
                                fork_version: state.fork_version,
                            },
                        ),
                    },
                },
            }
        }
    }
}

/// The full classification of gossip verification: after a valid signature,
/// the proposal is recorded and a repeat from the same (proposer, slot) is
/// slashable or already known; then the proposer must match the derived one
/// exactly, and the payload must pass its gossip-time gate.
pub open spec fn spec_gossip_verdict(chain: BeaconChain, block: SignedBlock) -> Option<BlockError> {
    match spec_gossip_pre_signature_verdict(chain, block) {
        Some(e) => Some(e),
        None => {
            let block_root = block_root_of(block.message);
            let parent_block = spec_find_block(
                chain.fork_choice.blocks@,
                block.message.parent_root,
            ).unwrap();
            match spec_observe_verdict(
                chain.observed_block_producers.view_items(),
                block_root,
                block.message.proposer_index,
                block.message.slot,
            ) {
                SeenBlock::Slashable => Some(BlockError::Slashable),
                SeenBlock::Duplicate => Some(BlockError::BlockIsAlreadyKnown(block_root)),
                SeenBlock::UniqueNonSlashable => {
                    let expected = spec_gossip_proposer(chain, block, parent_block).unwrap().0;
                    if block.message.proposer_index != expected {
                        Some(
                            BlockError::IncorrectBlockProposer {
                                block: block.message.proposer_index,
                                local_shuffling: expected,
                            },
                        )
                    } else {
                        spec_payload_gossip_verdict(chain.chain_spec, parent_block, block)
                    }
                },
            }
        },
    }
}

/// The parent snapshot a gossip-verified block carries onward: nothing on a
/// shuffling-cache hit, otherwise the loaded snapshot — whose pre-state has
/// its caches built in place when it already served the block's epoch.
pub open spec fn spec_gossip_parent(chain: BeaconChain, block: SignedBlock) -> Option<
    SnapshotModel,
> {
    let parent_block = spec_find_block(chain.fork_choice.blocks@, block.message.parent_root).unwrap();
    match spec_gossip_proposer(chain, block, parent_block) {
        Ok((_, _, true)) => None,
        Ok((_, _, false)) => match spec_load_parent_verdict(chain, block) {
            Ok(loaded) => Some(
                SnapshotModel {
                    beacon_block: loaded.0,
                    beacon_block_root: block.message.parent_root,
                    pre_state: if spec_epoch_of(loaded.1.slot) == spec_epoch_of(
                        block.message.slot,
                    ) {
                        loaded.1.with_caches()
                    } else {
                        loaded.1
                    },
                    beacon_state_root: loaded.2,
                },
            ),
            Err(_) => None,
        },
        Err(_) => None,
    }
}

/// The pre-finalization bookkeeping after one gossip pass: the root is
/// recorded exactly when the finalized-slot gate was reached and rejected the
/// block, and was not recorded already.
pub open spec fn spec_gossip_prefinalization_after(chain: BeaconChain, block: SignedBlock) -> Seq<
    u64,
> {
    let block_root = block_root_of(block.message);
    if spec_gossip_pre_signature_verdict(chain, block) == Some(
        BlockError::WouldRevertFinalizedSlot {
            block_slot: block.message.slot,
            finalized_slot: chain.fork_choice.spec_finalized_slot(),
        },
    ) && !chain.pre_finalization_rejected@.contains(block_root) {
        chain.pre_finalization_rejected@.push(block_root)
    } else {
        chain.pre_finalization_rejected@
    }
}

/// A wrapper around a block that indicates it has been approved for
/// re-gossiping on the p2p network.
pub struct GossipVerifiedBlock {
    pub block: SignedBlock,
    pub block_root: u64,
    /// The parent snapshot, populated only when the slow proposer path loaded
    /// it; moved onward to the next stage, never reused here.
    pub parent: Option<PreProcessingSnapshot>,
    /// Proposer index and block root are cached here for later stages.
    pub consensus_context: ConsensusContext,
}

impl GossipVerifiedBlock {
    /// The parent snapshot carried, as a model.
    pub open spec fn spec_parent(self) -> Option<SnapshotModel> {
        match self.parent {
            Some(p) => Some(snapshot_model(p)),
            None => None,
        }
    }

    /// The carried consensus context.
    pub open spec fn spec_context(self) -> ConsensusContext {
        self.consensus_context
    }

    /// Well-formedness: the cached values agree with the block — the root is
    /// the block's canonical root, the context carries the block's slot,
    /// proposer and root, and no attestations were resolved yet.
    pub open spec fn wf(self) -> bool {
        &&& self.block_root == block_root_of(self.block.message)
        &&& self.spec_context().spec_slot() == self.block.message.slot
        &&& self.spec_context().spec_current_block_root() == Some(self.block_root)
        &&& self.spec_context().spec_proposer_index() == Some(self.block.message.proposer_index)
        &&& self.spec_context().spec_indexed_attestations().len() == 0
    }

    /// This block's stage in the pipeline.
    pub open spec fn stage(self) -> VerificationStage {
        VerificationStage::GossipVerified
    }

    /// The canonical root of the wrapped block, computed once at this stage
    /// and reused by every later one.
    pub fn block_root(&self) -> (r: u64)
        ensures
            r == self.block_root,
    {
        self.block_root
    }

    /// Instantiates `Self`, a wrapper that indicates the given block is safe
    /// to be re-gossiped on the p2p network. A rejected block is first routed
    /// through slash-info processing, since a block failing gossip validation
    /// may still carry a slashable double-proposal.
    pub fn new(block: SignedBlock, chain: &mut BeaconChain) -> (r: Result<
        GossipVerifiedBlock,
        BlockError,
    >)
        requires
            old(chain).wf(),
        ensures
            match r {
                Ok(g) => spec_gossip_verdict(*old(chain), block) is None && g.wf() && g.block
                    == block && g.block_root == block_root_of(block.message) && g.stage()
                    == VerificationStage::GossipVerified && g.spec_parent() == spec_gossip_parent(
                    *old(chain),
                    block,
                ),
                Err(e) => spec_gossip_verdict(*old(chain), block) == Some(e),
            },
            final(chain).chain_spec == old(chain).chain_spec,
            final(chain).genesis_validators_root == old(chain).genesis_validators_root,
            final(chain).current_slot == old(chain).current_slot,
            final(chain).head_fork_version == old(chain).head_fork_version,
            final(chain).fork_choice == old(chain).fork_choice,
            final(chain).store == old(chain).store,
            final(chain).validator_pubkey_cache == old(chain).validator_pubkey_cache,
            spec_gossip_pre_signature_verdict(*old(chain), block) is None
                ==> final(chain).observed_block_producers.view_items() == (
            if spec_observe_verdict(
                old(chain).observed_block_producers.view_items(),
                block_root_of(block.message),
                block.message.proposer_index,
                block.message.slot,
            ) == SeenBlock::UniqueNonSlashable {
                old(chain).observed_block_producers.view_items().push(
                    ObservedProposal {
                        proposer: block.message.proposer_index,
                        slot: block.message.slot,
                        root: block_root_of(block.message),
                    },
                )
            } else {
                old(chain).observed_block_producers.view_items()
            }),
            spec_gossip_pre_signature_verdict(*old(chain), block) is Some ==> final(chain).observed_block_producers == old(chain).observed_block_producers && final(chain).observed_slashable == old(chain).observed_slashable,
            spec_gossip_pre_signature_verdict(*old(chain), block) is None ==> final(chain).observed_slashable.view_items() == spec_observed_slashable_after(
                old(chain).observed_slashable.view_items(),
                block,
                block_root_of(block.message),
            ),
            final(chain).pre_finalization_rejected@ == spec_gossip_prefinalization_after(
                *old(chain),
                block,
            ),
            final(chain).beacon_proposer_cache.view_entries() == spec_gossip_cache_after(
                *old(chain),
                block,
            ),
    {
        let header = signed_block_header(&block);
        let ghost chain0 = *chain;
        match Self::new_without_slasher_checks(block, &header, chain) {
            Ok(g) => Ok(g),
            Err(e) => {
                let slash_info = BlockSlashInfo::from_early_error_block(header, e);
                Err(process_block_slash_info::<BlockError>(chain, slash_info))
            },
        }
    }

    /// As for `new`, but doesn't pass a rejected block to the slasher.
    fn new_without_slasher_checks(
        block: SignedBlock,
        block_header: &SignedBlockHeader,
        chain: &mut BeaconChain,
    ) -> (r: Result<GossipVerifiedBlock, BlockError>)
        requires
            old(chain).wf(),
            block_header.message == header_of(block.message),
        ensures
            match r {
                Ok(g) => spec_gossip_verdict(*old(chain), block) is None && g.wf() && g.block
                    == block && g.block_root == block_root_of(block.message) && g.spec_parent()
                    == spec_gossip_parent(*old(chain), block),
                Err(e) => spec_gossip_verdict(*old(chain), block) == Some(e),
            },
            final(chain).chain_spec == old(chain).chain_spec,
            final(chain).genesis_validators_root == old(chain).genesis_validators_root,
            final(chain).current_slot == old(chain).current_slot,
            final(chain).head_fork_version == old(chain).head_fork_version,
            final(chain).fork_choice == old(chain).fork_choice,
            final(chain).store == old(chain).store,
            final(chain).validator_pubkey_cache == old(chain).validator_pubkey_cache,
            final(chain).slasher == old(chain).slasher,
            spec_gossip_pre_signature_verdict(*old(chain), block) is None
                ==> final(chain).observed_block_producers.view_items() == (
            if spec_observe_verdict(
                old(chain).observed_block_producers.view_items(),
                block_root_of(block.message),
                block.message.proposer_index,
                block.message.slot,
            ) == SeenBlock::UniqueNonSlashable {
                old(chain).observed_block_producers.view_items().push(
                    ObservedProposal {
                        proposer: block.message.proposer_index,
                        slot: block.message.slot,
                        root: block_root_of(block.message),
                    },
                )
            } else {
                old(chain).observed_block_producers.view_items()
            }),
            spec_gossip_pre_signature_verdict(*old(chain), block) is Some ==> final(chain).observed_block_producers == old(chain).observed_block_producers && final(chain).observed_slashable == old(chain).observed_slashable,
            spec_gossip_pre_signature_verdict(*old(chain), block) is None ==> final(chain).observed_slashable.view_items() == spec_observed_slashable_after(
                old(chain).observed_slashable.view_items(),
                block,
                block_root_of(block.message),
            ),
            final(chain).pre_finalization_rejected@ == spec_gossip_prefinalization_after(
                *old(chain),
                block,
            ),
            final(chain).beacon_proposer_cache.view_entries() == spec_gossip_cache_after(
                *old(chain),
                block,
            ),
    {
        match check_fork_consistency(&chain.chain_spec, &block) {
            Ok(()) => (),
            Err(e) => {
                return Err(e);
            },
        }
        let present_slot_with_tolerance = match chain.slot_with_future_tolerance() {
            Ok(slot) => slot,
            Err(e) => {
                return Err(BlockError::BeaconChainError(e));
            },
        };
        if block.message.slot > present_slot_with_tolerance {
            return Err(
                BlockError::FutureSlot {
                    present_slot: present_slot_with_tolerance,
                    block_slot: block.message.slot,
                },
            );
        }
        // The block and its header share one canonical root; hashing the
        // header is cheaper since the body's tree root is already in it.
        let block_root = get_block_header_root(block_header);
        match check_block_against_anchor_slot(&block.message, chain) {
            Ok(()) => (),
            Err(e) => {
                return Err(e);
            },
        }
        match check_block_against_finalized_slot(&block.message, block_root, chain) {
            Ok(()) => (),
            Err(e) => {
                return Err(e);
            },
        }
        if chain.fork_choice.contains_block(block_root) {
            return Err(BlockError::BlockIsAlreadyKnown(block_root));
        }
        match check_block_is_finalized_checkpoint_or_descendant(chain, &chain.fork_choice, &block) {
            Ok(()) => (),
            Err(e) => {
                return Err(e);
            },
        }
        let block_epoch = epoch_of(block.message.slot);
        let parent_block = match verify_parent_block_is_known(block_root, &chain.fork_choice, &block)
            {
            Ok(p) => p,
            Err(e) => {
                return Err(e);
            },
        };
        if parent_block.slot >= block.message.slot {
            return Err(
                BlockError::BlockIsNotLaterThanParent {
                    block_slot: block.message.slot,
                    parent_slot: parent_block.slot,
                },
            );
        }
        let proposer_shuffling_decision_block = if epoch_of(parent_block.slot) == block_epoch {
            parent_block.next_epoch_shuffling_decision_root
        } else {
            parent_block.root
        };
        let proposer_opt = chain.beacon_proposer_cache.get_slot(
            proposer_shuffling_decision_block,
            block.message.slot,
        );
        let (expected_proposer, fork_version, parent) = match proposer_opt {
            Some(proposer) => {
                // The proposer index was cached: no need to load the parent.
                (proposer.index, proposer.fork_version, None)
            },
            None => {
                // Cache miss: load the parent and cheaply advance its state
                // to determine the proposer, then prime the cache.
                let mut snapshot = match load_parent(&block, chain) {
                    Ok(s) => s,
                    Err(e) => {
                        return Err(e);
                    },
                };
                let committee_state = match cheap_state_advance_to_obtain_committees::<BlockError>(
                    &mut snapshot.pre_state,
                    snapshot.beacon_state_root,
                    block.message.slot,
                    &chain.chain_spec,
                ) {
                    Ok(c) => c,
                    Err(e) => {
                        return Err(e);
                    },
                };
                let (proposers_res, state_fork) = match &committee_state {
                    CommitteeState::Borrowed => (
                        snapshot.pre_state.get_beacon_proposer_indices(),
                        snapshot.pre_state.fork_version,
                    ),
                    CommitteeState::Advanced(advanced) => (
                        advanced.get_beacon_proposer_indices(),
                        advanced.fork_version,
                    ),
                };
                let proposers = match proposers_res {
                    Ok(p) => p,
                    Err(e) => {
                        return Err(
                            BlockError::BeaconChainError(BeaconChainError::BeaconStateError(e)),
                        );
                    },
                };
                let position = (block.message.slot % SLOTS_PER_EPOCH) as usize;
                if position >= proposers.len() {
                    assert(false);
                    return Err(
                        BlockError::BeaconChainError(
                            BeaconChainError::NoProposerForSlot(block.message.slot),
                        ),
                    );
                }
                let proposer_index = proposers[position];
                chain.beacon_proposer_cache.insert(
                    block_epoch,
                    proposer_shuffling_decision_block,
                    proposers,
                    state_fork,
                );
                (proposer_index, state_fork, Some(snapshot))
            },
        };
        if block.message.proposer_index >= chain.validator_pubkey_cache.len() as u64 {
            return Err(BlockError::UnknownValidator(block.message.proposer_index));
        }
        let pubkey = match chain.validator_pubkey_cache.get(
            block.message.proposer_index as usize,
        ) {
            Some(pk) => pk,
            None => {
                assert(false);
                return Err(BlockError::UnknownValidator(block.message.proposer_index));
            },
        };
        let signature_is_valid = block.signature.is_valid(
            pubkey,
            block_root,
            DOMAIN_BEACON_PROPOSER,
            fork_version,
            chain.genesis_validators_root,
        );
        if !signature_is_valid {
            return Err(BlockError::ProposalSignatureInvalid);
        }
        chain.observed_slashable.observe_slashable(
            block.message.slot,
            block.message.proposer_index,
            block_root,
        );
        // Now the signature is valid, store the proposal so we don't accept
        // another from this validator and slot: an atomic check-then-insert,
        // so two raced sibling proposals can never both pass.
        match chain.observed_block_producers.observe_proposal(block_root, &block.message) {
            SeenBlock::Slashable => {
                return Err(BlockError::Slashable);
            },
            SeenBlock::Duplicate => {
                return Err(BlockError::BlockIsAlreadyKnown(block_root));
            },
            SeenBlock::UniqueNonSlashable => {},
        }
        if block.message.proposer_index != expected_proposer {
            return Err(
                BlockError::IncorrectBlockProposer {
                    block: block.message.proposer_index,
                    local_shuffling: expected_proposer,
                },
            );
        }
        match validate_execution_payload_for_gossip(&parent_block, &block, &chain.chain_spec) {
            Ok(()) => (),
            Err(e) => {
                return Err(e);
            },
        }
        // Having checked the proposer index and the block root we can cache
        // them for the later stages.
        let consensus_context = ConsensusContext::new(block.message.slot).set_current_block_root(
            block_root,
        ).set_proposer_index(block.message.proposer_index);
        Ok(GossipVerifiedBlock { block, block_root, parent, consensus_context })
    }
}

/// Maps a set-collection error to the block rejection it means: a mismatched
/// proposer marks the block invalid; anything else is an internal error.
pub open spec fn spec_map_verifier_error(e: BlockSignatureVerifierError) -> BlockError {
    match e {
        BlockSignatureVerifierError::IncorrectBlockProposer { block, local_shuffling } =>
            BlockError::IncorrectBlockProposer { block, local_shuffling },
        _ => BlockError::BeaconChainError(BeaconChainError::BlockSignatureVerifierError(e)),
    }
}

/// Maps a set-collection error to the block rejection it means.
fn map_verifier_error(e: BlockSignatureVerifierError) -> (r: BlockError)
    ensures
        r == spec_map_verifier_error(e),
{
    match e {
        BlockSignatureVerifierError::IncorrectBlockProposer { block, local_shuffling } =>
            BlockError::IncorrectBlockProposer { block, local_shuffling },
        _ => BlockError::BeaconChainError(BeaconChainError::BlockSignatureVerifierError(e)),
    }
}

/// The classification of from-scratch signature verification for (block,
/// root): fork consistency, the anchor gate, loading the parent, the cheap
/// advance, collecting every signature set, and the batch check — first
/// failure wins, and a failed batch is reported as one opaque invalid
/// signature.
pub open spec fn spec_signature_verified_verdict(
    chain: BeaconChain,
    block: SignedBlock,
    block_root: u64,
) -> Option<BlockError> {
    if spec_fork_consistency_verdict(chain.chain_spec, block) is Some {
        spec_fork_consistency_verdict(chain.chain_spec, block)
    } else if spec_anchor_verdict(chain, block.message.slot) is Some {
        spec_anchor_verdict(chain, block.message.slot)
    } else {
        match spec_load_parent_verdict(chain, block) {
            Err(e) => Some(e),
            Ok(loaded) => match spec_advance_for_block(
                loaded.1,
                loaded.2,
                block.message.slot,
                chain.chain_spec,
            ) {
                Err(e) => Some(e),
                Ok(state) => {
                    let pubkeys = spec_guarded_pubkeys(
                        chain.validator_pubkey_cache.view_pubkeys(),
                        state.validators.len(),
                    );
                    match crate::signatures::spec_include_all_verdict(
                        state,
                        pubkeys,
                        block,
                        block.message.slot,
                        None,
                        Some(block_root),
                    ) {
                        Err(e) => Some(spec_map_verifier_error(e)),
                        Ok(sets) => if all_valid(sets) {
                            None
                        } else {
                            Some(BlockError::InvalidSignature)
                        },
                    }
                },
            },
        }
    }
}

/// The classification of finishing verification on a gossip-verified block:
/// its carried parent snapshot is used (or the parent loaded when the fast
/// proposer path left none), the state cheaply advanced, and every signature
/// except the already-checked proposal collected and batch-checked.
pub open spec fn spec_from_gossip_verdict(
    chain: BeaconChain,
    block: SignedBlock,
    parent: Option<SnapshotModel>,
    ctx: ConsensusContext,
) -> Option<BlockError> {
    let loaded = match parent {
        Some(p) => Ok((p.beacon_block, p.pre_state, p.beacon_state_root)),
        None => spec_load_parent_verdict(chain, block),
    };
    match loaded {
        Err(e) => Some(e),
        Ok(l) => match spec_advance_for_block(l.1, l.2, block.message.slot, chain.chain_spec) {
            Err(e) => Some(e),
            Ok(state) => {
                let pubkeys = spec_guarded_pubkeys(
                    chain.validator_pubkey_cache.view_pubkeys(),
                    state.validators.len(),
                );
                match crate::signatures::spec_non_proposal_verdict(
                    state,
                    pubkeys,
                    block,
                    ctx.spec_slot(),
                    ctx.spec_proposer_index(),
                ) {
                    Err(e) => Some(spec_map_verifier_error(e)),
                    Ok(sets) => if all_valid(sets) {
                        None
                    } else {
                        Some(BlockError::InvalidSignature)
                    },
                }
            },
        },
    }
}

/// The parent snapshot the signature stage passes onward, given the one the
/// gossip stage carried (or none, in which case it is loaded): the same
/// snapshot, its pre-state with committee caches built in place when it
/// already serves the block's epoch — the cheap advance's borrowed path —
/// and untouched otherwise.
pub open spec fn spec_carried_parent(
    chain: BeaconChain,
    block: SignedBlock,
    parent: Option<SnapshotModel>,
) -> Option<SnapshotModel> {
    let source = match parent {
        Some(p) => Some(p),
        None => match spec_load_parent_verdict(chain, block) {
            Ok(l) => Some(
                SnapshotModel {
                    beacon_block: l.0,
                    beacon_block_root: block.message.parent_root,
                    pre_state: l.1,
                    beacon_state_root: l.2,
                },
            ),
            Err(_) => None,
        },
    };
    match source {
        Some(p) => Some(
            SnapshotModel {
                pre_state: if spec_epoch_of(p.pre_state.slot) == spec_epoch_of(
                    block.message.slot,
                ) {
                    p.pre_state.with_caches()
                } else {
                    p.pre_state
                },
                ..p
            },
        ),
        None => None,
    }
}

/// A wrapper around a block that indicates that all its signatures — except
/// deposit proofs — have been verified in one batched pass.
pub struct SignatureVerifiedBlock {
    pub block: SignedBlock,
    pub block_root: u64,
    /// The parent snapshot, moved onward to the final stage.
    pub parent: Option<PreProcessingSnapshot>,
    pub consensus_context: ConsensusContext,
}

impl SignatureVerifiedBlock {
    /// This block's stage in the pipeline.
    pub open spec fn stage(self) -> VerificationStage {
        VerificationStage::SignatureVerified
    }

    /// Well-formedness: the cached context values agree with the block, and
    /// the attestation cache is coherent with nothing (empty).
    pub open spec fn wf(self) -> bool {
        &&& self.consensus_context.spec_slot() == self.block.message.slot
        &&& self.consensus_context.spec_current_block_root() == Some(self.block_root)
    }

    /// The canonical root of the wrapped block, carried unchanged from the
    /// stage that computed it.
    pub fn block_root(&self) -> (r: u64)
        ensures
            r == self.block_root,
    {
        self.block_root
    }

    /// Instantiates `Self` from scratch: loads the parent snapshot, derives a
    /// committee state, collects every signature in the block into one batch
    /// and verifies the batch. A batch failure cannot identify which
    /// signature was invalid.
    pub fn new(block: SignedBlock, block_root: u64, chain: &BeaconChain) -> (r: Result<
        Self,
        BlockError,
    >)
        requires
            chain.wf(),
        ensures
            match r {
                Ok(sv) => spec_signature_verified_verdict(*chain, block, block_root) is None
                    && sv.wf() && sv.block == block && sv.block_root == block_root && sv.parent
                    is Some && sv.stage() == VerificationStage::SignatureVerified,
                Err(e) => spec_signature_verified_verdict(*chain, block, block_root) == Some(e),
            },
    {
        match check_fork_consistency(&chain.chain_spec, &block) {
            Ok(()) => (),
            Err(e) => {
                return Err(e);
            },
        }
        // Check the anchor slot before loading the parent, to avoid spurious
        // lookups.
        match check_block_against_anchor_slot(&block.message, chain) {
            Ok(()) => (),
            Err(e) => {
                return Err(e);
            },
        }
        let mut parent = match load_parent(&block, chain) {
            Ok(p) => p,
            Err(e) => {
                return Err(e);
            },
        };
        let committee_state = match cheap_state_advance_to_obtain_committees::<BlockError>(
            &mut parent.pre_state,
            parent.beacon_state_root,
            block.message.slot,
            &chain.chain_spec,
        ) {
            Ok(c) => c,
            Err(e) => {
                return Err(e);
            },
        };
        let state_ref: &crate::state::BeaconState = match &committee_state {
            CommitteeState::Borrowed => &parent.pre_state,
            CommitteeState::Advanced(advanced) => advanced,
        };
        let ghost loaded = spec_load_parent_verdict(*chain, block).unwrap();
        assert(spec_advance_for_block(loaded.1, loaded.2, block.message.slot, chain.chain_spec)
            == Ok::<StateModel, BlockError>(state_ref@));
        let mut signature_verifier = get_signature_verifier(
            state_ref,
            &chain.validator_pubkey_cache,
        );
        let mut consensus_context = ConsensusContext::new(block.message.slot).set_current_block_root(
            block_root,
        );
        match signature_verifier.include_all_signatures(state_ref, &block, &mut consensus_context) {
            Ok(()) => (),
            Err(e) => {
                return Err(map_verifier_error(e));
            },
        }
        if !signature_verifier.verify() {
            return Err(BlockError::InvalidSignature);
        }
        Ok(SignatureVerifiedBlock { block, block_root, parent: Some(parent), consensus_context })
    }

    /// As for `new` above, but producing slash-info for the caller: an early
    /// rejection carries the header so the slashing evidence is not lost.
    pub fn check_slashable(block: SignedBlock, block_root: u64, chain: &BeaconChain) -> (r: Result<
        Self,
        BlockSlashInfo<BlockError>,
    >)
        requires
            chain.wf(),
        ensures
            match r {
                Ok(sv) => spec_signature_verified_verdict(*chain, block, block_root) is None
                    && sv.wf() && sv.block == block && sv.block_root == block_root,
                Err(slash_info) => {
                    &&& spec_signature_verified_verdict(*chain, block, block_root) matches Some(e)
                    &&& slash_info == (if e == BlockError::ProposalSignatureInvalid {
                        BlockSlashInfo::SignatureInvalid::<BlockError>(e)
                    } else {
                        BlockSlashInfo::SignatureNotChecked::<BlockError>(
                            SignedBlockHeader {
                                message: header_of(block.message),
                                signature: block.signature,
                            },
                            e,
                        )
                    })
                },
            },
    {
        let header = signed_block_header(&block);
        match Self::new(block, block_root, chain) {
            Ok(sv) => Ok(sv),
            Err(e) => Err(BlockSlashInfo::from_early_error_block(header, e)),
        }
    }

    /// Finishes signature verification on a gossip-verified block: the
    /// proposer signature was already checked, so only the remaining
    /// signatures — the RANDAO reveal and the attestations — are batched.
    pub fn from_gossip_verified_block(from: GossipVerifiedBlock, chain: &BeaconChain) -> (r: Result<
        Self,
        BlockError,
    >)
        requires
            chain.wf(),
            from.wf(),
        ensures
            match r {
                Ok(sv) => spec_from_gossip_verdict(
                    *chain,
                    from.block,
                    from.spec_parent(),
                    from.spec_context(),
                ) is None && sv.wf() && sv.block == from.block && sv.block_root == from.block_root
                    && sv.stage() == VerificationStage::SignatureVerified
                    && sv.consensus_context.spec_proposer_index() == Some(
                    from.block.message.proposer_index,
                ) && (sv.parent matches Some(carried) && Some(snapshot_model(carried))
                    == spec_carried_parent(*chain, from.block, from.spec_parent())),
                Err(e) => spec_from_gossip_verdict(
                    *chain,
                    from.block,
                    from.spec_parent(),
                    from.spec_context(),
                ) == Some(e),
            },
    {
        let block = from.block;
        let mut parent = match from.parent {
            Some(p) => p,
            None => {
                match load_parent(&block, chain) {
                    Ok(p) => p,
                    Err(e) => {
                        return Err(e);
                    },
                }
            },
        };
        let committee_state = match cheap_state_advance_to_obtain_committees::<BlockError>(
            &mut parent.pre_state,
            parent.beacon_state_root,
            block.message.slot,
            &chain.chain_spec,
        ) {
            Ok(c) => c,
            Err(e) => {
                return Err(e);
            },
        };
        let state_ref: &crate::state::BeaconState = match &committee_state {
            CommitteeState::Borrowed => &parent.pre_state,
            CommitteeState::Advanced(advanced) => advanced,
        };
        proof {
            let loaded = match from.spec_parent() {
                Some(p) => (p.beacon_block, p.pre_state, p.beacon_state_root),
                None => spec_load_parent_verdict(*chain, block).unwrap(),
            };
            assert(spec_advance_for_block(loaded.1, loaded.2, block.message.slot, chain.chain_spec)
                == Ok::<StateModel, BlockError>(state_ref@));
        }
        // Gossip verification already checked the proposer index; its cached
        // value also serves the RANDAO check.
        let mut consensus_context = from.consensus_context;
        let mut signature_verifier = get_signature_verifier(
            state_ref,
            &chain.validator_pubkey_cache,
        );
        match signature_verifier.include_all_signatures_except_proposal(
            state_ref,
            &block,
            &mut consensus_context,
        ) {
            Ok(()) => (),
            Err(e) => {
                return Err(map_verifier_error(e));
            },
        }
        if !signature_verifier.verify() {
            return Err(BlockError::InvalidSignature);
        }
        Ok(
            SignatureVerifiedBlock {
                block,
                block_root: from.block_root,
                parent: Some(parent),
                consensus_context,
            },
        )
    }

    /// Same as `from_gossip_verified_block` but producing slash-info: the
    /// proposer signature is already known valid here, so a failure carries
    /// the header as directly forwardable evidence.
    pub fn from_gossip_verified_block_check_slashable(
        from: GossipVerifiedBlock,
        chain: &BeaconChain,
    ) -> (r: Result<Self, BlockSlashInfo<BlockError>>)
        requires
            chain.wf(),
            from.wf(),
        ensures
            match r {
                Ok(sv) => spec_from_gossip_verdict(
                    *chain,
                    from.block,
                    from.spec_parent(),
                    from.spec_context(),
                ) is None && sv.wf() && sv.block_root == from.block_root
                    && sv.consensus_context.spec_proposer_index() == Some(
                    from.block.message.proposer_index,
                ) && (sv.parent matches Some(carried) && Some(snapshot_model(carried))
                    == spec_carried_parent(*chain, from.block, from.spec_parent())),
                Err(slash_info) => {
                    &&& spec_from_gossip_verdict(
                        *chain,
                        from.block,
                        from.spec_parent(),
                        from.spec_context(),
                    ) matches Some(e)
                    &&& slash_info == (if e == BlockError::ProposalSignatureInvalid {
                        BlockSlashInfo::SignatureInvalid::<BlockError>(e)
                    } else {
                        BlockSlashInfo::SignatureNotChecked::<BlockError>(
                            SignedBlockHeader {
                                message: header_of(from.block.message),
                                signature: from.block.signature,
                            },
                            e,
                        )
                    })
                },
            },
    {
        let header = signed_block_header(&from.block);
        match Self::from_gossip_verified_block(from, chain) {
            Ok(sv) => Ok(sv),
            Err(e) => Err(BlockSlashInfo::from_early_error_block(header, e)),
        }
    }
}

/// What collecting the signature sets of a whole segment yields on one shared
/// epoch state: the concatenation of each block's sets — each block getting a
/// fresh context carrying its claimed root — or the first error.
pub open spec fn spec_segment_sets(
    state: StateModel,
    pubkeys: Seq<u64>,
    segment: Seq<(u64, SignedBlock)>,
) -> Result<Seq<crate::signatures::SignatureSet>, BlockSignatureVerifierError>
    decreases segment.len(),
{
    if segment.len() == 0 {
        Ok(Seq::<crate::signatures::SignatureSet>::empty())
    } else {
        match crate::signatures::spec_include_all_verdict(
            state,
            pubkeys,
            segment.first().1,
            segment.first().1.message.slot,
            None,
            Some(segment.first().0),
        ) {
            Err(e) => Err(e),
            Ok(sets) => match spec_segment_sets(state, pubkeys, segment.drop_first()) {
                Err(e) => Err(e),
                Ok(rest) => Ok(sets + rest),
            },
        }
    }
}

/// Batch signature equivalence over a segment: the combined batch of a
/// segment's signature sets verifies exactly when each block's own sets — as
/// the single-block path collects them on a state with the same shuffling —
/// verify individually. Checking a sync segment in one batch therefore
/// accepts and rejects each block exactly as verifying it alone would.
pub proof fn lemma_segment_batch_equivalence(
    state: StateModel,
    pubkeys: Seq<u64>,
    segment: Seq<(u64, SignedBlock)>,
    sets: Seq<crate::signatures::SignatureSet>,
)
    requires
        spec_segment_sets(state, pubkeys, segment) == Ok::<
            Seq<crate::signatures::SignatureSet>,
            BlockSignatureVerifierError,
        >(sets),
    ensures
        all_valid(sets) <==> (forall|i: int|
            0 <= i < segment.len() ==> {
                &&& #[trigger] crate::signatures::spec_include_all_verdict(
                    state,
                    pubkeys,
                    segment[i].1,
                    segment[i].1.message.slot,
                    None,
                    Some(segment[i].0),
                ) is Ok
                &&& all_valid(
                    crate::signatures::spec_include_all_verdict(
                        state,
                        pubkeys,
                        segment[i].1,
                        segment[i].1.message.slot,
                        None,
                        Some(segment[i].0),
                    ).unwrap(),
                )
            }),
    decreases segment.len(),
{
    if segment.len() == 0 {
        assert(all_valid(sets));
    } else {
        let first_sets = crate::signatures::spec_include_all_verdict(
            state,
            pubkeys,
            segment.first().1,
            segment.first().1.message.slot,
            None,
            Some(segment.first().0),
        ).unwrap();
        let rest = spec_segment_sets(state, pubkeys, segment.drop_first()).unwrap();
        crate::signatures::lemma_batch_verification_equivalence(first_sets, rest);
        lemma_segment_batch_equivalence(state, pubkeys, segment.drop_first(), rest);
        assert(segment.first() == segment[0]);
        if all_valid(sets) {
            assert forall|i: int| 0 <= i < segment.len() implies {
                &&& #[trigger] crate::signatures::spec_include_all_verdict(
                    state,
                    pubkeys,
                    segment[i].1,
                    segment[i].1.message.slot,
                    None,
                    Some(segment[i].0),
                ) is Ok
                &&& all_valid(
                    crate::signatures::spec_include_all_verdict(
                        state,
                        pubkeys,
                        segment[i].1,
                        segment[i].1.message.slot,
                        None,
                        Some(segment[i].0),
                    ).unwrap(),
                )
            } by {
                if i > 0 {
                    assert(segment.drop_first()[i - 1] == segment[i]);
                }
            }
        }
        if (forall|i: int|
            0 <= i < segment.len() ==> {
                &&& #[trigger] crate::signatures::spec_include_all_verdict(
                    state,
                    pubkeys,
                    segment[i].1,
                    segment[i].1.message.slot,
                    None,
                    Some(segment[i].0),
                ) is Ok
                &&& all_valid(
                    crate::signatures::spec_include_all_verdict(
                        state,
                        pubkeys,
                        segment[i].1,
                        segment[i].1.message.slot,
                        None,
                        Some(segment[i].0),
                    ).unwrap(),
                )
            }) {
            assert forall|i: int| 0 <= i < segment.drop_first().len() implies {
                &&& #[trigger] crate::signatures::spec_include_all_verdict(
                    state,
                    pubkeys,
                    segment.drop_first()[i].1,
                    segment.drop_first()[i].1.message.slot,
                    None,
                    Some(segment.drop_first()[i].0),
                ) is Ok
                &&& all_valid(
                    crate::signatures::spec_include_all_verdict(
                        state,
                        pubkeys,
                        segment.drop_first()[i].1,
                        segment.drop_first()[i].1.message.slot,
                        None,
                        Some(segment.drop_first()[i].0),
                    ).unwrap(),
                )
            } by {
                assert(segment.drop_first()[i] == segment[i + 1]);
            }
        }
    }
}

/// The classification of batch-verifying a whole segment: load the first
/// block's parent, advance one shared state to the segment's highest slot,
/// collect every block's signature sets, and check them as one batch.
pub open spec fn spec_chain_segment_verdict(
    chain: BeaconChain,
    segment: Seq<(u64, SignedBlock)>,
) -> Option<BlockError> {
    if segment.len() == 0 {
        None
    } else {
        match spec_load_parent_verdict(chain, segment[0].1) {
            Err(e) => Some(e),
            Ok(loaded) => match spec_advance_for_block(
                loaded.1,
                loaded.2,
                segment.last().1.message.slot,
                chain.chain_spec,
            ) {
                Err(e) => Some(e),
                Ok(state) => {
                    let pubkeys = spec_guarded_pubkeys(
                        chain.validator_pubkey_cache.view_pubkeys(),
                        state.validators.len(),
                    );
                    match spec_segment_sets(state, pubkeys, segment) {
                        Err(e) => Some(spec_map_verifier_error(e)),
                        Ok(sets) => if all_valid(sets) {
                            None
                        } else {
                            Some(BlockError::InvalidSignature)
                        },
                    }
                },
            },
        }
    }
}

/// Splitting a segment at `i`: once the prefix's sets collect, the whole
/// segment's outcome is the prefix's sets followed by the suffix's outcome.
proof fn lemma_segment_sets_split(
    state: StateModel,
    pubkeys: Seq<u64>,
    segment: Seq<(u64, SignedBlock)>,
    i: int,
)
    requires
        0 <= i <= segment.len(),
        spec_segment_sets(state, pubkeys, segment.take(i)) is Ok,
    ensures
        (match spec_segment_sets(state, pubkeys, segment) {
            Ok(all) => spec_segment_sets(state, pubkeys, segment.skip(i)) matches Ok(rest) && all
                == spec_segment_sets(state, pubkeys, segment.take(i)).unwrap() + rest,
            Err(e) => spec_segment_sets(state, pubkeys, segment.skip(i)) == Err::<
                Seq<crate::signatures::SignatureSet>,
                BlockSignatureVerifierError,
            >(e),
        }),
    decreases i,
{
    if i == 0 {
        assert(segment.skip(0) =~= segment);
        assert(segment.take(0) =~= Seq::<(u64, SignedBlock)>::empty());
        match spec_segment_sets(state, pubkeys, segment) {
            Ok(all) => {
                assert(Seq::<crate::signatures::SignatureSet>::empty() + all =~= all);
            },
            Err(_) => {},
        }
    } else {
        assert(segment.take(i).first() == segment[0]);
        assert(segment.len() > 0);
        assert(segment.first() == segment[0]);
        match crate::signatures::spec_include_all_verdict(
            state,
            pubkeys,
            segment[0].1,
            segment[0].1.message.slot,
            None,
            Some(segment[0].0),
        ) {
            Ok(first_sets) => {
                assert(segment.take(i).drop_first() =~= segment.drop_first().take(i - 1));
                lemma_segment_sets_split(state, pubkeys, segment.drop_first(), i - 1);
                assert(segment.drop_first().skip(i - 1) =~= segment.skip(i));
                match spec_segment_sets(state, pubkeys, segment.drop_first()) {
                    Ok(all_rest) => {
                        match spec_segment_sets(state, pubkeys, segment.skip(i)) {
                            Ok(rest) => {
                                assert(spec_segment_sets(state, pubkeys, segment).unwrap()
                                    =~= spec_segment_sets(state, pubkeys, segment.take(i)).unwrap()
                                    + rest);
                            },
                            Err(_) => {},
                        }
                    },
                    Err(_) => {},
                }
            },
            Err(e) => {
                assert(spec_segment_sets(state, pubkeys, segment.take(i)) is Err);
            },
        }
    }
}

/// Consuming one segment entry: with the prefix collected, the next entry's
/// verdict decides the suffix.
proof fn lemma_segment_sets_step(
    state: StateModel,
    pubkeys: Seq<u64>,
    segment: Seq<(u64, SignedBlock)>,
    i: int,
)
    requires
        0 <= i < segment.len(),
        spec_segment_sets(state, pubkeys, segment.take(i)) is Ok,
    ensures
        (match crate::signatures::spec_include_all_verdict(
            state,
            pubkeys,
            segment[i].1,
            segment[i].1.message.slot,
            None,
            Some(segment[i].0),
        ) {
            Ok(sets) => spec_segment_sets(state, pubkeys, segment.take(i + 1)) == Ok::<
                Seq<crate::signatures::SignatureSet>,
                BlockSignatureVerifierError,
            >(spec_segment_sets(state, pubkeys, segment.take(i)).unwrap() + sets),
            Err(e) => spec_segment_sets(state, pubkeys, segment) == Err::<
                Seq<crate::signatures::SignatureSet>,
                BlockSignatureVerifierError,
            >(e),
        }),
{
    lemma_segment_sets_split(state, pubkeys, segment, i);
    assert(segment.skip(i).first() == segment[i]);
    assert(segment.skip(i).drop_first() =~= segment.skip(i + 1));
    assert(segment.take(i + 1).take(i) =~= segment.take(i));
    lemma_segment_sets_split(state, pubkeys, segment.take(i + 1), i);
    let single = segment.take(i + 1).skip(i);
    assert(single.len() == 1);
    assert(single.first() == segment[i]);
    assert(single.drop_first() =~= Seq::<(u64, SignedBlock)>::empty());
    assert(spec_segment_sets(state, pubkeys, Seq::<(u64, SignedBlock)>::empty()) == Ok::<
        Seq<crate::signatures::SignatureSet>,
        BlockSignatureVerifierError,
    >(Seq::<crate::signatures::SignatureSet>::empty()));
    match crate::signatures::spec_include_all_verdict(
        state,
        pubkeys,
        segment[i].1,
        segment[i].1.message.slot,
        None,
        Some(segment[i].0),
    ) {
        Ok(sets) => {
            assert(spec_segment_sets(state, pubkeys, single) == Ok::<
                Seq<crate::signatures::SignatureSet>,
                BlockSignatureVerifierError,
            >(sets + Seq::<crate::signatures::SignatureSet>::empty()));
            assert(sets + Seq::<crate::signatures::SignatureSet>::empty() =~= sets);
            assert(spec_segment_sets(state, pubkeys, segment.take(i + 1)).unwrap()
                =~= spec_segment_sets(state, pubkeys, segment.take(i)).unwrap() + sets);
        },
        Err(e) => {
            assert(spec_segment_sets(state, pubkeys, single) == Err::<
                Seq<crate::signatures::SignatureSet>,
                BlockSignatureVerifierError,
            >(e));
            assert(spec_segment_sets(state, pubkeys, segment.skip(i)) == Err::<
                Seq<crate::signatures::SignatureSet>,
                BlockSignatureVerifierError,
            >(e));
        },
    }
}

/// Verify all signatures (except deposit signatures) on all blocks in the
/// segment in one batch, sharing one committee state derived once for the
/// whole epoch. On success the segment maps to signature-verified blocks that
/// can later reach the final stage without re-checking signatures, the first
/// carrying the parent snapshot; any invalid signature fails the whole
/// segment, and it is not possible to know which one it was. All blocks must
/// be from the same epoch: a mixed-epoch segment fails the per-block epoch
/// safeguard.
#[verifier::loop_isolation(false)]
pub fn signature_verify_chain_segment(
    chain_segment: Vec<(u64, SignedBlock)>,
    chain: &BeaconChain,
) -> (r: Result<Vec<SignatureVerifiedBlock>, BlockError>)
    requires
        chain.wf(),
    ensures
        match r {
            Ok(v) => {
                &&& spec_chain_segment_verdict(*chain, chain_segment@) is None
                &&& v@.len() == chain_segment@.len()
                &&& forall|i: int|
                    0 <= i < v@.len() ==> (#[trigger] v@[i]).block == chain_segment@[i].1 && v@[
                        i
                    ].block_root == chain_segment@[i].0 && v@[i].wf() && (i >= 1 ==> v@[i].parent
                        is None)
                &&& chain_segment@.len() > 0 ==> v@[0].parent is Some
            },
            Err(e) => spec_chain_segment_verdict(*chain, chain_segment@) == Some(e),
        },
{
    let ghost orig = chain_segment@;
    if chain_segment.len() == 0 {
        return Ok(Vec::new());
    }
    let first_block = &chain_segment[0].1;
    let mut parent = match load_parent(first_block, chain) {
        Ok(p) => p,
        Err(e) => {
            return Err(e);
        },
    };
    let highest_slot = chain_segment[chain_segment.len() - 1].1.message.slot;
    assert(orig.last() == orig[orig.len() - 1]);
    let committee_state = match cheap_state_advance_to_obtain_committees::<BlockError>(
        &mut parent.pre_state,
        parent.beacon_state_root,
        highest_slot,
        &chain.chain_spec,
    ) {
        Ok(c) => c,
        Err(e) => {
            return Err(e);
        },
    };
    let state_ref: &crate::state::BeaconState = match &committee_state {
        CommitteeState::Borrowed => &parent.pre_state,
        CommitteeState::Advanced(advanced) => advanced,
    };
    let ghost loaded = spec_load_parent_verdict(*chain, orig[0].1).unwrap();
    assert(spec_advance_for_block(loaded.1, loaded.2, orig.last().1.message.slot, chain.chain_spec)
        == Ok::<StateModel, BlockError>(state_ref@));
    let mut signature_verifier = get_signature_verifier(state_ref, &chain.validator_pubkey_cache);
    let ghost pubkeys = signature_verifier.view_pubkeys();
    let mut signature_verified_blocks: Vec<SignatureVerifiedBlock> = Vec::new();
    let mut remaining = chain_segment;
    let n = remaining.len();
    proof {
        assert(orig.take(0) =~= Seq::<(u64, SignedBlock)>::empty());
    }
    let mut i: usize = 0;
    while i < n
        invariant
            n == orig.len(),
            n > 0,
            remaining@ =~= orig.skip(i as int),
            i <= n,
            pubkeys == signature_verifier.view_pubkeys(),
            signature_verified_blocks@.len() == i,
            spec_chain_segment_verdict(*chain, orig) == (match spec_segment_sets(
                state_ref@,
                pubkeys,
                orig,
            ) {
                Err(e) => Some(spec_map_verifier_error(e)),
                Ok(sets) => if all_valid(sets) {
                    None::<BlockError>
                } else {
                    Some(BlockError::InvalidSignature)
                },
            }),
            spec_segment_sets(state_ref@, pubkeys, orig.take(i as int)) matches Ok(done_sets)
                && signature_verifier.view_sets() == done_sets,
            forall|j: int|
                0 <= j < i ==> (#[trigger] signature_verified_blocks@[j]).block == orig[j].1
                    && signature_verified_blocks@[j].block_root == orig[j].0
                    && signature_verified_blocks@[j].wf()
                    && signature_verified_blocks@[j].parent is None,
        decreases n - i,
    {
        proof {
            assert(orig.skip(i as int).first() == orig[i as int]);
            assert(orig.skip(i as int).drop_first() =~= orig.skip(i + 1));
        }
        let (block_root, block) = remaining.remove(0);
        let mut consensus_context = ConsensusContext::new(block.message.slot).set_current_block_root(
            block_root,
        );
        let res = signature_verifier.include_all_signatures(
            state_ref,
            &block,
            &mut consensus_context,
        );
        proof {
            lemma_segment_sets_step(state_ref@, pubkeys, orig, i as int);
        }
        match res {
            Ok(()) => (),
            Err(e) => {
                return Err(map_verifier_error(e));
            },
        }
        signature_verified_blocks.push(
            SignatureVerifiedBlock { block, block_root, parent: None, consensus_context },
        );
        i = i + 1;
    }
    proof {
        assert(orig.take(n as int) =~= orig);
    }
    if !signature_verifier.verify() {
        return Err(BlockError::InvalidSignature);
    }
    assert(spec_chain_segment_verdict(*chain, orig) is None);
    let mut first = signature_verified_blocks.remove(0);
    first.parent = Some(parent);
    signature_verified_blocks.insert(0, first);
    Ok(signature_verified_blocks)
}

/// Eth1 voting data of the parent state, carried for finalization tracking.
#[derive(Clone, Copy, Debug, PartialEq, Eq, Structural)]
pub struct Eth1FinalizationData {
    pub eth1_data: u64,
    pub eth1_deposit_index: u64,
}

/// Everything the import step needs once verification is complete.
pub struct BlockImportData {
    pub block_root: u64,
    /// The fully advanced post-state of the block.
    pub state: crate::state::BeaconState,
    pub parent_block: SignedBlockHeader,
    pub parent_eth1_finalization_data: Eth1FinalizationData,
    /// State roots staged as temporary during catch-up; their temporary flags
    /// are deleted as part of the final atomic commit.
    pub confirmed_state_roots: Vec<u64>,
    pub consensus_context: ConsensusContext,
}

/// A fully verified block awaiting only its asynchronous payload check: the
/// caller must join the payload request before treating the block as
/// imported.
pub struct ExecutionPendingBlock {
    pub block: SignedBlock,
    pub import_data: BlockImportData,
    pub payload_verification_request: PayloadVerificationRequest,
}

/// One catch-up pass from the pre-state to the block's slot: the state is
/// advanced slot by slot; each newly reached state is staged in the store as
/// temporary — unless its summary already exists — and its root confirmed.
/// The root of a pre-state still at the parent's slot is already stored with
/// the parent block and is neither staged nor confirmed.
/// Yields (state at the block's slot, store after staging, confirmed roots).
pub open spec fn spec_catchup(
    state: StateModel,
    parent_slot: u64,
    parent_state_root: u64,
    block_slot: u64,
    store: crate::store::StoreModel,
    chain_spec: ChainSpec,
) -> (StateModel, crate::store::StoreModel, Seq<u64>)
    decreases block_slot - state.slot,
{
    if state.slot >= block_slot {
        (state, store, Seq::<u64>::empty())
    } else if parent_slot == state.slot {
        let root = parent_state_root;
        spec_catchup(
            crate::state::spec_slot_processed(state, root, chain_spec),
            parent_slot,
            parent_state_root,
            block_slot,
            store,
            chain_spec,
        )
    } else {
        let root = crate::state::state_root_of(state);
        let staged = if crate::store::spec_find_summary(store.summaries, root) is Some {
            store
        } else {
            let with_state = if state.slot % SLOTS_PER_EPOCH == 0 {
                crate::store::StoreModel { states: store.states.push((root, state)), ..store }
            } else {
                crate::store::StoreModel {
                    summaries: store.summaries.push(
                        crate::store::HotStateSummary { state_root: root, slot: state.slot },
                    ),
                    ..store
                }
            };
            crate::store::StoreModel {
                temp_flags: with_state.temp_flags.push(root),
                ..with_state
            }
        };
        let rest = spec_catchup(
            crate::state::spec_slot_processed(state, root, chain_spec),
            parent_slot,
            parent_state_root,
            block_slot,
            staged,
            chain_spec,
        );
        (rest.0, rest.1, seq![root] + rest.2)
    }
}

/// The pre-state root confirmed before catch-up: when the stored pre-state
/// was already advanced past the parent (and a slot is skipped), its
/// temporary flag is scheduled for deletion.
pub open spec fn spec_advanced_prestate_roots(parent: SnapshotModel, block_slot: u64) -> Seq<u64> {
    if block_slot > parent.pre_state.slot && parent.pre_state.slot
        > parent.beacon_block.message.slot {
        seq![crate::state::state_root_of(parent.pre_state)]
    } else {
        Seq::<u64>::empty()
    }
}

/// The classification of the final verification stage, short of attestation
/// registration: parent known to fork choice with a non-invalid payload, the
/// relevancy gate re-run as defense in depth, the parent ordering and
/// pre-state sanity bounds, the full per-block state transition on the
/// caught-up state, and the bit-for-bit post-state root comparison.
pub open spec fn spec_execution_pending_verdict(
    chain: BeaconChain,
    block: SignedBlock,
    block_root: u64,
    parent: SnapshotModel,
    ctx: ConsensusContext,
) -> Option<BlockError> {
    match spec_find_block(chain.fork_choice.blocks@, block.message.parent_root) {
        None => Some(BlockError::ParentUnknown { parent_root: block.message.parent_root }),
        Some(parent_proto) => if parent_proto.execution_status.spec_is_invalid() {
            Some(
                BlockError::ParentExecutionPayloadInvalid {
                    parent_root: block.message.parent_root,
                },
            )
        } else {
            match spec_relevancy_verdict(chain, block.message, block_root) {
                Some(e) => Some(e),
                None => if block.message.slot <= parent.beacon_block.message.slot {
                    Some(
                        BlockError::BlockIsNotLaterThanParent {
                            block_slot: block.message.slot,
                            parent_slot: parent.beacon_block.message.slot,
                        },
                    )
                } else if parent.pre_state.slot < parent.beacon_block.message.slot
                    || parent.pre_state.slot > block.message.slot {
                    Some(
                        BlockError::BeaconChainError(
                            BeaconChainError::BadPreState {
                                parent_root: parent.beacon_block_root,
                                parent_slot: parent.beacon_block.message.slot,
                                block_root,
                                block_slot: block.message.slot,
                                state_slot: parent.pre_state.slot,
                            },
                        ),
                    )
                } else {
                    let advanced = spec_catchup(
                        parent.pre_state,
                        parent.beacon_block.message.slot,
                        parent.beacon_block.message.state_root,
                        block.message.slot,
                        chain.store@,
                        chain.chain_spec,
                    ).0.with_caches();
                    match crate::state::spec_per_block_verdict(
                        advanced,
                        ctx,
                        block,
                        crate::state::BlockSignatureStrategy::NoVerification,
                    ) {
                        Some(BlockProcessingError::BeaconStateError(e)) => Some(
                            BlockError::BeaconChainError(BeaconChainError::BeaconStateError(e)),
                        ),
                        Some(other) => Some(BlockError::PerBlockProcessingError(other)),
                        None => {
                            let post = crate::state::spec_block_applied(advanced, block.message);
                            if block.message.state_root != crate::state::state_root_of(post) {
                                Some(
                                    BlockError::StateRootMismatch {
                                        block: block.message.state_root,
                                        local: crate::state::state_root_of(post),
                                    },
                                )
                            } else {
                                None
                            }
                        },
                    }
                },
            }
        },
    }
}

/// Whether every attestation of a list resolves to committee indices on
/// `state`: when they all do, the final stage cannot fail past its verdict.
pub open spec fn spec_all_attestations_resolvable(
    state: StateModel,
    atts: Seq<crate::types::Attestation>,
) -> bool {
    forall|i: int|
        0 <= i < atts.len() ==> crate::context::spec_computed_indices(
            state,
            (#[trigger] atts[i]).spec_data(),
            atts[i].spec_aggregation_bits(),
        ) is Some
}

/// The (attesting indices, data) pairs the final stage registers with fork
/// choice, in block order: each attestation is resolved on the post-state
/// and registered unless it is stale — for a slot the chain has not reached,
/// or for a target block fork choice does not know — in which case it is
/// skipped without failing the block.
pub open spec fn spec_registered_attestations(
    state: StateModel,
    fc_blocks: Seq<ProtoBlock>,
    current_slot: u64,
    atts: Seq<crate::types::Attestation>,
) -> Seq<(Seq<u64>, crate::types::AttestationData)>
    decreases atts.len(),
{
    if atts.len() == 0 {
        Seq::<(Seq<u64>, crate::types::AttestationData)>::empty()
    } else {
        let rest = spec_registered_attestations(state, fc_blocks, current_slot, atts.drop_last());
        let last = atts.last();
        if last.spec_data().slot <= current_slot && spec_find_block(
            fc_blocks,
            last.spec_data().beacon_block_root,
        ) is Some {
            rest.push(
                (
                    crate::context::spec_computed_indices(
                        state,
                        last.spec_data(),
                        last.spec_aggregation_bits(),
                    ).unwrap(),
                    last.spec_data(),
                ),
            )
        } else {
            rest
        }
    }
}

/// The final verification stage ignores the proposal signature: two blocks
/// with the same message — differing only in their signatures — classify
/// identically, because signature verification is never re-executed here (the
/// transition runs with the no-verification strategy).
pub proof fn lemma_final_stage_ignores_signatures(
    chain: BeaconChain,
    b1: SignedBlock,
    b2: SignedBlock,
    block_root: u64,
    parent: SnapshotModel,
    ctx: ConsensusContext,
)
    requires
        b1.message == b2.message,
    ensures
        spec_execution_pending_verdict(chain, b1, block_root, parent, ctx)
            == spec_execution_pending_verdict(chain, b2, block_root, parent, ctx),
{
}

/// The slashable-observation record after recording (proposer, slot, root).
pub open spec fn spec_observed_slashable_after(
    items: Seq<ObservedProposal>,
    block: SignedBlock,
    block_root: u64,
) -> Seq<ObservedProposal> {
    let t = ObservedProposal {
        proposer: block.message.proposer_index,
        slot: block.message.slot,
        root: block_root,
    };
    if items.contains(t) {
        items
    } else {
        items.push(t)
    }
}

/// The proposal-observation record after the observe-and-check.
pub open spec fn spec_observed_producers_after(
    items: Seq<ObservedProposal>,
    block: SignedBlock,
    block_root: u64,
) -> Seq<ObservedProposal> {
    if spec_observe_verdict(items, block_root, block.message.proposer_index, block.message.slot)
        == SeenBlock::UniqueNonSlashable {
        items.push(
            ObservedProposal {
                proposer: block.message.proposer_index,
                slot: block.message.slot,
                root: block_root,
            },
        )
    } else {
        items
    }
}

impl ExecutionPendingBlock {
    /// This block's stage in the pipeline.
    pub open spec fn stage(self) -> VerificationStage {
        VerificationStage::ExecutionPending
    }

    /// Instantiates `Self` from signature-verified components, completing the
    /// state-transition-dependent checks. Signatures are assumed valid and
    /// never re-checked here. The proposal is recorded a second time
    /// (idempotently) as the authoritative equivocation checkpoint; the
    /// parent must be known to fork choice with a non-invalid payload; the
    /// relevancy gate re-runs as defense in depth; then the parent's
    /// pre-state is advanced slot by slot — each intermediate state staged as
    /// temporary in the store — the full per-block transition runs, the
    /// post-state root is compared bit-for-bit against the block's declared
    /// one, and the block's attestations and slashings are registered with
    /// fork choice (stale attestations skipped, not fatal). The payload check
    /// is returned as a request to be run concurrently and joined later.
    #[verifier::loop_isolation(false)]
    pub fn from_signature_verified_components(
        block: SignedBlock,
        block_root: u64,
        parent: PreProcessingSnapshot,
        consensus_context: ConsensusContext,
        chain: &mut BeaconChain,
        notify_execution_layer: NotifyExecutionLayer,
    ) -> (r: Result<ExecutionPendingBlock, BlockError>)
        requires
            old(chain).wf(),
        ensures
            final(chain).chain_spec == old(chain).chain_spec,
            final(chain).genesis_validators_root == old(chain).genesis_validators_root,
            final(chain).current_slot == old(chain).current_slot,
            final(chain).head_fork_version == old(chain).head_fork_version,
            final(chain).validator_pubkey_cache == old(chain).validator_pubkey_cache,
            final(chain).beacon_proposer_cache == old(chain).beacon_proposer_cache,
            final(chain).slasher == old(chain).slasher,
            final(chain).store@.blocks == old(chain).store@.blocks,
            final(chain).store@.anchor_slot == old(chain).store@.anchor_slot,
            final(chain).fork_choice.blocks@ == old(chain).fork_choice.blocks@,
            final(chain).fork_choice.finalized_checkpoint == old(chain).fork_choice.finalized_checkpoint,
            old(chain).fork_choice.attestations@.is_prefix_of(final(chain).fork_choice.attestations@),
            old(chain).fork_choice.attester_slashings@.is_prefix_of(
                final(chain).fork_choice.attester_slashings@,
            ),
            r is Ok ==> final(chain).fork_choice.attester_slashings@.len() == old(
                chain,
            ).fork_choice.attester_slashings@.len() + block.message.body.attester_slashings@.len()
                && (forall|i: int|
                0 <= i < block.message.body.attester_slashings@.len() ==> {
                    let appended = final(chain).fork_choice.attester_slashings@[old(
                        chain,
                    ).fork_choice.attester_slashings@.len() + i];
                    &&& crate::context::indexed_view_eq(
                        appended.attestation_1,
                        (#[trigger] block.message.body.attester_slashings@[i]).attestation_1,
                    )
                    &&& crate::context::indexed_view_eq(
                        appended.attestation_2,
                        block.message.body.attester_slashings@[i].attestation_2,
                    )
                }),
            r is Ok && crate::context::spec_cache_coherent(
                consensus_context,
                crate::state::spec_block_applied(
                    spec_catchup(
                        parent.pre_state@,
                        parent.beacon_block.message.slot,
                        parent.beacon_block.message.state_root,
                        block.message.slot,
                        old(chain).store@,
                        old(chain).chain_spec,
                    ).0.with_caches(),
                    block.message,
                ),
            ) ==> {
                let registered = spec_registered_attestations(
                    crate::state::spec_block_applied(
                        spec_catchup(
                            parent.pre_state@,
                            parent.beacon_block.message.slot,
                            parent.beacon_block.message.state_root,
                            block.message.slot,
                            old(chain).store@,
                            old(chain).chain_spec,
                        ).0.with_caches(),
                        block.message,
                    ),
                    old(chain).fork_choice.blocks@,
                    old(chain).current_slot.unwrap(),
                    block.message.body.attestations@,
                );
                &&& final(chain).fork_choice.attestations@.len() == old(
                    chain,
                ).fork_choice.attestations@.len() + registered.len()
                &&& forall|i: int|
                    0 <= i < registered.len() ==> {
                        let appended = final(chain).fork_choice.attestations@[old(
                            chain,
                        ).fork_choice.attestations@.len() + i];
                        appended.attesting_indices@ == (#[trigger] registered[i]).0
                            && appended.data == registered[i].1
                    }
            },
            final(chain).observed_slashable.view_items() == spec_observed_slashable_after(
                old(chain).observed_slashable.view_items(),
                block,
                block_root,
            ),
            final(chain).observed_block_producers.view_items() == spec_observed_producers_after(
                old(chain).observed_block_producers.view_items(),
                block,
                block_root,
            ),
            final(chain).pre_finalization_rejected@ == (if (spec_find_block(
                old(chain).fork_choice.blocks@,
                block.message.parent_root,
            ) matches Some(pb) && !pb.execution_status.spec_is_invalid())
                && spec_relevancy_verdict(*old(chain), block.message, block_root) == Some(
                BlockError::WouldRevertFinalizedSlot {
                    block_slot: block.message.slot,
                    finalized_slot: old(chain).fork_choice.spec_finalized_slot(),
                },
            ) && !old(chain).pre_finalization_rejected@.contains(block_root) {
                old(chain).pre_finalization_rejected@.push(block_root)
            } else {
                old(chain).pre_finalization_rejected@
            }),
            match r {
                Ok(ep) => {
                    &&& spec_execution_pending_verdict(
                        *old(chain),
                        block,
                        block_root,
                        snapshot_model(parent),
                        consensus_context,
                    ) is None
                    &&& ep.block == block
                    &&& ep.stage() == VerificationStage::ExecutionPending
                    &&& ep.import_data.block_root == block_root
                    &&& ep.import_data.parent_block == parent.beacon_block
                    &&& ep.import_data.parent_eth1_finalization_data == (Eth1FinalizationData {
                        eth1_data: parent.pre_state@.eth1_data,
                        eth1_deposit_index: parent.pre_state@.eth1_deposit_index,
                    })
                    &&& ep.import_data.state@ == crate::state::spec_block_applied(
                        spec_catchup(
                            parent.pre_state@,
                            parent.beacon_block.message.slot,
                            parent.beacon_block.message.state_root,
                            block.message.slot,
                            old(chain).store@,
                            old(chain).chain_spec,
                        ).0.with_caches(),
                        block.message,
                    )
                    &&& block.message.state_root == crate::state::state_root_of(
                        ep.import_data.state@,
                    )
                    &&& ep.import_data.confirmed_state_roots@ == spec_advanced_prestate_roots(
                        snapshot_model(parent),
                        block.message.slot,
                    ) + spec_catchup(
                        parent.pre_state@,
                        parent.beacon_block.message.slot,
                        parent.beacon_block.message.state_root,
                        block.message.slot,
                        old(chain).store@,
                        old(chain).chain_spec,
                    ).2
                    &&& ep.payload_verification_request == (PayloadVerificationRequest {
                        notify_execution_layer,
                        payload: block.message.body.execution_payload,
                        block_root,
                        block_slot: block.message.slot,
                        parent_root: block.message.parent_root,
                        is_valid_merge_transition_block: block.message.body.execution_payload
                            is Some && spec_find_block(
                            old(chain).fork_choice.blocks@,
                            block.message.parent_root,
                        ).unwrap().execution_status is Irrelevant,
                        terminal_block_hash: old(chain).chain_spec.terminal_block_hash,
                        terminal_block_hash_activation_epoch: old(chain).chain_spec.terminal_block_hash_activation_epoch,
                    })
                    &&& final(chain).store@.states == spec_catchup(
                        parent.pre_state@,
                        parent.beacon_block.message.slot,
                        parent.beacon_block.message.state_root,
                        block.message.slot,
                        old(chain).store@,
                        old(chain).chain_spec,
                    ).1.states
                    &&& final(chain).store@.summaries == spec_catchup(
                        parent.pre_state@,
                        parent.beacon_block.message.slot,
                        parent.beacon_block.message.state_root,
                        block.message.slot,
                        old(chain).store@,
                        old(chain).chain_spec,
                    ).1.summaries
                    &&& final(chain).store@.temp_flags == spec_catchup(
                        parent.pre_state@,
                        parent.beacon_block.message.slot,
                        parent.beacon_block.message.state_root,
                        block.message.slot,
                        old(chain).store@,
                        old(chain).chain_spec,
                    ).1.temp_flags
                },
                Err(e) => spec_execution_pending_verdict(
                    *old(chain),
                    block,
                    block_root,
                    snapshot_model(parent),
                    consensus_context,
                ) == Some(e) || (spec_execution_pending_verdict(
                    *old(chain),
                    block,
                    block_root,
                    snapshot_model(parent),
                    consensus_context,
                ) is None && e matches BlockError::PerBlockProcessingError(
                    BlockProcessingError::ConsensusContext(_),
                )),
            },
            spec_execution_pending_verdict(
                *old(chain),
                block,
                block_root,
                snapshot_model(parent),
                consensus_context,
            ) is None && spec_all_attestations_resolvable(
                crate::state::spec_block_applied(
                    spec_catchup(
                        parent.pre_state@,
                        parent.beacon_block.message.slot,
                        parent.beacon_block.message.state_root,
                        block.message.slot,
                        old(chain).store@,
                        old(chain).chain_spec,
                    ).0.with_caches(),
                    block.message,
                ),
                block.message.body.attestations@,
            ) ==> r is Ok,
    {
        let ghost chain0 = *chain;
        let ghost parent0 = snapshot_model(parent);
        // Record the proposal a second time: the authoritative equivocation
        // checkpoint before any state is mutated. Idempotent for a block that
        // gossip already observed.
        chain.observed_slashable.observe_slashable(
            block.message.slot,
            block.message.proposer_index,
            block_root,
        );
        let seen = chain.observed_block_producers.observe_proposal(block_root, &block.message);
        // Reject any block whose parent is unknown to fork choice, or whose
        // parent has an invalid execution payload: no valid block descends
        // from an invalid one.
        let parent_proto = match chain.fork_choice.get_block(block.message.parent_root) {
            Some(p) => p,
            None => {
                return Err(BlockError::ParentUnknown { parent_root: block.message.parent_root });
            },
        };
        if parent_proto.execution_status.is_invalid() {
            return Err(
                BlockError::ParentExecutionPayloadInvalid {
                    parent_root: block.message.parent_root,
                },
            );
        }
        // Cursory checks to see if the block is even worth processing, re-run
        // here as defense in depth against races.
        match check_block_relevancy(&block, block_root, chain) {
            Ok(_) => (),
            Err(e) => {
                return Err(e);
            },
        }
        // Define the payload check to run concurrently with the state
        // transition; the caller joins it later.
        let is_valid_merge_transition_block = block.message.body.execution_payload.is_some()
            && matches!(parent_proto.execution_status, BlockExecutionStatus::Irrelevant);
        let payload_verification_request = PayloadVerificationRequest {
            notify_execution_layer,
            payload: block.message.body.execution_payload,
            block_root,
            block_slot: block.message.slot,
            parent_root: block.message.parent_root,
            is_valid_merge_transition_block,
            terminal_block_hash: chain.chain_spec.terminal_block_hash,
            terminal_block_hash_activation_epoch:
                chain.chain_spec.terminal_block_hash_activation_epoch,
        };
        // The block must have a higher slot than its parent.
        if block.message.slot <= parent.beacon_block.message.slot {
            return Err(
                BlockError::BlockIsNotLaterThanParent {
                    block_slot: block.message.slot,
                    parent_slot: parent.beacon_block.message.slot,
                },
            );
        }
        let mut state = parent.pre_state;
        // Sanity bounds on the pre-state.
        let parent_slot = parent.beacon_block.message.slot;
        if state.slot < parent_slot || state.slot > block.message.slot {
            return Err(
                BlockError::BeaconChainError(
                    BeaconChainError::BadPreState {
                        parent_root: parent.beacon_block_root,
                        parent_slot,
                        block_root,
                        block_slot: block.message.slot,
                        state_slot: state.slot,
                    },
                ),
            );
        }
        let mut confirmed_state_roots: Vec<u64> = Vec::new();
        if block.message.slot > state.slot && state.slot > parent_slot {
            // Advanced pre-state: schedule its temporary flag for deletion.
            let pre_state_root = state.canonical_root();
            confirmed_state_roots.push(pre_state_root);
        }
        let parent_eth1_finalization_data = Eth1FinalizationData {
            eth1_data: state.eth1_data,
            eth1_deposit_index: state.eth1_deposit_index,
        };
        // Transition the pre-state to the block's slot, staging each newly
        // reached state as temporary: crash-safe provisional storage,
        // confirmed only by the final atomic commit.
        let ghost chain_at_loop = *chain;
        let ghost catchup = spec_catchup(
            state@,
            parent_slot,
            parent.beacon_block.message.state_root,
            block.message.slot,
            chain.store@,
            chain0.chain_spec,
        );
        let ghost mut staged: Seq<u64> = Seq::<u64>::empty();
        let ghost confirmed0 = confirmed_state_roots@;
        proof {
            assert(Seq::<u64>::empty() + catchup.2 =~= catchup.2);
            assert(confirmed0 + staged =~= confirmed0);
        }
        while state.slot < block.message.slot
            invariant
                state.slot <= block.message.slot,
                chain.chain_spec == chain_at_loop.chain_spec,
                chain.store@.blocks == chain_at_loop.store@.blocks,
                chain.store@.anchor_slot == chain_at_loop.store@.anchor_slot,
                chain.fork_choice == chain_at_loop.fork_choice,
                chain.observed_block_producers == chain_at_loop.observed_block_producers,
                chain.observed_slashable == chain_at_loop.observed_slashable,
                chain.current_slot == chain_at_loop.current_slot,
                chain.genesis_validators_root == chain_at_loop.genesis_validators_root,
                chain.head_fork_version == chain_at_loop.head_fork_version,
                chain.validator_pubkey_cache == chain_at_loop.validator_pubkey_cache,
                chain.beacon_proposer_cache == chain_at_loop.beacon_proposer_cache,
                chain.slasher == chain_at_loop.slasher,
                chain.pre_finalization_rejected == chain_at_loop.pre_finalization_rejected,
                confirmed_state_roots@ == confirmed0 + staged,
                catchup == {
                    let rest = spec_catchup(
                        state@,
                        parent_slot,
                        parent.beacon_block.message.state_root,
                        block.message.slot,
                        chain.store@,
                        chain0.chain_spec,
                    );
                    (rest.0, rest.1, staged + rest.2)
                },
            decreases block.message.slot - state.slot,
        {
            let ghost pre_iter_state = state@;
            let ghost pre_iter_store = chain.store@;
            let state_root: u64;
            if parent_slot == state.slot {
                // The unadvanced pre-state's root is already stored with the
                // parent block: nothing to stage.
                state_root = parent.beacon_block.message.state_root;
            } else {
                // A newly reached state: stage it, flagged temporary, unless
                // its summary already exists (another thread may have got
                // there first; double-deleting a flag later is harmless).
                let root = state.canonical_root();
                let state_already_exists = chain.store.load_hot_state_summary(root).is_some();
                let mut ops: Vec<crate::store::StoreOp> = Vec::new();
                if !state_already_exists {
                    if state.slot % SLOTS_PER_EPOCH == 0 {
                        ops.push(crate::store::StoreOp::PutState(root, state.duplicate()));
                    } else {
                        ops.push(
                            crate::store::StoreOp::PutStateSummary(
                                root,
                                crate::store::HotStateSummary {
                                    state_root: root,
                                    slot: state.slot,
                                },
                            ),
                        );
                    }
                    ops.push(crate::store::StoreOp::PutStateTemporaryFlag(root));
                }
                let ghost ops_view = ops@;
                chain.store.do_atomically(ops);
                proof {
                    if ops_view.len() > 0 {
                        assert(ops_view.len() == 2);
                        assert(ops_view.first() == ops_view[0]);
                        assert(ops_view.drop_first().first() == ops_view[1]);
                        assert(ops_view.drop_first().drop_first() =~= Seq::<
                            crate::store::StoreOp,
                        >::empty());
                        assert(crate::store::spec_apply_ops(pre_iter_store, ops_view)
                            == crate::store::spec_apply_ops(
                            crate::store::spec_apply_op(pre_iter_store, ops_view[0]),
                            ops_view.drop_first(),
                        ));
                        assert(crate::store::spec_apply_ops(
                            crate::store::spec_apply_op(pre_iter_store, ops_view[0]),
                            ops_view.drop_first(),
                        ) == crate::store::spec_apply_ops(
                            crate::store::spec_apply_op(
                                crate::store::spec_apply_op(pre_iter_store, ops_view[0]),
                                ops_view[1],
                            ),
                            ops_view.drop_first().drop_first(),
                        ));
                        assert(crate::store::spec_apply_ops(
                            crate::store::spec_apply_op(
                                crate::store::spec_apply_op(pre_iter_store, ops_view[0]),
                                ops_view[1],
                            ),
                            ops_view.drop_first().drop_first(),
                        ) == crate::store::spec_apply_op(
                            crate::store::spec_apply_op(pre_iter_store, ops_view[0]),
                            ops_view[1],
                        ));
                        assert(chain.store@ == crate::store::spec_apply_op(
                            crate::store::spec_apply_op(pre_iter_store, ops_view[0]),
                            ops_view[1],
                        ));
                    } else {
                        assert(ops_view =~= Seq::<crate::store::StoreOp>::empty());
                        assert(chain.store@ == pre_iter_store);
                    }
                }
                confirmed_state_roots.push(root);
                proof {
                    staged = staged.push(root);
                    assert(confirmed_state_roots@ =~= confirmed0 + staged);
                }
                state_root = root;
            }
            let res = crate::state::per_slot_processing(
                &mut state,
                Some(state_root),
                &chain.chain_spec,
            );
            proof {
                assert(res is Ok);
                let rest_now = spec_catchup(
                    state@,
                    parent_slot,
                    parent.beacon_block.message.state_root,
                    block.message.slot,
                    chain.store@,
                    chain0.chain_spec,
                );
                if parent_slot != pre_iter_state.slot {
                    let root2 = crate::state::state_root_of(pre_iter_state);
                    assert(staged + rest_now.2 =~= staged.drop_last() + (seq![root2]
                        + rest_now.2));
                }
            }
        }
        proof {
            let rest_end = spec_catchup(
                state@,
                parent_slot,
                parent.beacon_block.message.state_root,
                block.message.slot,
                chain.store@,
                chain0.chain_spec,
            );
            assert(rest_end.0 == state@ && rest_end.1 == chain.store@);
            assert(staged + rest_end.2 =~= staged);
            assert(catchup.0 == state@ && catchup.1 == chain.store@ && catchup.2 == staged);
        }
        // Build the committee caches and run the full per-block transition
        // with the no-verification strategy: signatures were checked earlier.
        let res_caches = state.build_all_committee_caches();
        let mut consensus_context = consensus_context;
        match crate::state::per_block_processing(
            &mut state,
            &block,
            crate::state::BlockSignatureStrategy::NoVerification,
            &mut consensus_context,
        ) {
            Ok(()) => (),
            Err(e) => {
                match e {
                    BlockProcessingError::BeaconStateError(se) => {
                        return Err(
                            BlockError::BeaconChainError(BeaconChainError::BeaconStateError(se)),
                        );
                    },
                    other => {
                        return Err(BlockError::PerBlockProcessingError(other));
                    },
                }
            },
        }
        // Check the declared state root bit-for-bit against the computed one.
        let state_root = state.canonical_root();
        if block.message.state_root != state_root {
            return Err(
                BlockError::StateRootMismatch { block: block.message.state_root, local: state_root },
            );
        }
        // Register the block's slashings and attestations with fork choice.
        // Stale attestations of an old block are skipped, not fatal.
        let current_slot = match chain.slot() {
            Ok(s) => s,
            Err(_) => {
                assert(false);
                return Err(BlockError::BeaconChainError(BeaconChainError::UnableToReadSlot));
            },
        };
        let ghost fc_before = chain.fork_choice;
        let ghost chain_before_fc = *chain;
        let ghost post_model = state@;
        let ghost coherent0 = crate::context::spec_cache_coherent(consensus_context, post_model);
        let ghost slashings0 = block.message.body.attester_slashings@;
        let n_slashings = block.message.body.attester_slashings.len();
        let mut i: usize = 0;
        while i < n_slashings
            invariant
                i <= n_slashings,
                n_slashings == slashings0.len(),
                chain.fork_choice.blocks@ == fc_before.blocks@,
                chain.fork_choice.finalized_checkpoint == fc_before.finalized_checkpoint,
                chain.fork_choice.attestations@ == fc_before.attestations@,
                fc_before.attester_slashings@.is_prefix_of(chain.fork_choice.attester_slashings@),
                chain.fork_choice.attester_slashings@.len() == fc_before.attester_slashings@.len()
                    + i,
                forall|k: int|
                    0 <= k < i ==> {
                        let appended = chain.fork_choice.attester_slashings@[
                            fc_before.attester_slashings@.len() + k];
                        &&& crate::context::indexed_view_eq(
                            appended.attestation_1,
                            (#[trigger] slashings0[k]).attestation_1,
                        )
                        &&& crate::context::indexed_view_eq(
                            appended.attestation_2,
                            slashings0[k].attestation_2,
                        )
                    },
                chain.chain_spec == chain_before_fc.chain_spec,
                chain.store == chain_before_fc.store,
                chain.observed_block_producers == chain_before_fc.observed_block_producers,
                chain.observed_slashable == chain_before_fc.observed_slashable,
                chain.current_slot == chain_before_fc.current_slot,
                chain.genesis_validators_root == chain_before_fc.genesis_validators_root,
                chain.head_fork_version == chain_before_fc.head_fork_version,
                chain.validator_pubkey_cache == chain_before_fc.validator_pubkey_cache,
                chain.beacon_proposer_cache == chain_before_fc.beacon_proposer_cache,
                chain.slasher == chain_before_fc.slasher,
                chain.pre_finalization_rejected == chain_before_fc.pre_finalization_rejected,
            decreases n_slashings - i,
        {
            let ghost fc_prev = chain.fork_choice.attester_slashings@;
            let slashing = dup_slashing(&block.message.body.attester_slashings[i]);
            chain.fork_choice.on_attester_slashing(slashing);
            proof {
                assert(chain.fork_choice.attester_slashings@.drop_last() == fc_prev);
                assert(forall|k: int|
                    0 <= k < fc_prev.len() ==> chain.fork_choice.attester_slashings@[k] == fc_prev[
                        k
                    ]);
            }
            i = i + 1;
        }
        let ghost atts0 = block.message.body.attestations@;
        let n_atts = block.message.body.attestations.len();
        let mut j: usize = 0;
        proof {
            assert(atts0.take(0) =~= Seq::<crate::types::Attestation>::empty());
        }
        while j < n_atts
            invariant
                j <= n_atts,
                n_atts == atts0.len(),
                post_model == state@,
                chain.fork_choice.blocks@ == fc_before.blocks@,
                chain.fork_choice.finalized_checkpoint == fc_before.finalized_checkpoint,
                fc_before.attestations@.is_prefix_of(chain.fork_choice.attestations@),
                fc_before.attester_slashings@.is_prefix_of(chain.fork_choice.attester_slashings@),
                chain.fork_choice.attester_slashings@.len() == fc_before.attester_slashings@.len()
                    + n_slashings,
                forall|k: int|
                    0 <= k < n_slashings ==> {
                        let appended = chain.fork_choice.attester_slashings@[
                            fc_before.attester_slashings@.len() + k];
                        &&& crate::context::indexed_view_eq(
                            appended.attestation_1,
                            (#[trigger] slashings0[k]).attestation_1,
                        )
                        &&& crate::context::indexed_view_eq(
                            appended.attestation_2,
                            slashings0[k].attestation_2,
                        )
                    },
                coherent0 ==> crate::context::spec_cache_coherent(consensus_context, post_model),
                coherent0 ==> {
                    let registered = spec_registered_attestations(
                        post_model,
                        fc_before.blocks@,
                        current_slot,
                        atts0.take(j as int),
                    );
                    &&& chain.fork_choice.attestations@.len() == fc_before.attestations@.len()
                        + registered.len()
                    &&& forall|k: int|
                        0 <= k < registered.len() ==> {
                            let appended = chain.fork_choice.attestations@[
                                fc_before.attestations@.len() + k];
                            appended.attesting_indices@ == (#[trigger] registered[k]).0
                                && appended.data == registered[k].1
                        }
                },
                chain.chain_spec == chain_before_fc.chain_spec,
                chain.store == chain_before_fc.store,
                chain.observed_block_producers == chain_before_fc.observed_block_producers,
                chain.observed_slashable == chain_before_fc.observed_slashable,
                chain.current_slot == chain_before_fc.current_slot,
                chain.genesis_validators_root == chain_before_fc.genesis_validators_root,
                chain.head_fork_version == chain_before_fc.head_fork_version,
                chain.validator_pubkey_cache == chain_before_fc.validator_pubkey_cache,
                chain.beacon_proposer_cache == chain_before_fc.beacon_proposer_cache,
                chain.slasher == chain_before_fc.slasher,
                chain.pre_finalization_rejected == chain_before_fc.pre_finalization_rejected,
            decreases n_atts - j,
        {
            let ghost fc_prev = chain.fork_choice.attestations@;
            let att = &block.message.body.attestations[j];
            let indexed = match consensus_context.get_indexed_attestation(&state, att) {
                Ok(ia) => ia,
                Err(e) => {
                    return Err(
                        BlockError::PerBlockProcessingError(
                            BlockProcessingError::ConsensusContext(e),
                        ),
                    );
                },
            };
            let att_res = chain.fork_choice.on_attestation(current_slot, indexed);
            // An old block's attestations may be stale: ignore them.
            proof {
                assert(atts0.take(j + 1).drop_last() =~= atts0.take(j as int));
                assert(atts0.take(j + 1).last() == atts0[j as int]);
                if att_res is Ok {
                    assert(chain.fork_choice.attestations@.drop_last() == fc_prev);
                    assert(forall|k: int|
                        0 <= k < fc_prev.len() ==> chain.fork_choice.attestations@[k] == fc_prev[
                            k
                        ]);
                }
            }
            j = j + 1;
        }
        proof {
            assert(atts0.take(n_atts as int) =~= atts0);
        }
        Ok(
            ExecutionPendingBlock {
                block,
                import_data: BlockImportData {
                    block_root,
                    state,
                    parent_block: parent.beacon_block,
                    parent_eth1_finalization_data,
                    confirmed_state_roots,
                    consensus_context,
                },
                payload_verification_request,
            },
        )
    }
}

/// An exact copy of an attester slashing.
fn dup_slashing(s: &crate::types::AttesterSlashing) -> (r: crate::types::AttesterSlashing)
    ensures
        crate::context::indexed_view_eq(r.attestation_1, s.attestation_1),
        crate::context::indexed_view_eq(r.attestation_2, s.attestation_2),
{
    crate::types::AttesterSlashing {
        attestation_1: dup_indexed_local(&s.attestation_1),
        attestation_2: dup_indexed_local(&s.attestation_2),
    }
}

/// An exact copy of an indexed attestation.
fn dup_indexed_local(ia: &crate::types::IndexedAttestation) -> (r: crate::types::IndexedAttestation)
    ensures
        crate::context::indexed_view_eq(r, *ia),
{
    let mut indices: Vec<u64> = Vec::new();
    let n = ia.attesting_indices.len();
    for i in 0..n
        invariant
            n == ia.attesting_indices@.len(),
            indices@ =~= ia.attesting_indices@.take(i as int),
    {
        indices.push(ia.attesting_indices[i]);
        assert(indices@ =~= ia.attesting_indices@.take(i + 1));
    }
    assert(ia.attesting_indices@.take(n as int) =~= ia.attesting_indices@);
    crate::types::IndexedAttestation {
        attesting_indices: indices,
        data: ia.data,
        signature: ia.signature,
    }
}

} // verus!