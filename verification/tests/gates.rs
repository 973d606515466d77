//! Gate-level rejections — fork shape, anchor, unknown validators, payload
//! constraints — and a full pipeline run for a block carrying an aggregate
//! attestation.

use block_verification::chain::{BeaconChain, BeaconProposerCache, Slasher, ValidatorPubkeyCache};
use block_verification::context::ConsensusContext;
use block_verification::errors::{BlockError, ExecutionPayloadError};
use block_verification::fork_choice::{BlockExecutionStatus, Checkpoint, ForkChoiceView, ProtoBlock};
use block_verification::observation::{ObservedBlockProducers, ObservedSlashable};
use block_verification::pipeline::{validate_execution_payload_for_gossip, ExecutionPendingBlock,
    GossipVerifiedBlock, NotifyExecutionLayer, SignatureVerifiedBlock};
use block_verification::roots::{compute_attestation_data_root, get_block_header_root,
    get_block_root, signed_block_header};
use block_verification::state::{per_block_processing, per_slot_processing, BeaconState,
    BlockSignatureStrategy, ChainSpec, ForkScheduleEntry};
use block_verification::store::HotColdDB;
use block_verification::types::{Attestation, AttestationBase, AttestationData, Block, BlockBody,
    BlockHeader, ExecutionPayload, Signature, SignedBlock, SignedBlockHeader,
    DOMAIN_BEACON_ATTESTER, DOMAIN_BEACON_PROPOSER, DOMAIN_RANDAO};
use block_verification::epoch_of;

const GENESIS_ROOT: u64 = 7;

fn pubkeys() -> Vec<u64> {
    vec![100, 101, 102, 103]
}

fn test_spec() -> ChainSpec {
    ChainSpec {
        fork_schedule: vec![ForkScheduleEntry { epoch: 0, version: 1, has_payload: false }],
        genesis_time: 1000,
        seconds_per_slot: 12,
        maximum_gossip_clock_disparity_slots: 1,
        terminal_block_hash: 0,
        terminal_block_hash_activation_epoch: 0,
    }
}

fn start_state() -> BeaconState {
    BeaconState {
        slot: 0,
        fork_version: 1,
        genesis_validators_root: GENESIS_ROOT,
        validators: pubkeys(),
        randao_seed: 5,
        proposer_seed: 9,
        latest_block_header: BlockHeader {
            slot: 0,
            proposer_index: 0,
            parent_root: 11,
            state_root: 999,
            body_root: 22,
        },
        state_roots: Vec::new(),
        eth1_data: 3,
        eth1_deposit_index: 1,
        committee_caches_built: true,
    }
}

fn dummy_signature() -> Signature {
    Signature { signer: 0, object_root: 0, domain: 0, fork_version: 0, genesis_validators_root: 0 }
}

/// Produces a valid signed block at `slot` carrying the given attestations.
fn produce_block_with(
    parent_state: &BeaconState,
    parent_slot: u64,
    parent_declared_root: u64,
    slot: u64,
    attestations: Vec<Attestation>,
) -> (SignedBlock, u64, BeaconState) {
    let spec = test_spec();
    let mut state = parent_state.duplicate();
    while state.slot < slot {
        let root = if state.slot == parent_slot {
            parent_declared_root
        } else {
            state.canonical_root()
        };
        per_slot_processing(&mut state, Some(root), &spec).unwrap();
    }
    state.build_all_committee_caches().unwrap();
    let proposer = state.get_beacon_proposer_index(slot).unwrap();
    let parent_root = get_block_header_root(&SignedBlockHeader {
        message: state.latest_block_header,
        signature: dummy_signature(),
    });
    let body = BlockBody {
        randao_reveal: Signature {
            signer: 100 + proposer,
            object_root: epoch_of(slot),
            domain: DOMAIN_RANDAO,
            fork_version: state.fork_version,
            genesis_validators_root: GENESIS_ROOT,
        },
        attestations,
        attester_slashings: Vec::new(),
        execution_payload: None,
    };
    let draft = Block { slot, proposer_index: proposer, parent_root, state_root: 0, body };
    let mut post = state.duplicate();
    let mut ctx = ConsensusContext::new(slot);
    per_block_processing(
        &mut post,
        &SignedBlock { message: draft.clone(), signature: dummy_signature() },
        BlockSignatureStrategy::NoVerification,
        &mut ctx,
    )
    .unwrap();
    let state_root = post.canonical_root();
    let message = Block { state_root, ..draft };
    let block_root =
        get_block_root(&SignedBlock { message: message.clone(), signature: dummy_signature() });
    let signature = Signature {
        signer: 100 + proposer,
        object_root: block_root,
        domain: DOMAIN_BEACON_PROPOSER,
        fork_version: state.fork_version,
        genesis_validators_root: GENESIS_ROOT,
    };
    (SignedBlock { message, signature }, block_root, post)
}

fn chain_with_parent_at_8() -> (BeaconChain, SignedBlock, u64, BeaconState) {
    let (parent_block, parent_root, parent_post) =
        produce_block_with(&start_state(), 0, 999, 8, Vec::new());
    let anchor_root = 12345;
    let mut store = HotColdDB::new(None);
    store.put_block(parent_root, signed_block_header(&parent_block));
    store.put_state(parent_block.message.state_root, parent_post.duplicate());
    let chain = BeaconChain {
        chain_spec: test_spec(),
        genesis_validators_root: GENESIS_ROOT,
        current_slot: Some(10),
        head_fork_version: 1,
        fork_choice: ForkChoiceView {
            blocks: vec![
                ProtoBlock {
                    root: anchor_root,
                    slot: 0,
                    state_root: 999,
                    execution_status: BlockExecutionStatus::Irrelevant,
                    next_epoch_shuffling_decision_root: anchor_root,
                },
                ProtoBlock {
                    root: parent_root,
                    slot: 8,
                    state_root: parent_block.message.state_root,
                    execution_status: BlockExecutionStatus::Irrelevant,
                    next_epoch_shuffling_decision_root: parent_root,
                },
            ],
            finalized_checkpoint: Checkpoint { epoch: 0, root: anchor_root },
            attestations: Vec::new(),
            attester_slashings: Vec::new(),
        },
        store,
        observed_block_producers: ObservedBlockProducers::new(),
        observed_slashable: ObservedSlashable::new(),
        validator_pubkey_cache: ValidatorPubkeyCache::new(pubkeys()),
        beacon_proposer_cache: BeaconProposerCache::new(),
        slasher: Some(Slasher::new()),
        pre_finalization_rejected: Vec::new(),
    };
    (chain, parent_block, parent_root, parent_post)
}

/// A block carrying an aggregate attestation passes every stage; the
/// attestation's participants are resolved through the context cache and the
/// attestation registered with fork choice.
#[test]
fn attesting_block_registers_with_fork_choice() {
    let (mut chain, parent_block, parent_root, parent_post) = chain_with_parent_at_8();
    let data = AttestationData {
        slot: 8,
        index: 0,
        beacon_block_root: parent_root,
        source_epoch: 0,
        target_epoch: 0,
    };
    // The committee holds all four validators; everyone attested, so the
    // aggregate key folds all their keys together.
    let aggregate_key = 100 ^ 101 ^ 102 ^ 103;
    let attestation = Attestation::Base(AttestationBase {
        data,
        aggregation_bits: vec![true, true, true, true],
        signature: Signature {
            signer: aggregate_key,
            object_root: compute_attestation_data_root(&data),
            domain: DOMAIN_BEACON_ATTESTER,
            fork_version: 1,
            genesis_validators_root: GENESIS_ROOT,
        },
    });
    let (block, block_root, _post) = produce_block_with(
        &parent_post,
        8,
        parent_block.message.state_root,
        10,
        vec![attestation],
    );

    let gossip = GossipVerifiedBlock::new(block, &mut chain).expect("gossip accepts");
    let sv = SignatureVerifiedBlock::from_gossip_verified_block(gossip, &chain)
        .expect("the aggregate attestation signature holds");
    let parent = sv.parent.expect("parent snapshot travels");
    let ep = ExecutionPendingBlock::from_signature_verified_components(
        sv.block,
        sv.block_root,
        parent,
        sv.consensus_context,
        &mut chain,
        NotifyExecutionLayer::Yes,
    )
    .expect("final stage accepts");
    assert_eq!(ep.import_data.block_root, block_root);
    // The attestation was resolved (and cached) and handed to fork choice.
    assert_eq!(chain.fork_choice.attestations.len(), 1);
    assert_eq!(chain.fork_choice.attestations[0].attesting_indices, vec![0, 1, 2, 3]);
    assert_eq!(ep.import_data.consensus_context.num_cached_indexed_attestations(), 1);
}

/// A block whose aggregate attestation signature is wrong fails the batch.
#[test]
fn bad_attestation_signature_fails_the_batch() {
    let (mut chain, parent_block, parent_root, parent_post) = chain_with_parent_at_8();
    let data = AttestationData {
        slot: 8,
        index: 0,
        beacon_block_root: parent_root,
        source_epoch: 0,
        target_epoch: 0,
    };
    let attestation = Attestation::Base(AttestationBase {
        data,
        aggregation_bits: vec![true, true, true, true],
        signature: Signature {
            signer: 1,  // not the aggregate of the attesting keys
            object_root: compute_attestation_data_root(&data),
            domain: DOMAIN_BEACON_ATTESTER,
            fork_version: 1,
            genesis_validators_root: GENESIS_ROOT,
        },
    });
    let (block, _root, _post) = produce_block_with(
        &parent_post,
        8,
        parent_block.message.state_root,
        10,
        vec![attestation],
    );
    let gossip = GossipVerifiedBlock::new(block, &mut chain)
        .expect("gossip checks only the proposal signature");
    match SignatureVerifiedBlock::from_gossip_verified_block(gossip, &chain) {
        Err(BlockError::InvalidSignature) => {}
        other => panic!("expected an opaque invalid signature, got ok={}", other.is_ok()),
    }
}

/// A block at or below the weak-subjectivity anchor conflicts with it.
#[test]
fn anchor_conflict() {
    let (mut chain, parent_block, _parent_root, parent_post) = chain_with_parent_at_8();
    chain.store.anchor_slot = Some(10);
    let (block, _root, _) =
        produce_block_with(&parent_post, 8, parent_block.message.state_root, 10, Vec::new());
    match GossipVerifiedBlock::new(block, &mut chain) {
        Err(BlockError::WeakSubjectivityConflict) => {}
        other => panic!("expected an anchor conflict, got ok={}", other.is_ok()),
    }
}

/// A proposer index beyond the validator registry is unknown.
#[test]
fn unknown_proposer() {
    let (mut chain, parent_block, _parent_root, parent_post) = chain_with_parent_at_8();
    let (block, _root, _) =
        produce_block_with(&parent_post, 8, parent_block.message.state_root, 10, Vec::new());
    let mut unknown = block;
    unknown.message.proposer_index = 99;
    match GossipVerifiedBlock::new(unknown, &mut chain) {
        Err(BlockError::UnknownValidator(99)) => {}
        other => panic!("expected an unknown validator, got ok={}", other.is_ok()),
    }
}

/// A block whose body carries a payload under a fork without one has the
/// wrong structure for its fork.
#[test]
fn payload_under_preforked_slot_is_inconsistent() {
    let (mut chain, parent_block, _parent_root, parent_post) = chain_with_parent_at_8();
    let (block, _root, _) =
        produce_block_with(&parent_post, 8, parent_block.message.state_root, 10, Vec::new());
    let mut with_payload = block;
    with_payload.message.body.execution_payload =
        Some(ExecutionPayload { parent_hash: 1, block_hash: 2, timestamp: 3 });
    match GossipVerifiedBlock::new(with_payload, &mut chain) {
        Err(BlockError::InconsistentFork { fork_at_slot, object_fork }) => {
            assert_eq!(fork_at_slot, 1);
            // No scheduled fork carries a payload, so none matches the body.
            assert_eq!(object_fork, 0);
        }
        other => panic!("expected a fork inconsistency, got ok={}", other.is_ok()),
    }
}

/// The gossip-time payload gate: the declared timestamp must be the slot's,
/// and the payload must link to the parent's execution block.
#[test]
fn payload_gossip_gate() {
    let spec = test_spec();
    let parent = ProtoBlock {
        root: 1,
        slot: 8,
        state_root: 2,
        execution_status: BlockExecutionStatus::Valid(55),
        next_epoch_shuffling_decision_root: 1,
    };
    let mut block = SignedBlock {
        message: Block {
            slot: 10,
            proposer_index: 0,
            parent_root: 1,
            state_root: 2,
            body: BlockBody {
                randao_reveal: dummy_signature(),
                attestations: Vec::new(),
                attester_slashings: Vec::new(),
                execution_payload: Some(ExecutionPayload {
                    parent_hash: 55,
                    block_hash: 56,
                    timestamp: 1000 + 10 * 12,
                }),
            },
        },
        signature: dummy_signature(),
    };
    assert!(validate_execution_payload_for_gossip(&parent, &block, &spec).is_ok());

    block.message.body.execution_payload.as_mut().unwrap().timestamp = 4;
    match validate_execution_payload_for_gossip(&parent, &block, &spec) {
        Err(BlockError::ExecutionPayloadError(ExecutionPayloadError::InvalidPayloadTimestamp {
            expected,
            found,
        })) => {
            assert_eq!(expected, 1120);
            assert_eq!(found, 4);
        }
        _ => panic!("expected a timestamp rejection"),
    }

    block.message.body.execution_payload.as_mut().unwrap().timestamp = 1120;
    block.message.body.execution_payload.as_mut().unwrap().parent_hash = 99;
    match validate_execution_payload_for_gossip(&parent, &block, &spec) {
        Err(BlockError::ExecutionPayloadError(ExecutionPayloadError::InvalidTerminalPoWBlock {
            parent_hash,
        })) => assert_eq!(parent_hash, 99),
        _ => panic!("expected a linkage rejection"),
    }
}

/// The epoch-to-fork table resolves each epoch to the last activated entry.
#[test]
fn fork_schedule_lookup() {
    let spec = ChainSpec {
        fork_schedule: vec![
            ForkScheduleEntry { epoch: 0, version: 1, has_payload: false },
            ForkScheduleEntry { epoch: 2, version: 2, has_payload: true },
            ForkScheduleEntry { epoch: 5, version: 3, has_payload: true },
        ],
        ..test_spec()
    };
    assert_eq!(spec.fork_at_epoch(0).version, 1);
    assert_eq!(spec.fork_at_epoch(1).version, 1);
    assert_eq!(spec.fork_at_epoch(2).version, 2);
    assert_eq!(spec.fork_at_epoch(4).version, 2);
    assert_eq!(spec.fork_at_epoch(5).version, 3);
    assert_eq!(spec.fork_at_epoch(100).version, 3);
}
