//! End-to-end scenarios: a block produced on a small chain runs through the
//! gossip, signature and execution-pending stages.

use block_verification::chain::{BeaconChain, BeaconProposerCache, Slasher, ValidatorPubkeyCache};
use block_verification::errors::BlockError;
use block_verification::fork_choice::{BlockExecutionStatus, Checkpoint, ForkChoiceView, ProtoBlock};
use block_verification::observation::{ObservedBlockProducers, ObservedSlashable};
use block_verification::pipeline::{ExecutionPendingBlock, GossipVerifiedBlock, NotifyExecutionLayer,
    SignatureVerifiedBlock};
use block_verification::pipeline::signature_verify_chain_segment;
use block_verification::relevancy::{check_block_relevancy, PreProcessingSnapshot, MAXIMUM_BLOCK_SLOT_NUMBER};
use block_verification::roots::{get_block_header_root, get_block_root, signed_block_header};
use block_verification::state::{per_block_processing, per_slot_processing, BeaconState,
    BlockSignatureStrategy, ChainSpec, ForkScheduleEntry};
use block_verification::store::HotColdDB;
use block_verification::types::{Block, BlockBody, BlockHeader, Signature, SignedBlock,
    SignedBlockHeader, DOMAIN_BEACON_PROPOSER, DOMAIN_RANDAO};
use block_verification::context::ConsensusContext;
use block_verification::epoch_of;

const GENESIS_ROOT: u64 = 7;
const N_VALIDATORS: u64 = 4;

fn pubkeys() -> Vec<u64> {
    (0..N_VALIDATORS).map(|i| 100 + i).collect()
}

fn test_spec() -> ChainSpec {
    ChainSpec {
        fork_schedule: vec![ForkScheduleEntry { epoch: 0, version: 1, has_payload: false }],
        genesis_time: 1000,
        seconds_per_slot: 12,
        maximum_gossip_clock_disparity_slots: 1,
        terminal_block_hash: 0,
        terminal_block_hash_activation_epoch: 0,
    }
}

/// A consistent starting state at slot zero, whose latest header already has
/// a (synthetic) state root so per-slot processing will not overwrite it.
fn start_state() -> BeaconState {
    BeaconState {
        slot: 0,
        fork_version: 1,
        genesis_validators_root: GENESIS_ROOT,
        validators: pubkeys(),
        randao_seed: 5,
        proposer_seed: 9,
        latest_block_header: BlockHeader {
            slot: 0,
            proposer_index: 0,
            parent_root: 11,
            state_root: 999,
            body_root: 22,
        },
        state_roots: Vec::new(),
        eth1_data: 3,
        eth1_deposit_index: 1,
        committee_caches_built: true,
    }
}

/// Produces a valid signed block at `slot` on top of `parent_state`, exactly
/// as the pipeline will replay it: per-slot catch-up staging the parent's
/// declared state root first, then per-block processing, then the post-state
/// root is declared in the block and the block signed by its proposer.
/// `parent_slot` and `parent_declared_root` describe the parent block.
/// Returns (signed block, block root, post-state stored under the block's
/// declared state root).
fn produce_block(
    parent_state: &BeaconState,
    parent_slot: u64,
    parent_declared_root: u64,
    slot: u64,
    randao_tweak: u64,
) -> (SignedBlock, u64, BeaconState) {
    let spec = test_spec();
    let mut state = parent_state.duplicate();
    while state.slot < slot {
        let root = if state.slot == parent_slot {
            parent_declared_root
        } else {
            state.canonical_root()
        };
        per_slot_processing(&mut state, Some(root), &spec).unwrap();
    }
    state.build_all_committee_caches().unwrap();
    let proposer = state.get_beacon_proposer_index(slot).unwrap();
    let proposer_key = 100 + proposer;
    let parent_root = {
        let parent_header = SignedBlockHeader {
            message: state.latest_block_header,
            signature: dummy_signature(),
        };
        get_block_header_root(&parent_header)
    };
    let body = BlockBody {
        randao_reveal: Signature {
            signer: proposer_key,
            object_root: epoch_of(slot).wrapping_add(randao_tweak),
            domain: DOMAIN_RANDAO,
            fork_version: state.fork_version,
            genesis_validators_root: GENESIS_ROOT,
        },
        attestations: Vec::new(),
        attester_slashings: Vec::new(),
        execution_payload: None,
    };
    let draft = Block { slot, proposer_index: proposer, parent_root, state_root: 0, body };
    let mut post = state.duplicate();
    let mut ctx = ConsensusContext::new(slot);
    let unsigned = SignedBlock { message: draft, signature: dummy_signature() };
    per_block_processing(&mut post, &unsigned, BlockSignatureStrategy::NoVerification, &mut ctx)
        .unwrap();
    let state_root = post.canonical_root();
    let message = Block { state_root, ..unsigned.message };
    let block_root = get_block_root(&SignedBlock {
        message: message.clone(),
        signature: dummy_signature(),
    });
    let signature = Signature {
        signer: proposer_key,
        object_root: block_root,
        domain: DOMAIN_BEACON_PROPOSER,
        fork_version: state.fork_version,
        genesis_validators_root: GENESIS_ROOT,
    };
    (SignedBlock { message, signature }, block_root, post)
}

fn dummy_signature() -> Signature {
    Signature {
        signer: 0,
        object_root: 0,
        domain: 0,
        fork_version: 0,
        genesis_validators_root: 0,
    }
}

/// A chain whose head is a parent block at slot 8 with its stored post-state,
/// finalized at epoch zero, clock at slot 10.
fn chain_with_parent_at_8() -> (BeaconChain, SignedBlock, u64, BeaconState) {
    let (parent_block, parent_root, parent_post) =
        produce_block(&start_state(), 0, 999, 8, 0);
    let anchor_root = 12345;
    let mut store = HotColdDB::new(None);
    store.put_block(parent_root, signed_block_header(&parent_block));
    store.put_state(parent_block.message.state_root, parent_post.duplicate());
    let fork_choice = ForkChoiceView {
        blocks: vec![
            ProtoBlock {
                root: anchor_root,
                slot: 0,
                state_root: 999,
                execution_status: BlockExecutionStatus::Irrelevant,
                next_epoch_shuffling_decision_root: anchor_root,
            },
            ProtoBlock {
                root: parent_root,
                slot: 8,
                state_root: parent_block.message.state_root,
                execution_status: BlockExecutionStatus::Irrelevant,
                next_epoch_shuffling_decision_root: parent_root,
            },
        ],
        finalized_checkpoint: Checkpoint { epoch: 0, root: anchor_root },
        attestations: Vec::new(),
        attester_slashings: Vec::new(),
    };
    let chain = BeaconChain {
        chain_spec: test_spec(),
        genesis_validators_root: GENESIS_ROOT,
        current_slot: Some(10),
        head_fork_version: 1,
        fork_choice,
        store,
        observed_block_producers: ObservedBlockProducers::new(),
        observed_slashable: ObservedSlashable::new(),
        validator_pubkey_cache: ValidatorPubkeyCache::new(pubkeys()),
        beacon_proposer_cache: BeaconProposerCache::new(),
        slasher: Some(Slasher::new()),
        pre_finalization_rejected: Vec::new(),
    };
    (chain, parent_block, parent_root, parent_post)
}

/// A slot-10 block whose parent is at slot 8 passes every stage; exactly one
/// catch-up step stages the skipped slot 9's state as temporary before the
/// block's own slot is processed.
#[test]
fn skip_slot_block_reaches_execution_pending() {
    let (mut chain, parent_block, parent_root, parent_post) = chain_with_parent_at_8();
    let (block, block_root, _post) =
        produce_block(&parent_post, 8, parent_block.message.state_root, 10, 0);

    let gossip = GossipVerifiedBlock::new(block.clone(), &mut chain).expect("gossip accepts");
    assert_eq!(gossip.block_root(), block_root);

    let signature_verified =
        SignatureVerifiedBlock::from_gossip_verified_block(gossip, &chain).expect("signatures ok");
    assert_eq!(signature_verified.block_root(), block_root);

    let parent = signature_verified.parent.expect("parent snapshot travels");
    let ep = ExecutionPendingBlock::from_signature_verified_components(
        signature_verified.block,
        signature_verified.block_root,
        parent,
        signature_verified.consensus_context,
        &mut chain,
        NotifyExecutionLayer::Yes,
    )
    .expect("reaches the final stage");

    // Exactly one catch-up state was staged: the skipped slot 9.
    assert_eq!(ep.import_data.confirmed_state_roots.len(), 1);
    let staged_root = ep.import_data.confirmed_state_roots[0];
    assert!(chain.store.temp_flags.contains(&staged_root));
    assert_eq!(chain.store.temp_flags.len(), 1);
    // Slot 9 is no epoch boundary: a summary was staged, not a full state.
    assert_eq!(chain.store.summaries.len(), 1);
    assert_eq!(chain.store.summaries[0].state_root, staged_root);
    assert_eq!(chain.store.summaries[0].slot, 9);
    // The post-state matches the block's declaration.
    assert_eq!(ep.import_data.state.canonical_root(), block.message.state_root);
    assert_eq!(ep.import_data.parent_block.message.slot, 8);
    let _ = parent_root;
}

/// A block whose declared state root is corrupted is rejected with a
/// state-root mismatch by the final stage; the same block with the correct
/// root passes (the state-root round trip).
#[test]
fn corrupted_state_root_is_rejected() {
    let (mut chain, parent_block, _parent_root, parent_post) = chain_with_parent_at_8();
    let (block, _block_root, _post) =
        produce_block(&parent_post, 8, parent_block.message.state_root, 10, 0);

    let mut corrupted = block.clone();
    corrupted.message.state_root = corrupted.message.state_root.wrapping_add(1);
    let corrupted_root = get_block_root(&corrupted);

    let parent = PreProcessingSnapshot {
        beacon_block: signed_block_header(&parent_block),
        beacon_block_root: _parent_root,
        pre_state: parent_post.duplicate(),
        beacon_state_root: Some(parent_block.message.state_root),
    };
    let ctx = ConsensusContext::new(10).set_current_block_root(corrupted_root);
    let expected_local = block.message.state_root;
    match ExecutionPendingBlock::from_signature_verified_components(
        corrupted.clone(),
        corrupted_root,
        parent,
        ctx,
        &mut chain,
        NotifyExecutionLayer::Yes,
    ) {
        Err(BlockError::StateRootMismatch { block: declared, local }) => {
            assert_eq!(declared, corrupted.message.state_root);
            assert_eq!(local, expected_local);
        }
        other => panic!("expected a state-root mismatch, got {:?}", other.is_ok()),
    }
}

/// The final stage never re-executes signature verification: a block whose
/// proposer signature is garbage still passes it, signatures having been
/// vouched for by the earlier stage (stage monotonicity).
#[test]
fn final_stage_does_not_recheck_signatures() {
    let (mut chain, parent_block, parent_root, parent_post) = chain_with_parent_at_8();
    let (block, block_root, _post) =
        produce_block(&parent_post, 8, parent_block.message.state_root, 10, 0);
    let mut unsigned = block.clone();
    unsigned.signature = dummy_signature();

    let parent = PreProcessingSnapshot {
        beacon_block: signed_block_header(&parent_block),
        beacon_block_root: parent_root,
        pre_state: parent_post.duplicate(),
        beacon_state_root: Some(parent_block.message.state_root),
    };
    let ctx = ConsensusContext::new(10).set_current_block_root(block_root);
    let ep = ExecutionPendingBlock::from_signature_verified_components(
        unsigned,
        block_root,
        parent,
        ctx,
        &mut chain,
        NotifyExecutionLayer::Yes,
    )
    .expect("signatures are not re-checked in the final stage");
    assert_eq!(ep.import_data.block_root, block_root);
}

/// Two distinct blocks from the same (proposer, slot): the first is accepted,
/// the second rejected as slashable; an exact repeat of the first is already
/// known. Never are both accepted.
#[test]
fn equivocating_proposals_are_caught() {
    let (mut chain, parent_block, _parent_root, parent_post) = chain_with_parent_at_8();
    let (block_a, root_a, _) =
        produce_block(&parent_post, 8, parent_block.message.state_root, 10, 0);
    let (block_b, root_b, _) =
        produce_block(&parent_post, 8, parent_block.message.state_root, 10, 77);
    assert_ne!(root_a, root_b, "distinct bodies give distinct roots");

    GossipVerifiedBlock::new(block_a.clone(), &mut chain).expect("first proposal accepted");
    match GossipVerifiedBlock::new(block_b, &mut chain) {
        Err(BlockError::Slashable) => {}
        other => panic!("expected a slashable equivocation, got ok={}", other.is_ok()),
    }
    match GossipVerifiedBlock::new(block_a, &mut chain) {
        Err(BlockError::BlockIsAlreadyKnown(root)) => assert_eq!(root, root_a),
        other => panic!("expected already-known, got ok={}", other.is_ok()),
    }
}

/// A block at a finalized slot is rejected as reverting finality without any
/// attempt to load its parent state: the store holds no state at all, so a
/// load would have surfaced a different error.
#[test]
fn pre_finalized_block_rejected_without_parent_load() {
    let (mut chain, _parent_block, _parent_root, parent_post) = chain_with_parent_at_8();
    chain.fork_choice.finalized_checkpoint.epoch = 1;  // finalized slot 32
    chain.current_slot = Some(40);
    chain.store.states.clear();  // no parent state could possibly be loaded
    let (block, block_root, _) = produce_block(&start_state(), 0, 999, 5, 0);

    match GossipVerifiedBlock::new(block, &mut chain) {
        Err(BlockError::WouldRevertFinalizedSlot { block_slot, finalized_slot }) => {
            assert_eq!(block_slot, 5);
            assert_eq!(finalized_slot, 32);
        }
        other => panic!("expected finalized-slot rejection, got ok={}", other.is_ok()),
    }
    // The rejection was recorded for bookkeeping.
    assert!(chain.pre_finalization_rejected.contains(&block_root));
}

/// The batch chain-segment path accepts a two-block segment exactly as the
/// single-block path accepts each block, and an invalid signature anywhere
/// fails both paths.
#[test]
fn segment_batch_matches_individual_verification() {
    let (chain, parent_block, _parent_root, parent_post) = chain_with_parent_at_8();
    let (block9, root9, post9) =
        produce_block(&parent_post, 8, parent_block.message.state_root, 9, 0);
    let (block10, root10, _post10) =
        produce_block(&post9, 9, block9.message.state_root, 10, 0);

    let segment = vec![(root9, block9.clone()), (root10, block10.clone())];
    let batch = signature_verify_chain_segment(segment, &chain).expect("batch accepts");
    assert_eq!(batch.len(), 2);
    assert_eq!(batch[0].block_root(), root9);
    assert_eq!(batch[1].block_root(), root10);

    // The single-block path accepts the same blocks.
    SignatureVerifiedBlock::new(block9.clone(), root9, &chain).expect("individual accepts");
    // (block10's parent block9 is not imported on this chain, so only the
    // first block is individually checkable here; the law for the rest is
    // proved, not sampled.)

    // An invalid RANDAO reveal fails the batch and the individual path alike.
    let mut bad9 = block9.clone();
    bad9.message.body.randao_reveal.signer = 1;
    let bad9_root = get_block_root(&bad9);
    let bad_segment = vec![(bad9_root, bad9.clone())];
    match signature_verify_chain_segment(bad_segment, &chain) {
        Err(BlockError::InvalidSignature) => {}
        other => panic!("expected invalid signature, got ok={}", other.is_ok()),
    }
    match SignatureVerifiedBlock::new(bad9, bad9_root, &chain) {
        Err(BlockError::InvalidSignature) => {}
        other => panic!("expected invalid signature, got ok={}", other.is_ok()),
    }
}

/// An incorrect proposer index — signed by the validator it names, so the
/// signature itself holds — is rejected by the proposer-equality check.
#[test]
fn wrong_proposer_is_rejected() {
    let (mut chain, parent_block, _parent_root, parent_post) = chain_with_parent_at_8();
    let (block, _root, _) =
        produce_block(&parent_post, 8, parent_block.message.state_root, 10, 0);
    let wrong_proposer = (block.message.proposer_index + 1) % N_VALIDATORS;
    let mut wrong = block.clone();
    wrong.message.proposer_index = wrong_proposer;
    let wrong_root = get_block_root(&wrong);
    wrong.signature = Signature {
        signer: 100 + wrong_proposer,
        object_root: wrong_root,
        domain: DOMAIN_BEACON_PROPOSER,
        fork_version: 1,
        genesis_validators_root: GENESIS_ROOT,
    };
    match GossipVerifiedBlock::new(wrong, &mut chain) {
        Err(BlockError::IncorrectBlockProposer { block: b, local_shuffling }) => {
            assert_eq!(b, wrong_proposer);
            assert_eq!(local_shuffling, block.message.proposer_index);
        }
        other => panic!("expected incorrect proposer, got ok={}", other.is_ok()),
    }
}

/// A bad proposal signature is rejected, and the slasher receives nothing for
/// it: an invalid signature is never slashable evidence.
#[test]
fn invalid_proposal_signature_not_forwarded_to_slasher() {
    let (mut chain, parent_block, _parent_root, parent_post) = chain_with_parent_at_8();
    let (block, _root, _) =
        produce_block(&parent_post, 8, parent_block.message.state_root, 10, 0);
    let mut bad = block;
    bad.signature.signer = 1;
    match GossipVerifiedBlock::new(bad, &mut chain) {
        Err(BlockError::ProposalSignatureInvalid) => {}
        other => panic!("expected invalid proposal signature, got ok={}", other.is_ok()),
    }
    assert!(chain.slasher.as_ref().unwrap().accepted_headers.is_empty());
}

/// Early structural rejections (unknown parent) carry the header to the
/// slasher only because the header's own signature checks out; the error
/// itself is returned unchanged.
#[test]
fn slashable_evidence_forwarded_on_early_rejection() {
    let (mut chain, parent_block, _parent_root, parent_post) = chain_with_parent_at_8();
    let (block, _root, _) =
        produce_block(&parent_post, 8, parent_block.message.state_root, 10, 0);
    let mut orphan = block.clone();
    orphan.message.parent_root = 4242;  // unknown parent, not in store either
    let orphan_root = get_block_root(&orphan);
    orphan.signature = Signature {
        signer: 100 + orphan.message.proposer_index,
        object_root: orphan_root,
        domain: DOMAIN_BEACON_PROPOSER,
        fork_version: 1,
        genesis_validators_root: GENESIS_ROOT,
    };
    match GossipVerifiedBlock::new(orphan.clone(), &mut chain) {
        Err(BlockError::ParentUnknown { parent_root }) => assert_eq!(parent_root, 4242),
        other => panic!("expected parent unknown, got ok={}", other.is_ok()),
    }
    // The header-only signature check passed, so the header went to the
    // slasher despite the rejection.
    let forwarded = &chain.slasher.as_ref().unwrap().accepted_headers;
    assert_eq!(forwarded.len(), 1);
    assert_eq!(forwarded[0].message.slot, 10);
}

/// The relevancy gate classifies the same (block, root, chain state) the same
/// way twice, and the second rejection changes nothing further.
#[test]
fn relevancy_gate_is_idempotent() {
    let (mut chain, parent_block, _parent_root, parent_post) = chain_with_parent_at_8();
    chain.fork_choice.finalized_checkpoint.epoch = 1;
    chain.current_slot = Some(40);
    let (block, block_root, _) = produce_block(&start_state(), 0, 999, 5, 0);

    let first = check_block_relevancy(&block, block_root, &mut chain);
    let recorded_after_first = chain.pre_finalization_rejected.clone();
    let second = check_block_relevancy(&block, block_root, &mut chain);
    assert_eq!(first, second);
    assert_eq!(chain.pre_finalization_rejected, recorded_after_first);
}

/// A block whose parent exists in durable storage but not in fork choice
/// conflicts with finality; an entirely unknown parent is merely unknown.
#[test]
fn ancestry_classification() {
    let (mut chain, parent_block, parent_root, parent_post) = chain_with_parent_at_8();
    // Remove the parent from fork choice but keep it in the store.
    chain.fork_choice.blocks.retain(|b| b.root != parent_root);
    let (block, _root, _) =
        produce_block(&parent_post, 8, parent_block.message.state_root, 10, 0);
    match GossipVerifiedBlock::new(block, &mut chain) {
        Err(BlockError::NotFinalizedDescendant { block_parent_root }) => {
            assert_eq!(block_parent_root, parent_root)
        }
        other => panic!("expected finality conflict, got ok={}", other.is_ok()),
    }
}

/// Temporal gates: future slots, genesis re-imports and the slot ceiling.
#[test]
fn temporal_gates() {
    let (mut chain, parent_block, _parent_root, parent_post) = chain_with_parent_at_8();

    let (future_block, future_root, _) =
        produce_block(&parent_post, 8, parent_block.message.state_root, 11, 0);
    match check_block_relevancy(&future_block, future_root, &mut chain) {
        Err(BlockError::FutureSlot { present_slot, block_slot }) => {
            assert_eq!(present_slot, 10);
            assert_eq!(block_slot, 11);
        }
        other => panic!("expected future slot, got ok={}", other.is_ok()),
    }

    let mut genesis = future_block.clone();
    genesis.message.slot = 0;
    let genesis_root = get_block_root(&genesis);
    assert_eq!(
        check_block_relevancy(&genesis, genesis_root, &mut chain),
        Err(BlockError::GenesisBlock)
    );

    chain.current_slot = Some(u64::MAX - 2);
    let mut far = future_block;
    far.message.slot = MAXIMUM_BLOCK_SLOT_NUMBER;
    let far_root = get_block_root(&far);
    assert_eq!(
        check_block_relevancy(&far, far_root, &mut chain),
        Err(BlockError::BlockSlotLimitReached)
    );
}

/// A parent with an execution payload the engine rejected poisons all its
/// descendants.
#[test]
fn invalid_parent_payload_rejects_descendants() {
    let (mut chain, parent_block, parent_root, parent_post) = chain_with_parent_at_8();
    for proto in chain.fork_choice.blocks.iter_mut() {
        if proto.root == parent_root {
            proto.execution_status = BlockExecutionStatus::Invalid(555);
        }
    }
    let (block, block_root, _) =
        produce_block(&parent_post, 8, parent_block.message.state_root, 10, 0);
    let parent = PreProcessingSnapshot {
        beacon_block: signed_block_header(&parent_block),
        beacon_block_root: parent_root,
        pre_state: parent_post.duplicate(),
        beacon_state_root: Some(parent_block.message.state_root),
    };
    let ctx = ConsensusContext::new(10).set_current_block_root(block_root);
    match ExecutionPendingBlock::from_signature_verified_components(
        block,
        block_root,
        parent,
        ctx,
        &mut chain,
        NotifyExecutionLayer::Yes,
    ) {
        Err(BlockError::ParentExecutionPayloadInvalid { parent_root: p }) => {
            assert_eq!(p, parent_root)
        }
        other => panic!("expected invalid parent payload, got ok={}", other.is_ok()),
    }
}
