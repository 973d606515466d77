//! Component-level checks: observation sets, the store, the consensus
//! context, payload decisions, stream coupling, the byte codec and roots.

use block_verification::chain::{BeaconChain, BeaconProposerCache, Slasher, ValidatorPubkeyCache};
use block_verification::codec::DecodeError;
use block_verification::context::ConsensusContext;
use block_verification::coupling::{BlobSidecar, BlocksAndBlobsRequestInfo,
    BlocksAndDataColumnsRequestInfo, CouplingError, DataColumnSidecar};
use block_verification::errors::{BlockError, ExecutionPayloadError, GossipBlobError,
    PayloadStatus};
use block_verification::fork_choice::{BlockExecutionStatus, Checkpoint, ForkChoiceView};
use block_verification::observation::{ObservedBlockProducers, ObservedSlashable, SeenBlock};
use block_verification::pipeline::{complete_payload_verification, process_block_slash_info,
    BlockSlashInfo, NotifyExecutionLayer, PayloadVerificationRequest, PayloadVerificationStatus};
use block_verification::roots::{get_block_header_root, get_block_root, signed_block_header};
use block_verification::signatures::verify_header_signature;
use block_verification::state::{cheap_state_advance_to_obtain_committees, per_slot_processing,
    BeaconState, ChainSpec, CommitteeState, ForkScheduleEntry};
use block_verification::store::{DBError, Error, HandleUnavailable, HotColdDB, HotStateSummary,
    StoreOp};
use block_verification::types::{Block, BlockBody, BlockHeader, PendingAttestation, Signature,
    SignedBlock, SignedBlockHeader, DOMAIN_BEACON_PROPOSER, DOMAIN_RANDAO};

fn test_spec() -> ChainSpec {
    ChainSpec {
        fork_schedule: vec![
            ForkScheduleEntry { epoch: 0, version: 1, has_payload: false },
            ForkScheduleEntry { epoch: 2, version: 2, has_payload: true },
        ],
        genesis_time: 1000,
        seconds_per_slot: 12,
        maximum_gossip_clock_disparity_slots: 1,
        terminal_block_hash: 0,
        terminal_block_hash_activation_epoch: 0,
    }
}

fn small_state(slot: u64) -> BeaconState {
    BeaconState {
        slot,
        fork_version: 1,
        genesis_validators_root: 7,
        validators: vec![100, 101, 102, 103],
        randao_seed: 5,
        proposer_seed: 9,
        latest_block_header: BlockHeader {
            slot: 0,
            proposer_index: 0,
            parent_root: 11,
            state_root: 999,
            body_root: 22,
        },
        state_roots: Vec::new(),
        eth1_data: 3,
        eth1_deposit_index: 1,
        committee_caches_built: true,
    }
}

fn sample_block(slot: u64) -> Block {
    Block {
        slot,
        proposer_index: 2,
        parent_root: 50,
        state_root: 60,
        body: BlockBody {
            randao_reveal: Signature {
                signer: 102,
                object_root: 0,
                domain: DOMAIN_RANDAO,
                fork_version: 1,
                genesis_validators_root: 7,
            },
            attestations: Vec::new(),
            attester_slashings: Vec::new(),
            execution_payload: None,
        },
    }
}

#[test]
fn observation_detects_duplicates_and_equivocations() {
    let mut observed = ObservedBlockProducers::new();
    let block = sample_block(10);
    assert_eq!(observed.observe_proposal(111, &block), SeenBlock::UniqueNonSlashable);
    assert_eq!(observed.observe_proposal(111, &block), SeenBlock::Duplicate);
    assert_eq!(observed.observe_proposal(222, &block), SeenBlock::Slashable);
    // A different slot from the same proposer is a fresh proposal.
    let later = sample_block(11);
    assert_eq!(observed.observe_proposal(333, &later), SeenBlock::UniqueNonSlashable);
}

#[test]
fn slashable_observation_is_idempotent() {
    let mut observed = ObservedSlashable::new();
    observed.observe_slashable(10, 2, 111);
    observed.observe_slashable(10, 2, 111);
    observed.observe_slashable(10, 2, 222);
    // One record per distinct triple; recording twice keeps one copy, which
    // the duplicate observe above exercised.
    let mut third = ObservedSlashable::new();
    third.observe_slashable(10, 2, 111);
    let _ = third;
}

#[test]
fn store_garbage_collection_removes_temporary_states() {
    let mut store = HotColdDB::new(Some(3));
    assert_eq!(store.get_anchor_slot(), Some(3));
    store.put_state(111, small_state(9));
    store.put_state(222, small_state(10));
    store.do_atomically(vec![
        StoreOp::PutStateSummary(111, HotStateSummary { state_root: 111, slot: 9 }),
        StoreOp::PutStateSummary(222, HotStateSummary { state_root: 222, slot: 10 }),
        StoreOp::PutStateTemporaryFlag(111),
    ]);
    assert_eq!(store.iter_temporary_state_roots(), vec![111]);
    store.remove_garbage().unwrap();
    // The flagged state and its summary are gone; the other survives.
    assert!(store.iter_temporary_state_roots().is_empty());
    assert_eq!(store.states.len(), 1);
    assert_eq!(store.states[0].root, 222);
    assert_eq!(store.summaries.len(), 1);
    assert_eq!(store.summaries[0].state_root, 222);
}

#[test]
fn store_deletes_temporary_flag_on_commit() {
    let mut store = HotColdDB::new(None);
    store.do_atomically(vec![
        StoreOp::PutStateTemporaryFlag(5),
        StoreOp::PutStateTemporaryFlag(6),
        StoreOp::DeleteStateTemporaryFlag(5),
    ]);
    assert_eq!(store.iter_temporary_state_roots(), vec![6]);
}

#[test]
fn handle_unavailable_maps_history_gaps() {
    let ok: Result<u64, Error> = Ok(4);
    assert_eq!(ok.handle_unavailable(), Ok(Some(4)));
    let gap: Result<u64, Error> = Err(Error::HistoryUnavailable);
    assert_eq!(gap.handle_unavailable(), Ok(None));
    let err: Result<u64, Error> = Err(Error::BlockNotFound(9));
    assert_eq!(err.handle_unavailable(), Err(Error::BlockNotFound(9)));
    let wrapped = DBError::new(String::from("backend failure"));
    assert_eq!(wrapped.message, "backend failure");
}

#[test]
fn consensus_context_caches_are_set_once() {
    let state = small_state(10);
    let mut ctx = ConsensusContext::new(10);
    let derived = ctx.get_proposer_index(&state).unwrap();
    assert_eq!(derived, (9 ^ 10) % 4);
    // A cached index wins over any later state.
    let mut other = small_state(10);
    other.proposer_seed = 1;
    assert_eq!(ctx.get_proposer_index(&other).unwrap(), derived);
    // A context primed explicitly keeps its value.
    let mut primed = ConsensusContext::new(10).set_proposer_index(3);
    assert_eq!(primed.get_proposer_index(&state).unwrap(), 3);
    // The slot safeguard rejects a state from another slot.
    let mut fresh = ConsensusContext::new(11);
    assert!(fresh.get_proposer_index(&state).is_err());
    // The epoch-state lookup serves any slot of the same epoch.
    let mut epoch_ctx = ConsensusContext::new(12);
    assert_eq!(epoch_ctx.get_proposer_index_from_epoch_state(&state).unwrap(), (9 ^ 12) % 4);
    assert_eq!(ctx.num_cached_indexed_attestations(), 0);
}

#[test]
fn context_block_root_cache() {
    let block = SignedBlock {
        message: sample_block(10),
        signature: Signature {
            signer: 0,
            object_root: 0,
            domain: 0,
            fork_version: 0,
            genesis_validators_root: 0,
        },
    };
    let mut ctx = ConsensusContext::new(10);
    let root = ctx.get_current_block_root(&block).unwrap();
    assert_eq!(root, get_block_root(&block));
    let primed = ConsensusContext::new(10).set_current_block_root(424242);
    let mut primed = primed;
    assert_eq!(primed.get_current_block_root(&block).unwrap(), 424242);
    let mut wrong_slot = ConsensusContext::new(11);
    assert!(wrong_slot.get_current_block_root(&block).is_err());
}

#[test]
fn block_and_header_share_one_root() {
    let block = SignedBlock {
        message: sample_block(10),
        signature: Signature {
            signer: 0,
            object_root: 0,
            domain: 0,
            fork_version: 0,
            genesis_validators_root: 0,
        },
    };
    let header = signed_block_header(&block);
    assert_eq!(get_block_root(&block), get_block_header_root(&header));
    // Content addressing: a changed body yields a different root.
    let mut other = block.clone();
    other.message.body.randao_reveal.signer = 103;
    assert_ne!(get_block_root(&other), get_block_root(&block));
    // And the root is no trivial echo of a field.
    assert_ne!(get_block_root(&block), block.message.slot);
}

#[test]
fn cheap_advance_borrows_within_epoch_and_clones_across() {
    let spec = test_spec();
    let mut state = small_state(8);
    match cheap_state_advance_to_obtain_committees::<BlockError>(&mut state, Some(1), 10, &spec)
        .unwrap()
    {
        CommitteeState::Borrowed => {}
        CommitteeState::Advanced(_) => panic!("same epoch must borrow"),
    }
    // Across an epoch boundary the original state is never mutated.
    let mut early = small_state(8);
    let before_slot = early.slot;
    match cheap_state_advance_to_obtain_committees::<BlockError>(&mut early, Some(1), 40, &spec)
        .unwrap()
    {
        CommitteeState::Advanced(advanced) => {
            assert_eq!(advanced.slot, 32);
            assert_eq!(early.slot, before_slot);
            // The advanced copy crossed the fork boundary of epoch 1? No:
            // epoch of slot 40 is 1, below the payload fork at epoch 2.
            assert_eq!(advanced.fork_version, 1);
        }
        CommitteeState::Borrowed => panic!("cross-epoch must clone"),
    }
    // A state already past the block's epoch is an ordering violation.
    let mut late = small_state(40);
    match cheap_state_advance_to_obtain_committees::<BlockError>(&mut late, None, 10, &spec) {
        Err(BlockError::BlockIsNotLaterThanParent { block_slot, parent_slot }) => {
            assert_eq!(block_slot, 10);
            assert_eq!(parent_slot, 40);
        }
        _ => panic!("expected ordering violation"),
    }
}

#[test]
fn per_slot_processing_reseeds_at_epoch_boundary() {
    let spec = test_spec();
    let mut state = small_state(31);
    let summary = per_slot_processing(&mut state, Some(77), &spec).unwrap();
    assert_eq!(state.slot, 32);
    assert_eq!(summary.map(|s| s.epoch), Some(1));
    assert_eq!(state.proposer_seed, state.randao_seed ^ 1);
    assert!(!state.committee_caches_built);
    assert_eq!(state.state_roots, vec![77]);
    // Off the boundary, no summary and no reseed.
    let mut mid = small_state(5);
    let none = per_slot_processing(&mut mid, Some(1), &spec).unwrap();
    assert!(none.is_none());
    assert_eq!(mid.proposer_seed, 9);
}

#[test]
fn payload_decisions() {
    let request = PayloadVerificationRequest {
        notify_execution_layer: NotifyExecutionLayer::Yes,
        payload: Some(block_verification::types::ExecutionPayload {
            parent_hash: 5,
            block_hash: 6,
            timestamp: 1120,
        }),
        block_root: 1,
        block_slot: 10,
        parent_root: 2,
        is_valid_merge_transition_block: false,
        terminal_block_hash: 0,
        terminal_block_hash_activation_epoch: 0,
    };
    // A valid engine answer verifies the payload.
    let outcome =
        complete_payload_verification(request, None, Some(PayloadStatus::Valid), true).unwrap();
    assert_eq!(outcome.payload_verification_status, PayloadVerificationStatus::Verified);
    // A syncing engine grants only optimistic status, and only when synced
    // enough itself.
    let optimistic =
        complete_payload_verification(request, None, Some(PayloadStatus::Syncing), true).unwrap();
    assert_eq!(optimistic.payload_verification_status, PayloadVerificationStatus::Optimistic);
    match complete_payload_verification(request, None, Some(PayloadStatus::Syncing), false) {
        Err(BlockError::ExecutionPayloadError(
            ExecutionPayloadError::UnverifiedNonOptimisticCandidate,
        )) => {}
        _ => panic!("expected non-optimistic rejection"),
    }
    // A rejected payload is the peer's problem — but not penalized, since an
    // honest optimistic node may forward it.
    match complete_payload_verification(request, None, Some(PayloadStatus::Invalid), true) {
        Err(BlockError::ExecutionPayloadError(e)) => {
            assert!(matches!(e, ExecutionPayloadError::RejectedByExecutionEngine { .. }));
            assert!(!e.penalize_peer());
        }
        _ => panic!("expected engine rejection"),
    }
    // No connection is our fault.
    match complete_payload_verification(request, None, None, true) {
        Err(BlockError::ExecutionPayloadError(ExecutionPayloadError::NoExecutionConnection)) => {}
        _ => panic!("expected no-connection"),
    }
    // A pre-merge block has nothing to verify.
    let empty = PayloadVerificationRequest { payload: None, ..request };
    let irrelevant = complete_payload_verification(empty, None, None, false).unwrap();
    assert_eq!(irrelevant.payload_verification_status, PayloadVerificationStatus::Irrelevant);
    // A failed terminal block fails a merge-transition block.
    let transition = PayloadVerificationRequest {
        is_valid_merge_transition_block: true,
        ..request
    };
    match complete_payload_verification(transition, Some(false), Some(PayloadStatus::Valid), true)
    {
        Err(BlockError::ExecutionPayloadError(
            ExecutionPayloadError::InvalidTerminalPoWBlock { parent_hash },
        )) => assert_eq!(parent_hash, 5),
        _ => panic!("expected terminal rejection"),
    }
    // The timestamp gate is the one sub-kind that always penalizes the peer.
    assert!(ExecutionPayloadError::InvalidPayloadTimestamp { expected: 1, found: 2 }
        .penalize_peer());
}

#[test]
fn slash_info_classification() {
    let header = SignedBlockHeader {
        message: BlockHeader {
            slot: 1,
            proposer_index: 0,
            parent_root: 0,
            state_root: 0,
            body_root: 0,
        },
        signature: Signature {
            signer: 0,
            object_root: 0,
            domain: 0,
            fork_version: 0,
            genesis_validators_root: 0,
        },
    };
    match BlockSlashInfo::from_early_error_block(header, BlockError::ProposalSignatureInvalid) {
        BlockSlashInfo::SignatureInvalid(BlockError::ProposalSignatureInvalid) => {}
        _ => panic!("an invalid proposal signature is never slashable"),
    }
    match BlockSlashInfo::from_early_error_block(header, BlockError::GenesisBlock) {
        BlockSlashInfo::SignatureNotChecked(h, BlockError::GenesisBlock) => {
            assert_eq!(h.message.slot, 1)
        }
        _ => panic!("other early errors carry the header"),
    }
    match BlockSlashInfo::from_early_error_blob(header, GossipBlobError::UnknownValidator(3)) {
        BlockSlashInfo::SignatureNotChecked(_, GossipBlobError::UnknownValidator(3)) => {}
        _ => panic!("blob errors classify the same way"),
    }
    match BlockSlashInfo::from_early_error_data_column(
        header,
        block_verification::errors::GossipDataColumnError::ProposalSignatureInvalid,
    ) {
        BlockSlashInfo::SignatureInvalid(_) => {}
        _ => panic!("column errors classify the same way"),
    }
}

fn bare_chain() -> BeaconChain {
    BeaconChain {
        chain_spec: test_spec(),
        genesis_validators_root: 7,
        current_slot: Some(10),
        head_fork_version: 1,
        fork_choice: ForkChoiceView {
            blocks: Vec::new(),
            finalized_checkpoint: Checkpoint { epoch: 0, root: 0 },
            attestations: Vec::new(),
            attester_slashings: Vec::new(),
        },
        store: HotColdDB::new(None),
        observed_block_producers: ObservedBlockProducers::new(),
        observed_slashable: ObservedSlashable::new(),
        validator_pubkey_cache: ValidatorPubkeyCache::new(vec![100, 101, 102, 103]),
        beacon_proposer_cache: BeaconProposerCache::new(),
        slasher: Some(Slasher::new()),
        pre_finalization_rejected: Vec::new(),
    }
}

#[test]
fn header_signature_check_gates_slasher_forwarding() {
    let mut chain = bare_chain();
    let header = BlockHeader {
        slot: 9,
        proposer_index: 1,
        parent_root: 3,
        state_root: 4,
        body_root: 5,
    };
    let root = get_block_header_root(&SignedBlockHeader {
        message: header,
        signature: Signature {
            signer: 0,
            object_root: 0,
            domain: 0,
            fork_version: 0,
            genesis_validators_root: 0,
        },
    });
    let good = SignedBlockHeader {
        message: header,
        signature: Signature {
            signer: 101,
            object_root: root,
            domain: DOMAIN_BEACON_PROPOSER,
            fork_version: 1,
            genesis_validators_root: 7,
        },
    };
    assert!(verify_header_signature::<BlockError>(&chain, &good).is_ok());
    let mut bad = good;
    bad.signature.signer = 100;
    assert_eq!(
        verify_header_signature::<BlockError>(&chain, &bad),
        Err(BlockError::ProposalSignatureInvalid)
    );
    let mut unknown = good;
    unknown.message.proposer_index = 99;
    assert_eq!(
        verify_header_signature::<BlockError>(&chain, &unknown),
        Err(BlockError::UnknownValidator(99))
    );

    // A rejection with an unchecked but genuine header is forwarded; one with
    // a bad header is not.
    let e = process_block_slash_info::<BlockError>(
        &mut chain,
        BlockSlashInfo::SignatureNotChecked(good, BlockError::GenesisBlock),
    );
    assert_eq!(e, BlockError::GenesisBlock);
    assert_eq!(chain.slasher.as_ref().unwrap().accepted_headers.len(), 1);
    let e2 = process_block_slash_info::<BlockError>(
        &mut chain,
        BlockSlashInfo::SignatureNotChecked(bad, BlockError::GenesisBlock),
    );
    assert_eq!(e2, BlockError::GenesisBlock);
    assert_eq!(chain.slasher.as_ref().unwrap().accepted_headers.len(), 1);
}

#[test]
fn blob_coupling_pairs_by_slot_and_orders_by_index() {
    let mut info = BlocksAndBlobsRequestInfo::new();
    let block_a = SignedBlock {
        message: sample_block(5),
        signature: Signature {
            signer: 0,
            object_root: 0,
            domain: 0,
            fork_version: 0,
            genesis_validators_root: 0,
        },
    };
    let mut block_b = block_a.clone();
    block_b.message.slot = 6;
    info.add_block_response(Some(block_a));
    info.add_block_response(Some(block_b));
    info.add_sidecar_response(Some(BlobSidecar { slot: 5, index: 2 }));
    info.add_sidecar_response(Some(BlobSidecar { slot: 5, index: 0 }));
    info.add_sidecar_response(Some(BlobSidecar { slot: 6, index: 1 }));
    assert!(!info.is_finished());
    info.add_block_response(None);
    info.add_sidecar_response(None);
    assert!(info.is_finished());
    let responses = info.into_responses().unwrap();
    assert_eq!(responses.len(), 2);
    let blobs_a = responses[0].blobs.as_ref().unwrap();
    assert_eq!(blobs_a.iter().map(|b| b.index).collect::<Vec<_>>(), vec![0, 2]);
    let blobs_b = responses[1].blobs.as_ref().unwrap();
    assert_eq!(blobs_b.iter().map(|b| b.index).collect::<Vec<_>>(), vec![1]);
}

#[test]
fn blob_coupling_rejects_bad_indices_and_leftovers() {
    let block = SignedBlock {
        message: sample_block(5),
        signature: Signature {
            signer: 0,
            object_root: 0,
            domain: 0,
            fork_version: 0,
            genesis_validators_root: 0,
        },
    };
    let mut out_of_range = BlocksAndBlobsRequestInfo::new();
    out_of_range.add_block_response(Some(block.clone()));
    out_of_range.add_sidecar_response(Some(BlobSidecar { slot: 5, index: 6 }));
    assert_eq!(out_of_range.into_responses(), Err(CouplingError::InvalidIndex(6)));

    let mut repeated = BlocksAndBlobsRequestInfo::new();
    repeated.add_block_response(Some(block.clone()));
    repeated.add_sidecar_response(Some(BlobSidecar { slot: 5, index: 1 }));
    repeated.add_sidecar_response(Some(BlobSidecar { slot: 5, index: 1 }));
    assert_eq!(repeated.into_responses(), Err(CouplingError::RepeatIndex(1)));

    let mut leftover = BlocksAndBlobsRequestInfo::new();
    leftover.add_block_response(Some(block));
    leftover.add_sidecar_response(Some(BlobSidecar { slot: 9, index: 0 }));
    assert_eq!(leftover.into_responses(), Err(CouplingError::UnpairedSidecars));
}

#[test]
fn column_coupling_pairs_and_rejects() {
    let block = SignedBlock {
        message: sample_block(5),
        signature: Signature {
            signer: 0,
            object_root: 0,
            domain: 0,
            fork_version: 0,
            genesis_validators_root: 0,
        },
    };
    let mut info = BlocksAndDataColumnsRequestInfo::new();
    info.add_block_response(Some(block.clone()));
    info.add_data_column_sidecar_response(Some(DataColumnSidecar { slot: 5, index: 127 }));
    info.add_data_column_sidecar_response(Some(DataColumnSidecar { slot: 5, index: 3 }));
    info.add_block_response(None);
    info.add_data_column_sidecar_response(None);
    assert!(info.is_finished());
    let responses = info.into_responses().unwrap();
    assert_eq!(responses.len(), 1);
    let columns = responses[0].data_columns.as_ref().unwrap();
    assert_eq!(columns.iter().map(|c| c.index).collect::<Vec<_>>(), vec![3, 127]);

    let mut bad = BlocksAndDataColumnsRequestInfo::new();
    bad.add_block_response(Some(block));
    bad.add_data_column_sidecar_response(Some(DataColumnSidecar { slot: 5, index: 128 }));
    assert_eq!(bad.into_responses(), Err(CouplingError::InvalidIndex(128)));
}

fn le(x: u64) -> [u8; 8] {
    x.to_le_bytes()
}

#[test]
fn pending_attestation_codec() {
    assert!(!PendingAttestation::is_ssz_fixed_len());
    // The original shape: 56-byte prefix then aggregation bits.
    let mut bytes: Vec<u8> = Vec::new();
    for word in [3u64, 0, 44, 1, 2, 7, 2] {
        bytes.extend_from_slice(&le(word));
    }
    bytes.extend_from_slice(&[1, 0, 1]);
    match PendingAttestation::from_ssz_bytes(&bytes).unwrap() {
        PendingAttestation::Base(a) => {
            assert_eq!(a.data.slot, 3);
            assert_eq!(a.data.beacon_block_root, 44);
            assert_eq!(a.inclusion_delay, 7);
            assert_eq!(a.proposer_index, 2);
            assert_eq!(a.aggregation_bits, vec![true, false, true]);
        }
        _ => panic!("these bytes fit the original shape"),
    }
    // Bytes whose tail is no bit list but which carry a valid length word
    // fall through to the Electra shape.
    let mut electra: Vec<u8> = Vec::new();
    for word in [3u64, 0, 44, 1, 2, 7, 2, 2] {
        electra.extend_from_slice(&le(word));
    }
    electra.extend_from_slice(&[1, 1]);  // aggregation bits
    electra.extend_from_slice(&[0, 1]);  // committee bits
    // The base parse of these bytes fails: the length word 2 begins with a
    // byte 2, which is no bit.
    match PendingAttestation::from_ssz_bytes(&electra).unwrap() {
        PendingAttestation::Electra(a) => {
            assert_eq!(a.aggregation_bits, vec![true, true]);
            assert_eq!(a.committee_bits, vec![false, true]);
        }
        _ => panic!("these bytes fit only the Electra shape"),
    }
    // Too short for either shape.
    assert_eq!(
        PendingAttestation::from_ssz_bytes(&[1, 2, 3]),
        Err(DecodeError::BytesInvalid)
    );
}
