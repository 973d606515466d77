//! The model beacon state and its transition functions: per-slot advancement,
//! per-block processing, partial advancement for committee derivation, and the
//! cheap copy-on-write advance used by the verification pipeline.
//!
//! Contracts speak about `StateModel`, the mathematical view of a state; the
//! executable `BeaconState` carries the same fields with `Vec` storage.

use vstd::prelude::*;
use crate::context::{ConsensusContext, ContextError};
use crate::errors::{BeaconStateError, BlockBlobError, BlockProcessingError};
use crate::roots::{body_root_of, compute_block_header, digest_of, digest_of_words, header_words,
    header_root_of, get_block_header_root};
use crate::types::{Block, BlockHeader, SignedBlock, SignedBlockHeader, DOMAIN_BEACON_PROPOSER,
    DOMAIN_RANDAO};
use crate::{epoch_of, spec_epoch_of, SLOTS_PER_EPOCH};

verus! {

/// One fork of the schedule: active from `epoch` on, under `version`, and
/// carrying an execution payload in each block or not.
#[derive(Clone, Copy, Debug, PartialEq, Eq, Structural)]
pub struct ForkScheduleEntry {
    pub epoch: u64,
    pub version: u64,
    pub has_payload: bool,
}

/// Chain-wide configuration.
#[derive(Clone, Debug, PartialEq, Eq)]
pub struct ChainSpec {
    /// Epoch-to-fork mapping: a table sorted by strictly increasing
    /// activation epoch, starting at epoch zero.
    pub fork_schedule: Vec<ForkScheduleEntry>,
    /// Unix time of slot zero.
    pub genesis_time: u64,
    pub seconds_per_slot: u64,
    /// How many slots of clock disparity gossip tolerates.
    pub maximum_gossip_clock_disparity_slots: u64,
    /// Terminal execution-block hash for the merge transition; zero if unset.
    pub terminal_block_hash: u64,
    pub terminal_block_hash_activation_epoch: u64,
}

/// The schedule entry governing `epoch`: the last whose activation epoch is
/// not beyond it.
pub open spec fn spec_fork_entry_at(entries: Seq<ForkScheduleEntry>, epoch: u64) -> ForkScheduleEntry
    decreases entries.len(),
{
    if entries.len() == 0 {
        ForkScheduleEntry { epoch: 0, version: 0, has_payload: false }
    } else if entries.last().epoch <= epoch {
        entries.last()
    } else {
        spec_fork_entry_at(entries.drop_last(), epoch)
    }
}

impl ChainSpec {
    /// Well-formedness: a non-empty schedule that starts at epoch zero with
    /// strictly increasing activation epochs, and a sane slot duration.
    pub open spec fn wf(self) -> bool {
        &&& self.fork_schedule@.len() >= 1
        &&& self.fork_schedule@.first().epoch == 0
        &&& forall|i: int, j: int|
            0 <= i < j < self.fork_schedule@.len() ==> self.fork_schedule@[i].epoch
                < self.fork_schedule@[j].epoch
        &&& self.seconds_per_slot >= 1
        &&& self.genesis_time + self.seconds_per_slot * 0x1_0000_0000 <= u64::MAX
    }

    /// The schedule entry governing `epoch`.
    pub open spec fn spec_fork_at_epoch(self, epoch: u64) -> ForkScheduleEntry {
        spec_fork_entry_at(self.fork_schedule@, epoch)
    }

    /// Resolves the fork governing `epoch` from the schedule.
    pub fn fork_at_epoch(&self, epoch: u64) -> (r: ForkScheduleEntry)
        requires
            self.wf(),
        ensures
            r == self.spec_fork_at_epoch(epoch),
    {
        let n = self.fork_schedule.len();
        assert(self.fork_schedule@.take(n as int) =~= self.fork_schedule@);
        let mut i: usize = n;
        while i > 1
            invariant
                1 <= i <= n,
                n == self.fork_schedule@.len(),
                self.wf(),
                spec_fork_entry_at(self.fork_schedule@, epoch) == spec_fork_entry_at(
                    self.fork_schedule@.take(i as int),
                    epoch,
                ),
            decreases i,
        {
            let ghost pre = self.fork_schedule@.take(i as int);
            assert(pre.last() == self.fork_schedule@[i - 1]);
            if self.fork_schedule[i - 1].epoch <= epoch {
                return self.fork_schedule[i - 1];
            }
            proof {
                assert(pre.drop_last() =~= self.fork_schedule@.take(i - 1));
            }
            i = i - 1;
        }
        assert(self.fork_schedule@.take(1).last() == self.fork_schedule@[0]);
        self.fork_schedule[0]
    }
}

/// Marker returned by per-slot processing when an epoch boundary was crossed.
#[derive(Clone, Copy, Debug, PartialEq, Eq, Structural)]
pub struct EpochSummary {
    pub epoch: u64,
}

/// Whether per-block processing re-verifies the block's signatures.
#[derive(Clone, Copy, Debug, PartialEq, Eq, Structural)]
pub enum BlockSignatureStrategy {
    /// Verify the proposal and RANDAO signatures inline.
    VerifyAll,
    /// Signatures were already verified upstream; skip them.
    NoVerification,
}

/// Mathematical view of a beacon state.
pub struct StateModel {
    pub slot: u64,
    pub fork_version: u64,
    pub genesis_validators_root: u64,
    pub validators: Seq<u64>,
    pub randao_seed: u64,
    pub proposer_seed: u64,
    pub latest_block_header: BlockHeader,
    pub state_roots: Seq<u64>,
    pub eth1_data: u64,
    pub eth1_deposit_index: u64,
    pub committee_caches_built: bool,
}

/// The model beacon state.
#[derive(Clone, Debug, PartialEq, Eq)]
pub struct BeaconState {
    pub slot: u64,
    pub fork_version: u64,
    pub genesis_validators_root: u64,
    /// Public key of each validator, by index.
    pub validators: Vec<u64>,
    /// RANDAO accumulator, mixed per block.
    pub randao_seed: u64,
    /// Shuffling seed, fixed for a whole epoch at its boundary.
    pub proposer_seed: u64,
    pub latest_block_header: BlockHeader,
    /// Roots of the states of past slots, appended by per-slot processing.
    pub state_roots: Vec<u64>,
    pub eth1_data: u64,
    pub eth1_deposit_index: u64,
    /// Whether the committee caches for the current epoch are built. A cache,
    /// not part of the state's identity: excluded from its canonical root.
    pub committee_caches_built: bool,
}

impl View for BeaconState {
    type V = StateModel;

    open spec fn view(&self) -> StateModel {
        StateModel {
            slot: self.slot,
            fork_version: self.fork_version,
            genesis_validators_root: self.genesis_validators_root,
            validators: self.validators@,
            randao_seed: self.randao_seed,
            proposer_seed: self.proposer_seed,
            latest_block_header: self.latest_block_header,
            state_roots: self.state_roots@,
            eth1_data: self.eth1_data,
            eth1_deposit_index: self.eth1_deposit_index,
            committee_caches_built: self.committee_caches_built,
        }
    }
}

/// Canonical word encoding of a state; the cache flag is not part of it.
pub open spec fn state_words(s: StateModel) -> Seq<u64> {
    seq![s.slot, s.fork_version, s.genesis_validators_root, s.validators.len() as u64]
        + s.validators + seq![s.randao_seed, s.proposer_seed] + header_words(s.latest_block_header)
        + seq![s.state_roots.len() as u64] + s.state_roots + seq![
        s.eth1_data,
        s.eth1_deposit_index,
    ]
}

/// Root of a state.
pub open spec fn state_root_of(s: StateModel) -> u64 {
    digest_of(state_words(s))
}

impl StateModel {
    /// The epoch the state is in.
    pub open spec fn current_epoch(self) -> u64 {
        spec_epoch_of(self.slot)
    }

    /// The state with its committee caches built, otherwise unchanged.
    pub open spec fn with_caches(self) -> StateModel {
        StateModel { committee_caches_built: true, ..self }
    }

    /// The proposer assigned to `slot` by this state's shuffling seed, if the
    /// caches are built and the registry is non-empty.
    pub open spec fn proposer_at(self, slot: u64) -> Option<u64> {
        if self.committee_caches_built && self.validators.len() > 0 {
            Some((self.proposer_seed ^ slot) % (self.validators.len() as u64))
        } else {
            None
        }
    }

    /// The error a failed proposer lookup reports.
    pub open spec fn proposer_lookup_error(self) -> BeaconStateError {
        if !self.committee_caches_built {
            BeaconStateError::CommitteeCacheUninitialized
        } else {
            BeaconStateError::UnknownValidator(0)
        }
    }

    /// The proposers of every slot of the state's current epoch, in slot
    /// order, when derivable.
    pub open spec fn epoch_proposers(self) -> Option<Seq<u64>> {
        if self.committee_caches_built && self.validators.len() > 0 {
            Some(
                Seq::new(
                    SLOTS_PER_EPOCH as nat,
                    |i: int|
                        (self.proposer_seed ^ (self.current_epoch() * SLOTS_PER_EPOCH + i) as u64)
                            % (self.validators.len() as u64),
                ),
            )
        } else {
            None
        }
    }

    /// The error a failed committee lookup reports.
    pub open spec fn committee_lookup_error(self, index: u64) -> BeaconStateError {
        if !self.committee_caches_built {
            BeaconStateError::CommitteeCacheUninitialized
        } else if self.validators.len() == 0 {
            BeaconStateError::UnknownValidator(0)
        } else {
            BeaconStateError::NoCommitteeFound(index)
        }
    }

    /// The committee serving (`slot`, `index`): in this model one committee
    /// per slot, holding every validator index.
    pub open spec fn committee_at(self, slot: u64, index: u64) -> Option<Seq<u64>> {
        if self.committee_caches_built && self.validators.len() > 0 && index == 0 {
            Some(Seq::new(self.validators.len(), |i: int| i as u64))
        } else {
            None
        }
    }
}

impl BeaconState {
    /// The epoch the state is in.
    pub fn current_epoch(&self) -> (r: u64)
        ensures
            r == self@.current_epoch(),
    {
        epoch_of(self.slot)
    }

    /// Derives the proposer for `slot` from the shuffling seed. Requires the
    /// committee caches and a non-empty registry.
    pub fn get_beacon_proposer_index(&self, slot: u64) -> (r: Result<u64, BeaconStateError>)
        ensures
            match r {
                Ok(p) => self@.proposer_at(slot) == Some(p),
                Err(e) => self@.proposer_at(slot) is None && e == self@.proposer_lookup_error(),
            },
    {
        if !self.committee_caches_built {
            return Err(BeaconStateError::CommitteeCacheUninitialized);
        }
        let n = self.validators.len() as u64;
        if n == 0 {
            return Err(BeaconStateError::UnknownValidator(0));
        }
        Ok((self.proposer_seed ^ slot) % n)
    }

    /// Derives the proposer of every slot of the state's current epoch.
    pub fn get_beacon_proposer_indices(&self) -> (r: Result<Vec<u64>, BeaconStateError>)
        ensures
            match r {
                Ok(ps) => self@.epoch_proposers() == Some(ps@) && ps@.len() == SLOTS_PER_EPOCH,
                Err(e) => self@.epoch_proposers() is None && e == self@.proposer_lookup_error(),
            },
    {
        if !self.committee_caches_built {
            return Err(BeaconStateError::CommitteeCacheUninitialized);
        }
        let n = self.validators.len() as u64;
        if n == 0 {
            return Err(BeaconStateError::UnknownValidator(0));
        }
        let epoch = self.current_epoch();
        assert(epoch * SLOTS_PER_EPOCH + SLOTS_PER_EPOCH - 1 <= u64::MAX) by (nonlinear_arith)
            requires
                epoch == self.slot / SLOTS_PER_EPOCH,
                SLOTS_PER_EPOCH == 32,
        ;
        let start = epoch * SLOTS_PER_EPOCH;
        let mut proposers: Vec<u64> = Vec::new();
        let ghost expected = self@.epoch_proposers().unwrap();
        let slots = SLOTS_PER_EPOCH as usize;
        for i in 0..slots
            invariant
                slots == SLOTS_PER_EPOCH,
                n == self.validators@.len(),
                n > 0,
                self.committee_caches_built,
                start == self@.current_epoch() * SLOTS_PER_EPOCH,
                start + SLOTS_PER_EPOCH - 1 <= u64::MAX,
                expected == self@.epoch_proposers().unwrap(),
                proposers@ =~= expected.take(i as int),
        {
            let slot = start + i as u64;
            proposers.push((self.proposer_seed ^ slot) % n);
            assert(proposers@ =~= expected.take(i + 1));
        }
        assert(expected.take(SLOTS_PER_EPOCH as int) =~= expected);
        Ok(proposers)
    }

    /// The committee of validator indices serving (`slot`, `index`).
    pub fn get_beacon_committee(&self, slot: u64, index: u64) -> (r: Result<
        Vec<u64>,
        BeaconStateError,
    >)
        ensures
            match r {
                Ok(c) => self@.committee_at(slot, index) == Some(c@),
                Err(e) => self@.committee_at(slot, index) is None && e
                    == self@.committee_lookup_error(index),
            },
    {
        if !self.committee_caches_built {
            return Err(BeaconStateError::CommitteeCacheUninitialized);
        }
        if self.validators.len() == 0 {
            return Err(BeaconStateError::UnknownValidator(0));
        }
        if index != 0 {
            return Err(BeaconStateError::NoCommitteeFound(index));
        }
        let n = self.validators.len();
        let mut committee: Vec<u64> = Vec::new();
        let ghost expected = Seq::new(self.validators@.len(), |i: int| i as u64);
        for i in 0..n
            invariant
                n == self.validators@.len(),
                expected == Seq::new(self.validators@.len(), |j: int| j as u64),
                committee@ =~= expected.take(i as int),
        {
            committee.push(i as u64);
            assert(committee@ =~= expected.take(i + 1));
        }
        assert(expected.take(n as int) =~= expected);
        Ok(committee)
    }

    /// Builds the committee caches for the current (and previous) epoch.
    pub fn build_all_committee_caches(&mut self) -> (r: Result<(), BeaconStateError>)
        ensures
            r is Ok,
            final(self)@ == old(self)@.with_caches(),
    {
        self.committee_caches_built = true;
        Ok(())
    }

    /// True when every cache the transition needs is built.
    pub fn all_caches_built(&self) -> (r: bool)
        ensures
            r == self@.committee_caches_built,
    {
        self.committee_caches_built
    }

    /// An exact copy (the derived clone carries no specification).
    pub fn duplicate(&self) -> (r: BeaconState)
        ensures
            r@ == self@,
    {
        let mut validators: Vec<u64> = Vec::new();
        let n = self.validators.len();
        for i in 0..n
            invariant
                n == self.validators@.len(),
                validators@ =~= self.validators@.take(i as int),
        {
            validators.push(self.validators[i]);
            assert(validators@ =~= self.validators@.take(i + 1));
        }
        assert(validators@ =~= self.validators@);
        let mut state_roots: Vec<u64> = Vec::new();
        let m = self.state_roots.len();
        for i in 0..m
            invariant
                m == self.state_roots@.len(),
                state_roots@ =~= self.state_roots@.take(i as int),
        {
            state_roots.push(self.state_roots[i]);
            assert(state_roots@ =~= self.state_roots@.take(i + 1));
        }
        assert(state_roots@ =~= self.state_roots@);
        BeaconState {
            slot: self.slot,
            fork_version: self.fork_version,
            genesis_validators_root: self.genesis_validators_root,
            validators,
            randao_seed: self.randao_seed,
            proposer_seed: self.proposer_seed,
            latest_block_header: self.latest_block_header,
            state_roots,
            eth1_data: self.eth1_data,
            eth1_deposit_index: self.eth1_deposit_index,
            committee_caches_built: self.committee_caches_built,
        }
    }

    /// Computes the canonical root of the state.
    pub fn canonical_root(&self) -> (r: u64)
        ensures
            r == state_root_of(self@),
    {
        let mut words: Vec<u64> = Vec::new();
        words.push(self.slot);
        words.push(self.fork_version);
        words.push(self.genesis_validators_root);
        words.push(self.validators.len() as u64);
        let n = self.validators.len();
        let ghost prefix = words@;
        for i in 0..n
            invariant
                n == self.validators@.len(),
                words@ =~= prefix + self.validators@.take(i as int),
        {
            words.push(self.validators[i]);
            assert(words@ =~= prefix + self.validators@.take(i + 1));
        }
        assert(words@ =~= prefix + self.validators@);
        words.push(self.randao_seed);
        words.push(self.proposer_seed);
        words.push(self.latest_block_header.slot);
        words.push(self.latest_block_header.proposer_index);
        words.push(self.latest_block_header.parent_root);
        words.push(self.latest_block_header.state_root);
        words.push(self.latest_block_header.body_root);
        words.push(self.state_roots.len() as u64);
        let m = self.state_roots.len();
        let ghost prefix2 = words@;
        for i in 0..m
            invariant
                m == self.state_roots@.len(),
                words@ =~= prefix2 + self.state_roots@.take(i as int),
        {
            words.push(self.state_roots[i]);
            assert(words@ =~= prefix2 + self.state_roots@.take(i + 1));
        }
        assert(words@ =~= prefix2 + self.state_roots@);
        words.push(self.eth1_data);
        words.push(self.eth1_deposit_index);
        assert(words@ =~= state_words(self@));
        digest_of_words(&words)
    }
}

/// The state after one slot of processing, staged with the root `root` for
/// the slot being left. Mirrors the per-slot transition exactly.
pub open spec fn spec_slot_processed(s: StateModel, root: u64, chain_spec: ChainSpec) -> StateModel {
    let header = if s.latest_block_header.state_root == 0 {
        BlockHeader { state_root: root, ..s.latest_block_header }
    } else {
        s.latest_block_header
    };
    let s1 = StateModel { latest_block_header: header, state_roots: s.state_roots.push(root), ..s };
    if (s.slot + 1) % (SLOTS_PER_EPOCH as int) == 0 {
        let next_epoch = ((s.slot + 1) / (SLOTS_PER_EPOCH as int)) as u64;
        StateModel {
            slot: (s.slot + 1) as u64,
            proposer_seed: s.randao_seed ^ next_epoch,
            fork_version: spec_fork_entry_at(chain_spec.fork_schedule@, next_epoch).version,
            committee_caches_built: false,
            ..s1
        }
    } else {
        StateModel { slot: (s.slot + 1) as u64, ..s1 }
    }
}

/// Advances the state by one slot. The root of the slot being left is taken
/// from `state_root` when the caller already knows it, otherwise computed.
/// Crossing an epoch boundary reseeds the shuffling, applies the fork
/// schedule and invalidates the committee caches; the summary then reports
/// the new epoch.
pub fn per_slot_processing(
    state: &mut BeaconState,
    state_root: Option<u64>,
    chain_spec: &ChainSpec,
) -> (r: Result<Option<EpochSummary>, BeaconStateError>)
    requires
        chain_spec.wf(),
    ensures
        match r {
            Ok(summary) => {
                &&& old(state).slot < u64::MAX
                &&& final(state)@ == spec_slot_processed(
                    old(state)@,
                    match state_root {
                        Some(root) => root,
                        None => state_root_of(old(state)@),
                    },
                    *chain_spec,
                )
                &&& summary == if (old(state).slot + 1) % (SLOTS_PER_EPOCH as int) == 0 {
                    Some(
                        EpochSummary {
                            epoch: ((old(state).slot + 1) / (SLOTS_PER_EPOCH as int)) as u64,
                        },
                    )
                } else {
                    None::<EpochSummary>
                }
            },
            Err(e) => old(state).slot == u64::MAX && e == BeaconStateError::SlotOutOfBounds
                && final(state)@ == old(state)@,
        },
{
    if state.slot == u64::MAX {
        return Err(BeaconStateError::SlotOutOfBounds);
    }
    let root = match state_root {
        Some(root) => root,
        None => state.canonical_root(),
    };
    if state.latest_block_header.state_root == 0 {
        state.latest_block_header.state_root = root;
    }
    state.state_roots.push(root);
    if (state.slot + 1) % SLOTS_PER_EPOCH == 0 {
        let next_epoch = (state.slot + 1) / SLOTS_PER_EPOCH;
        state.proposer_seed = state.randao_seed ^ next_epoch;
        state.fork_version = chain_spec.fork_at_epoch(next_epoch).version;
        state.committee_caches_built = false;
        state.slot = state.slot + 1;
        Ok(Some(EpochSummary { epoch: next_epoch }))
    } else {
        state.slot = state.slot + 1;
        Ok(None)
    }
}

/// The state after a partial advance to `target_slot`: per-slot processing
/// without state-root bookkeeping. The first staged root may be supplied by
/// the caller; every further one is recorded as zero (unknown), which is what
/// makes the result unusable as a real pre-state.
pub open spec fn spec_partial_advanced(
    s: StateModel,
    state_root: Option<u64>,
    target_slot: u64,
    chain_spec: ChainSpec,
) -> StateModel
    decreases target_slot - s.slot,
{
    if s.slot >= target_slot {
        s
    } else {
        let root = match state_root {
            Some(root) => root,
            None => 0u64,
        };
        spec_partial_advanced(
            spec_slot_processed(s, root, chain_spec),
            None,
            target_slot,
            chain_spec,
        )
    }
}

/// Advances the state to `target_slot` without computing state roots: the
/// committees and proposers of the result are correct, while the staged
/// state-root bookkeeping is deliberately skipped.
pub fn partial_state_advance(
    state: &mut BeaconState,
    state_root: Option<u64>,
    target_slot: u64,
    chain_spec: &ChainSpec,
) -> (r: Result<(), BeaconStateError>)
    requires
        chain_spec.wf(),
    ensures
        match r {
            Ok(()) => old(state).slot <= target_slot && final(state)@ == spec_partial_advanced(
                old(state)@,
                state_root,
                target_slot,
                *chain_spec,
            ) && final(state)@.slot == target_slot,
            Err(e) => e == BeaconStateError::SlotOutOfBounds && old(state).slot > target_slot
                && final(state)@ == old(state)@,
        },
{
    if state.slot > target_slot {
        return Err(BeaconStateError::SlotOutOfBounds);
    }
    let ghost orig = state@;
    let mut pending_root = state_root;
    while state.slot < target_slot
        invariant
            chain_spec.wf(),
            state.slot <= target_slot,
            spec_partial_advanced(orig, state_root, target_slot, *chain_spec)
                == spec_partial_advanced(state@, pending_root, target_slot, *chain_spec),
        decreases target_slot - state.slot,
    {
        let root = match pending_root {
            Some(root) => root,
            None => 0u64,
        };
        let res = per_slot_processing(state, Some(root), chain_spec);
        assert(res is Ok);
        pending_root = None;
    }
    assert(spec_partial_advanced(state@, pending_root, target_slot, *chain_spec) == state@);
    Ok(())
}

/// A state able to serve committee lookups: either the caller's own state
/// (with its caches freshly built in place) or an advanced copy of it.
pub enum CommitteeState {
    /// The caller's state already serves the target epoch; use it directly.
    Borrowed,
    /// An advanced copy; the caller's state was left untouched.
    Advanced(BeaconState),
}

/// The advanced copy that the cheap advance produces on its slow path.
pub open spec fn spec_cheap_advanced(
    s: StateModel,
    state_root: Option<u64>,
    block_slot: u64,
    chain_spec: ChainSpec,
) -> StateModel {
    spec_partial_advanced(
        s,
        state_root,
        (spec_epoch_of(block_slot) * SLOTS_PER_EPOCH) as u64,
        chain_spec,
    ).with_caches()
}

/// Performs a cheap (time-efficient) state advancement so the committees and
/// proposer shuffling for `block_slot` can be obtained from `state`.
///
/// If the state already serves the block's epoch, its committee caches are
/// built in place and the state itself is used. A state already past the
/// block's slot is an ordering violation. Otherwise the state is cloned and
/// the copy partially advanced — without state-root bookkeeping — to the
/// start of the block's epoch, so the caller's state is never mutated into a
/// partially advanced form.
pub fn cheap_state_advance_to_obtain_committees<E: BlockBlobError>(
    state: &mut BeaconState,
    state_root_opt: Option<u64>,
    block_slot: u64,
    chain_spec: &ChainSpec,
) -> (r: Result<CommitteeState, E>)
    requires
        chain_spec.wf(),
    ensures
        spec_epoch_of(old(state).slot) == spec_epoch_of(block_slot) ==> (match r {
            Ok(c) => c is Borrowed && final(state)@ == old(state)@.with_caches(),
            Err(_) => false,
        }),
        spec_epoch_of(old(state).slot) != spec_epoch_of(block_slot) ==> final(state)@ == old(state)@ && if old(state).slot > block_slot {
            r == Err::<CommitteeState, E>(
                E::spec_not_later_than_parent(block_slot, old(state).slot),
            )
        } else {
            match r {
                Ok(c) => match c {
                    CommitteeState::Advanced(s) => s@ == spec_cheap_advanced(
                        old(state)@,
                        state_root_opt,
                        block_slot,
                        *chain_spec,
                    ),
                    CommitteeState::Borrowed => false,
                },
                Err(_) => false,
            }
        },
{
    let block_epoch = epoch_of(block_slot);
    if state.current_epoch() == block_epoch {
        let res = state.build_all_committee_caches();
        Ok(CommitteeState::Borrowed)
    } else if state.slot > block_slot {
        Err(E::not_later_than_parent_error(block_slot, state.slot))
    } else {
        let mut advanced = state.duplicate();
        assert(block_epoch * SLOTS_PER_EPOCH <= block_slot) by (nonlinear_arith)
            requires
                block_epoch == block_slot / SLOTS_PER_EPOCH,
                SLOTS_PER_EPOCH == 32,
        ;
        let target_slot = block_epoch * SLOTS_PER_EPOCH;
        assert(advanced.slot <= target_slot) by (nonlinear_arith)
            requires
                advanced.slot <= block_slot,
                block_epoch == block_slot / SLOTS_PER_EPOCH,
                target_slot == block_epoch * SLOTS_PER_EPOCH,
                SLOTS_PER_EPOCH == 32,
                spec_epoch_of(advanced.slot) != spec_epoch_of(block_slot),
                spec_epoch_of(advanced.slot) == advanced.slot / SLOTS_PER_EPOCH,
        ;
        let res = partial_state_advance(&mut advanced, state_root_opt, target_slot, chain_spec);
        assert(res is Ok);
        let res2 = advanced.build_all_committee_caches();
        Ok(CommitteeState::Advanced(advanced))
    }
}

/// The state after a block is applied: the header is recorded with its state
/// root left pending, and the block's body root is mixed into the RANDAO
/// seed.
pub open spec fn spec_block_applied(s: StateModel, b: Block) -> StateModel {
    let header = BlockHeader {
        slot: b.slot,
        proposer_index: b.proposer_index,
        parent_root: b.parent_root,
        state_root: 0,
        body_root: body_root_of(b.body),
    };
    StateModel {
        latest_block_header: header,
        randao_seed: s.randao_seed ^ header.body_root,
        ..s
    }
}

/// The rejection per-block processing reports for a block on a state, or
/// nothing when the block is accepted. Checks run in this order: the slot
/// match, the context safeguard, the header ordering, the parent linkage, the
/// proposer lookup and match, and (only when the strategy verifies) the
/// proposal and RANDAO signatures.
pub open spec fn spec_per_block_verdict(
    s: StateModel,
    ctx: ConsensusContext,
    b: SignedBlock,
    strategy: BlockSignatureStrategy,
) -> Option<BlockProcessingError> {
    if b.message.slot != s.slot {
        Some(
            BlockProcessingError::StateSlotMismatch {
                block_slot: b.message.slot,
                state_slot: s.slot,
            },
        )
    } else if ctx.spec_slot() != s.slot {
        Some(
            BlockProcessingError::ConsensusContext(
                ContextError::SlotMismatch { slot: s.slot, expected: ctx.spec_slot() },
            ),
        )
    } else if b.message.slot <= s.latest_block_header.slot {
        Some(
            BlockProcessingError::HeaderSlotNotLaterThanLatest {
                block_slot: b.message.slot,
                latest_slot: s.latest_block_header.slot,
            },
        )
    } else if b.message.parent_root != header_root_of(s.latest_block_header) {
        Some(
            BlockProcessingError::ParentBlockRootMismatch {
                expected: header_root_of(s.latest_block_header),
                found: b.message.parent_root,
            },
        )
    } else if ctx.spec_resolved_proposer(s) is None {
        Some(BlockProcessingError::BeaconStateError(s.proposer_lookup_error()))
    } else if b.message.proposer_index != ctx.spec_resolved_proposer(s).unwrap() {
        Some(
            BlockProcessingError::ProposerIndexMismatch {
                block_proposer_index: b.message.proposer_index,
                state_proposer_index: ctx.spec_resolved_proposer(s).unwrap(),
            },
        )
    } else if b.message.proposer_index >= s.validators.len() {
        Some(
            BlockProcessingError::BeaconStateError(
                BeaconStateError::UnknownValidator(b.message.proposer_index),
            ),
        )
    } else if strategy == BlockSignatureStrategy::VerifyAll && !b.signature.spec_is_valid(
        s.validators[b.message.proposer_index as int],
        ctx.spec_resolved_block_root(b),
        DOMAIN_BEACON_PROPOSER,
        s.fork_version,
        s.genesis_validators_root,
    ) {
        Some(BlockProcessingError::ProposalSignatureInvalid)
    } else if strategy == BlockSignatureStrategy::VerifyAll
        && !b.message.body.randao_reveal.spec_is_valid(
        s.validators[b.message.proposer_index as int],
        spec_epoch_of(b.message.slot),
        DOMAIN_RANDAO,
        s.fork_version,
        s.genesis_validators_root,
    ) {
        Some(BlockProcessingError::RandaoSignatureInvalid)
    } else {
        None
    }
}

/// Runs the per-block state transition for `block` on `state`.
///
/// On acceptance the state is the block's post-state (with the state root in
/// its header left pending); on rejection the state is untouched. The
/// consensus context's slot and caches are preserved; its proposer and
/// block-root caches only ever gain the resolved values.
pub fn per_block_processing(
    state: &mut BeaconState,
    block: &SignedBlock,
    strategy: BlockSignatureStrategy,
    ctx: &mut ConsensusContext,
) -> (r: Result<(), BlockProcessingError>)
    ensures
        final(ctx).spec_slot() == old(ctx).spec_slot(),
        final(ctx).spec_indexed_attestations() == old(ctx).spec_indexed_attestations(),
        old(ctx).spec_proposer_index() is Some ==> final(ctx).spec_proposer_index() == old(ctx).spec_proposer_index(),
        old(ctx).spec_current_block_root() is Some ==> final(ctx).spec_current_block_root() == old(ctx).spec_current_block_root(),
        match r {
            Ok(()) => spec_per_block_verdict(old(state)@, *old(ctx), *block, strategy) is None
                && final(state)@ == spec_block_applied(old(state)@, block.message),
            Err(e) => spec_per_block_verdict(old(state)@, *old(ctx), *block, strategy) == Some(e)
                && final(state)@ == old(state)@,
        },
{
    if block.message.slot != state.slot {
        return Err(
            BlockProcessingError::StateSlotMismatch {
                block_slot: block.message.slot,
                state_slot: state.slot,
            },
        );
    }
    let proposer_res = ctx.get_proposer_index(state);
    let header_slot_ok = block.message.slot > state.latest_block_header.slot;
    let latest = state.latest_block_header;
    let signed_latest = SignedBlockHeader { message: latest, signature: block.signature };
    let expected_parent = get_block_header_root(&signed_latest);
    let parent_ok = block.message.parent_root == expected_parent;
    let proposer = match proposer_res {
        Ok(p) => {
            if !header_slot_ok {
                return Err(
                    BlockProcessingError::HeaderSlotNotLaterThanLatest {
                        block_slot: block.message.slot,
                        latest_slot: state.latest_block_header.slot,
                    },
                );
            }
            if !parent_ok {
                return Err(
                    BlockProcessingError::ParentBlockRootMismatch {
                        expected: expected_parent,
                        found: block.message.parent_root,
                    },
                );
            }
            p
        },
        Err(e) => {
            match e {
                ContextError::SlotMismatch { slot, expected } => {
                    return Err(
                        BlockProcessingError::ConsensusContext(
                            ContextError::SlotMismatch { slot, expected },
                        ),
                    );
                },
                ContextError::BeaconState(se) => {
                    if !header_slot_ok {
                        return Err(
                            BlockProcessingError::HeaderSlotNotLaterThanLatest {
                                block_slot: block.message.slot,
                                latest_slot: state.latest_block_header.slot,
                            },
                        );
                    }
                    if !parent_ok {
                        return Err(
                            BlockProcessingError::ParentBlockRootMismatch {
                                expected: expected_parent,
                                found: block.message.parent_root,
                            },
                        );
                    }
                    return Err(BlockProcessingError::BeaconStateError(se));
                },
                ContextError::EpochMismatch { .. } => {
                    assert(false);
                    return Err(BlockProcessingError::ConsensusContext(e));
                },
            }
        },
    };
    if block.message.proposer_index != proposer {
        return Err(
            BlockProcessingError::ProposerIndexMismatch {
                block_proposer_index: block.message.proposer_index,
                state_proposer_index: proposer,
            },
        );
    }
    if block.message.proposer_index >= state.validators.len() as u64 {
        return Err(
            BlockProcessingError::BeaconStateError(
                BeaconStateError::UnknownValidator(block.message.proposer_index),
            ),
        );
    }
    let proposer_pubkey = state.validators[block.message.proposer_index as usize];
    if matches!(strategy, BlockSignatureStrategy::VerifyAll) {
        let block_root = match ctx.get_current_block_root(block) {
            Ok(root) => root,
            Err(e) => {
                assert(false);
                return Err(BlockProcessingError::ProposalSignatureInvalid);
            },
        };
        if !block.signature.is_valid(
            proposer_pubkey,
            block_root,
            DOMAIN_BEACON_PROPOSER,
            state.fork_version,
            state.genesis_validators_root,
        ) {
            return Err(BlockProcessingError::ProposalSignatureInvalid);
        }
        if !block.message.body.randao_reveal.is_valid(
            proposer_pubkey,
            epoch_of(block.message.slot),
            DOMAIN_RANDAO,
            state.fork_version,
            state.genesis_validators_root,
        ) {
            return Err(BlockProcessingError::RandaoSignatureInvalid);
        }
    }
    let header = compute_block_header(&block.message);
    let new_header = BlockHeader { state_root: 0, ..header };
    state.latest_block_header = new_header;
    state.randao_seed = state.randao_seed ^ new_header.body_root;
    Ok(())
}

} // verus!
