//! The consensus context: a per-block cache of the proposer index, the block
//! root and resolved indexed attestations, threaded through the verification
//! stages so that nothing is recomputed.
//!
//! Once the proposer index or block root is set it never changes for the rest
//! of that block's verification.

use vstd::prelude::*;
use crate::errors::BeaconStateError;
use crate::roots::{block_root_of, compute_block_header, get_block_header_root};
use crate::state::{BeaconState, StateModel};
use crate::types::{Attestation, AttestationData, IndexedAttestation, SignedBlock,
    SignedBlockHeader};
use crate::spec_epoch_of;
use crate::epoch_of;

verus! {

/// Rejections raised by consensus-context lookups.
#[derive(Clone, Copy, Debug, PartialEq, Eq, Structural)]
pub enum ContextError {
    BeaconState(BeaconStateError),
    /// The queried object is not from the context's slot.
    SlotMismatch { slot: u64, expected: u64 },
    /// The queried state is not from the context's epoch.
    EpochMismatch { epoch: u64, expected: u64 },
}

/// One cached indexed attestation, keyed by the attestation's data and bits.
#[derive(Clone, Debug, PartialEq, Eq)]
pub struct CachedIndexedAttestation {
    pub data: AttestationData,
    pub aggregation_bits: Vec<bool>,
    pub indexed: IndexedAttestation,
}

/// Per-block cache of derived consensus values.
#[derive(Clone, Debug, PartialEq, Eq)]
pub struct ConsensusContext {
    /// Slot to act as an identifier/safeguard.
    slot: u64,
    /// Proposer index of the block at `slot`, once resolved.
    proposer_index: Option<u64>,
    /// Root of the block at `slot`, once computed.
    current_block_root: Option<u64>,
    /// Indexed attestations resolved during block processing.
    indexed_attestations: Vec<CachedIndexedAttestation>,
}

impl ConsensusContext {
    /// The context's slot.
    pub closed spec fn spec_slot(self) -> u64 {
        self.slot
    }

    /// The cached proposer index, if resolved.
    pub closed spec fn spec_proposer_index(self) -> Option<u64> {
        self.proposer_index
    }

    /// The cached block root, if computed.
    pub closed spec fn spec_current_block_root(self) -> Option<u64> {
        self.current_block_root
    }

    /// The cached indexed attestations.
    pub closed spec fn spec_indexed_attestations(self) -> Seq<CachedIndexedAttestation> {
        self.indexed_attestations@
    }

    /// A fresh context for a block at `slot`, with nothing resolved yet.
    pub fn new(slot: u64) -> (r: Self)
        ensures
            r.spec_slot() == slot,
            r.spec_proposer_index() is None,
            r.spec_current_block_root() is None,
            r.spec_indexed_attestations() == Seq::<CachedIndexedAttestation>::empty(),
    {
        ConsensusContext {
            slot,
            proposer_index: None,
            current_block_root: None,
            indexed_attestations: Vec::new(),
        }
    }

    /// Caches the proposer index; immutable for the rest of verification.
    pub fn set_proposer_index(self, proposer_index: u64) -> (r: Self)
        ensures
            r.spec_proposer_index() == Some(proposer_index),
            r.spec_slot() == self.spec_slot(),
            r.spec_current_block_root() == self.spec_current_block_root(),
            r.spec_indexed_attestations() == self.spec_indexed_attestations(),
    {
        ConsensusContext { proposer_index: Some(proposer_index), ..self }
    }

    /// Caches the block root; immutable for the rest of verification.
    pub fn set_current_block_root(self, block_root: u64) -> (r: Self)
        ensures
            r.spec_current_block_root() == Some(block_root),
            r.spec_slot() == self.spec_slot(),
            r.spec_proposer_index() == self.spec_proposer_index(),
            r.spec_indexed_attestations() == self.spec_indexed_attestations(),
    {
        ConsensusContext { current_block_root: Some(block_root), ..self }
    }

    /// The proposer index this context resolves on `state`: the cached value
    /// if set, otherwise the state's assignment for the context's slot.
    pub open spec fn spec_resolved_proposer(self, state: StateModel) -> Option<u64> {
        match self.spec_proposer_index() {
            Some(p) => Some(p),
            None => state.proposer_at(self.spec_slot()),
        }
    }

    /// Rejects a slot other than the context's own.
    fn check_slot(&self, slot: u64) -> (r: Result<(), ContextError>)
        ensures
            r is Ok <==> slot == self.slot,
            r is Err ==> r == Err::<(), ContextError>(
                ContextError::SlotMismatch { slot, expected: self.slot },
            ),
    {
        if slot == self.slot {
            Ok(())
        } else {
            Err(ContextError::SlotMismatch { slot, expected: self.slot })
        }
    }

    /// Rejects an epoch other than the context's own.
    fn check_epoch(&self, epoch: u64) -> (r: Result<(), ContextError>)
        ensures
            r is Ok <==> epoch == spec_epoch_of(self.slot),
            r is Err ==> r == Err::<(), ContextError>(
                ContextError::EpochMismatch { epoch, expected: spec_epoch_of(self.slot) },
            ),
    {
        let expected = epoch_of(self.slot);
        if epoch == expected {
            Ok(())
        } else {
            Err(ContextError::EpochMismatch { epoch, expected })
        }
    }

    /// Resolves the proposer index without slot or epoch checks, caching it.
    fn get_proposer_index_no_checks(&mut self, state: &BeaconState) -> (r: Result<
        u64,
        ContextError,
    >)
        ensures
            final(self).spec_slot() == old(self).spec_slot(),
            final(self).spec_current_block_root() == old(self).spec_current_block_root(),
            final(self).spec_indexed_attestations() == old(self).spec_indexed_attestations(),
            match r {
                Ok(p) => old(self).spec_resolved_proposer(state@) == Some(p) && final(self).spec_proposer_index() == Some(p),
                Err(e) => old(self).spec_resolved_proposer(state@) is None && *final(self) == *old(self) && e == ContextError::BeaconState(state@.proposer_lookup_error()),
            },
    {
        if let Some(proposer_index) = self.proposer_index {
            return Ok(proposer_index);
        }
        match state.get_beacon_proposer_index(self.slot) {
            Ok(p) => {
                self.proposer_index = Some(p);
                Ok(p)
            },
            Err(e) => Err(ContextError::BeaconState(e)),
        }
    }

    /// Strict proposer lookup: the state must be at exactly the context's
    /// slot. Returns the cached index when available, otherwise derives it
    /// from the state and caches it.
    pub fn get_proposer_index(&mut self, state: &BeaconState) -> (r: Result<u64, ContextError>)
        ensures
            final(self).spec_slot() == old(self).spec_slot(),
            final(self).spec_current_block_root() == old(self).spec_current_block_root(),
            final(self).spec_indexed_attestations() == old(self).spec_indexed_attestations(),
            state.slot != old(self).spec_slot() ==> r == Err::<u64, ContextError>(
                ContextError::SlotMismatch { slot: state.slot, expected: old(self).spec_slot() },
            ) && *final(self) == *old(self),
            state.slot == old(self).spec_slot() ==> match r {
                Ok(p) => old(self).spec_resolved_proposer(state@) == Some(p) && final(self).spec_proposer_index() == Some(p),
                Err(e) => old(self).spec_resolved_proposer(state@) is None && *final(self) == *old(self) && e == ContextError::BeaconState(state@.proposer_lookup_error()),
            },
    {
        match self.check_slot(state.slot) {
            Ok(()) => self.get_proposer_index_no_checks(state),
            Err(e) => Err(e),
        }
    }

    /// Liberal proposer lookup for batch verification: the state need only be
    /// from the context's epoch, so one state serves every slot of the epoch.
    pub fn get_proposer_index_from_epoch_state(&mut self, state: &BeaconState) -> (r: Result<
        u64,
        ContextError,
    >)
        ensures
            final(self).spec_slot() == old(self).spec_slot(),
            final(self).spec_current_block_root() == old(self).spec_current_block_root(),
            final(self).spec_indexed_attestations() == old(self).spec_indexed_attestations(),
            spec_epoch_of(state.slot) != spec_epoch_of(old(self).spec_slot()) ==> r == Err::<
                u64,
                ContextError,
            >(
                ContextError::EpochMismatch {
                    epoch: spec_epoch_of(state.slot),
                    expected: spec_epoch_of(old(self).spec_slot()),
                },
            ) && *final(self) == *old(self),
            spec_epoch_of(state.slot) == spec_epoch_of(old(self).spec_slot()) ==> match r {
                Ok(p) => old(self).spec_resolved_proposer(state@) == Some(p) && final(self).spec_proposer_index() == Some(p),
                Err(e) => old(self).spec_resolved_proposer(state@) is None && *final(self) == *old(self) && e == ContextError::BeaconState(state@.proposer_lookup_error()),
            },
    {
        let epoch = epoch_of(state.slot);
        match self.check_epoch(epoch) {
            Ok(()) => self.get_proposer_index_no_checks(state),
            Err(e) => Err(e),
        }
    }

    /// The block root this context resolves for a block: the cached value if
    /// set, otherwise the block's canonical root.
    pub open spec fn spec_resolved_block_root(self, block: SignedBlock) -> u64 {
        match self.spec_current_block_root() {
            Some(r) => r,
            None => block_root_of(block.message),
        }
    }

    /// Root of the block at the context's slot: the cached value when
    /// available, otherwise the block's canonical root, which is then cached.
    pub fn get_current_block_root(&mut self, block: &SignedBlock) -> (r: Result<u64, ContextError>)
        ensures
            final(self).spec_slot() == old(self).spec_slot(),
            final(self).spec_proposer_index() == old(self).spec_proposer_index(),
            final(self).spec_indexed_attestations() == old(self).spec_indexed_attestations(),
            block.message.slot != old(self).spec_slot() ==> r == Err::<u64, ContextError>(
                ContextError::SlotMismatch {
                    slot: block.message.slot,
                    expected: old(self).spec_slot(),
                },
            ) && *final(self) == *old(self),
            block.message.slot == old(self).spec_slot() ==> r == Ok::<u64, ContextError>(
                old(self).spec_resolved_block_root(*block),
            ) && final(self).spec_current_block_root() == Some(
                old(self).spec_resolved_block_root(*block),
            ),
    {
        match self.check_slot(block.message.slot) {
            Ok(()) => {
                if let Some(current_block_root) = self.current_block_root {
                    return Ok(current_block_root);
                }
                let header = compute_block_header(&block.message);
                let signed = SignedBlockHeader { message: header, signature: block.signature };
                let root = get_block_header_root(&signed);
                self.current_block_root = Some(root);
                Ok(root)
            },
            Err(e) => Err(e),
        }
    }

    /// The first cached entry matching (`data`, `bits`), if any.
    pub open spec fn spec_cached_lookup(self, data: AttestationData, bits: Seq<bool>) -> Option<
        IndexedAttestation,
    > {
        spec_cache_find(self.spec_indexed_attestations(), data, bits)
    }

    /// Resolves an attestation to validator indices: from the cache when the
    /// same (data, bits) pair was already resolved, otherwise by filtering the
    /// committee serving the attestation's slot by the aggregation bits, and
    /// caching the result.
    pub fn get_indexed_attestation(&mut self, state: &BeaconState, attestation: &Attestation) -> (r:
        Result<IndexedAttestation, ContextError>)
        ensures
            final(self).spec_slot() == old(self).spec_slot(),
            final(self).spec_proposer_index() == old(self).spec_proposer_index(),
            final(self).spec_current_block_root() == old(self).spec_current_block_root(),
            match old(self).spec_cached_lookup(
                attestation.spec_data(),
                attestation.spec_aggregation_bits(),
            ) {
                Some(cached) => match r {
                    Ok(ia) => indexed_view_eq(ia, cached) && *final(self) == *old(self),
                    Err(_) => false,
                },
                None => match r {
                    Ok(ia) => {
                        &&& state@.committee_at(
                            attestation.spec_data().slot,
                            attestation.spec_data().index,
                        ) matches Some(committee)
                        &&& attestation.spec_aggregation_bits().len() == committee.len()
                        &&& ia.data == attestation.spec_data()
                        &&& ia.signature == attestation.spec_signature()
                        &&& ia.attesting_indices@ == spec_attesting_indices(
                            committee,
                            attestation.spec_aggregation_bits(),
                        )
                        &&& final(self).spec_indexed_attestations().len() == old(
                            self,
                        ).spec_indexed_attestations().len() + 1
                        &&& final(self).spec_indexed_attestations().drop_last() == old(
                            self,
                        ).spec_indexed_attestations()
                        &&& final(self).spec_indexed_attestations().last().data
                            == attestation.spec_data()
                        &&& final(self).spec_indexed_attestations().last().aggregation_bits@
                            == attestation.spec_aggregation_bits()
                        &&& indexed_view_eq(
                            final(self).spec_indexed_attestations().last().indexed,
                            ia,
                        )
                    },
                    Err(e) => *final(self) == *old(self) && spec_computed_indices(
                        state@,
                        attestation.spec_data(),
                        attestation.spec_aggregation_bits(),
                    ) is None && e == spec_indexed_lookup_error(
                        state@,
                        attestation.spec_data(),
                        attestation.spec_aggregation_bits(),
                    ),
                },
            },
            spec_cache_coherent(*old(self), state@) ==> spec_cache_coherent(*final(self), state@),
            spec_cache_coherent(*old(self), state@) ==> match r {
                Ok(ia) => spec_computed_indices(
                    state@,
                    attestation.spec_data(),
                    attestation.spec_aggregation_bits(),
                ) == Some(ia.attesting_indices@) && ia.data == attestation.spec_data(),
                Err(_) => spec_computed_indices(
                    state@,
                    attestation.spec_data(),
                    attestation.spec_aggregation_bits(),
                ) is None,
            },
    {
        let data = attestation.data();
        let bits = match attestation {
            Attestation::Base(a) => &a.aggregation_bits,
            Attestation::Electra(a) => &a.aggregation_bits,
        };
        let sig = match attestation {
            Attestation::Base(a) => a.signature,
            Attestation::Electra(a) => a.signature,
        };
        let n = self.indexed_attestations.len();
        let ghost cache = self.spec_indexed_attestations();
        proof {
            assert(cache.skip(0) =~= cache);
        }
        for i in 0..n
            invariant
                n == cache.len(),
                cache == self.spec_indexed_attestations(),
                data == attestation.spec_data(),
                bits@ == attestation.spec_aggregation_bits(),
                spec_cache_find(cache, data, bits@) == spec_cache_find(
                    cache.skip(i as int),
                    data,
                    bits@,
                ),
        {
            proof {
                assert(cache.skip(i as int).first() == cache[i as int]);
                assert(cache.skip(i as int).drop_first() =~= cache.skip(i + 1));
            }
            let entry_matches = {
                let entry = &self.indexed_attestations[i];
                entry.data.slot == data.slot && entry.data.index == data.index
                    && entry.data.beacon_block_root == data.beacon_block_root
                    && entry.data.source_epoch == data.source_epoch && entry.data.target_epoch
                    == data.target_epoch && bits_eq(&entry.aggregation_bits, bits)
            };
            if entry_matches {
                let entry = &self.indexed_attestations[i];
                proof {
                    assert(cache.skip(i as int).first().data == data && cache.skip(
                        i as int,
                    ).first().aggregation_bits@ == bits@);
                    assert(spec_cache_find(cache.skip(i as int), data, bits@) == Some(
                        cache[i as int].indexed,
                    ));
                }
                proof {
                    if spec_cache_coherent(*old(self), state@) {
                        lemma_cache_find_is_entry(cache, data, bits@);
                    }
                }
                return Ok(dup_indexed(&entry.indexed));
            }
        }
        assert(cache.skip(n as int) =~= Seq::<CachedIndexedAttestation>::empty());
        let committee = match state.get_beacon_committee(data.slot, data.index) {
            Ok(c) => c,
            Err(e) => {
                return Err(ContextError::BeaconState(e));
            },
        };
        if bits.len() != committee.len() {
            return Err(ContextError::BeaconState(BeaconStateError::InvalidBitfield));
        }
        let attesting_indices = compute_attesting_indices(&committee, bits);
        let indexed = IndexedAttestation { attesting_indices, data, signature: sig };
        let key_bits = copy_bits(bits);
        self.indexed_attestations.push(
            CachedIndexedAttestation {
                data,
                aggregation_bits: key_bits,
                indexed: dup_indexed(&indexed),
            },
        );
        proof {
            if spec_cache_coherent(*old(self), state@) {
                assert forall|k: int| 0 <= k < self.spec_indexed_attestations().len() implies {
                    &&& (#[trigger] self.spec_indexed_attestations()[k]).indexed.data
                        == self.spec_indexed_attestations()[k].data
                    &&& spec_computed_indices(
                        state@,
                        self.spec_indexed_attestations()[k].data,
                        self.spec_indexed_attestations()[k].aggregation_bits@,
                    ) == Some(self.spec_indexed_attestations()[k].indexed.attesting_indices@)
                } by {
                    if k < old(self).spec_indexed_attestations().len() {
                        assert(self.spec_indexed_attestations()[k] == old(
                            self,
                        ).spec_indexed_attestations()[k]);
                    } else {
                        assert(self.spec_indexed_attestations()[k]
                            == self.spec_indexed_attestations().last());
                    }
                }
            }
        }
        Ok(indexed)
    }

    /// Number of indexed attestations resolved so far.
    pub fn num_cached_indexed_attestations(&self) -> (r: usize)
        ensures
            r == self.spec_indexed_attestations().len(),
    {
        self.indexed_attestations.len()
    }
}

/// Two indexed attestations carrying the same values.
pub open spec fn indexed_view_eq(a: IndexedAttestation, b: IndexedAttestation) -> bool {
    &&& a.data == b.data
    &&& a.signature == b.signature
    &&& a.attesting_indices@ == b.attesting_indices@
}

/// The first cache entry for (`data`, `bits`), scanning front to back.
pub open spec fn spec_cache_find(
    entries: Seq<CachedIndexedAttestation>,
    data: AttestationData,
    bits: Seq<bool>,
) -> Option<IndexedAttestation>
    decreases entries.len(),
{
    if entries.len() == 0 {
        None
    } else if entries.first().data == data && entries.first().aggregation_bits@ == bits {
        Some(entries.first().indexed)
    } else {
        spec_cache_find(entries.drop_first(), data, bits)
    }
}

/// The committee members whose aggregation bit is set, in committee order.
pub open spec fn spec_attesting_indices(committee: Seq<u64>, bits: Seq<bool>) -> Seq<u64>
    decreases committee.len(),
{
    if committee.len() == 0 {
        seq![]
    } else {
        let rest = spec_attesting_indices(committee.drop_last(), bits.drop_last());
        if bits.len() == committee.len() && bits.last() {
            rest.push(committee.last())
        } else {
            rest
        }
    }
}

/// The validator indices an attestation resolves to on `state`, ignoring any
/// cache: the committee serving its data, filtered by the aggregation bits.
pub open spec fn spec_computed_indices(
    state: StateModel,
    data: AttestationData,
    bits: Seq<bool>,
) -> Option<Seq<u64>> {
    match state.committee_at(data.slot, data.index) {
        Some(committee) => if bits.len() == committee.len() {
            Some(spec_attesting_indices(committee, bits))
        } else {
            None
        },
        None => None,
    }
}

/// The error a cache-miss resolution reports on `state`.
pub open spec fn spec_indexed_lookup_error(
    state: StateModel,
    data: AttestationData,
    bits: Seq<bool>,
) -> ContextError {
    match state.committee_at(data.slot, data.index) {
        Some(_) => ContextError::BeaconState(BeaconStateError::InvalidBitfield),
        None => ContextError::BeaconState(state.committee_lookup_error(data.index)),
    }
}

/// Whether every cached entry agrees with what `state` computes for its key.
/// A fresh context is trivially coherent, and resolving attestations on one
/// state keeps it so.
pub open spec fn spec_cache_coherent(ctx: ConsensusContext, state: StateModel) -> bool {
    forall|i: int|
        0 <= i < ctx.spec_indexed_attestations().len() ==> {
            &&& (#[trigger] ctx.spec_indexed_attestations()[i]).indexed.data
                == ctx.spec_indexed_attestations()[i].data
            &&& spec_computed_indices(
                state,
                ctx.spec_indexed_attestations()[i].data,
                ctx.spec_indexed_attestations()[i].aggregation_bits@,
            ) == Some(ctx.spec_indexed_attestations()[i].indexed.attesting_indices@)
        }
}

/// A successful cache lookup names some entry of the cache.
proof fn lemma_cache_find_is_entry(
    entries: Seq<CachedIndexedAttestation>,
    data: AttestationData,
    bits: Seq<bool>,
)
    requires
        spec_cache_find(entries, data, bits) is Some,
    ensures
        exists|i: int|
            0 <= i < entries.len() && (#[trigger] entries[i]).data == data && entries[
                i
            ].aggregation_bits@ == bits && entries[i].indexed == spec_cache_find(
                entries,
                data,
                bits,
            ).unwrap(),
    decreases entries.len(),
{
    if entries.first().data == data && entries.first().aggregation_bits@ == bits {
        assert(entries[0].data == data && entries[0].aggregation_bits@ == bits && entries[0].indexed
            == spec_cache_find(entries, data, bits).unwrap());
    } else {
        lemma_cache_find_is_entry(entries.drop_first(), data, bits);
        let j = choose|j: int|
            0 <= j < entries.drop_first().len() && (#[trigger] entries.drop_first()[j]).data == data
                && entries.drop_first()[j].aggregation_bits@ == bits && entries.drop_first()[
                j
            ].indexed == spec_cache_find(entries.drop_first(), data, bits).unwrap();
        assert(entries[j + 1] == entries.drop_first()[j]);
    }
}

/// Whether two bit lists hold the same bits.
fn bits_eq(a: &Vec<bool>, b: &Vec<bool>) -> (r: bool)
    ensures
        r == (a@ == b@),
{
    if a.len() != b.len() {
        proof {
            assert(a@ != b@);
        }
        return false;
    }
    let n = a.len();
    for i in 0..n
        invariant
            n == a@.len() == b@.len(),
            forall|j: int| 0 <= j < i ==> a@[j] == b@[j],
    {
        if a[i] != b[i] {
            return false;
        }
    }
    proof {
        assert(a@ =~= b@);
    }
    true
}

/// An exact copy of a bit list.
fn copy_bits(bits: &Vec<bool>) -> (r: Vec<bool>)
    ensures
        r@ == bits@,
{
    let mut out: Vec<bool> = Vec::new();
    let n = bits.len();
    for i in 0..n
        invariant
            n == bits@.len(),
            out@ =~= bits@.take(i as int),
    {
        out.push(bits[i]);
        assert(out@ =~= bits@.take(i + 1));
    }
    assert(bits@.take(n as int) =~= bits@);
    out
}

/// An exact copy of an indexed attestation.
fn dup_indexed(ia: &IndexedAttestation) -> (r: IndexedAttestation)
    ensures
        indexed_view_eq(r, *ia),
{
    let mut indices: Vec<u64> = Vec::new();
    let n = ia.attesting_indices.len();
    for i in 0..n
        invariant
            n == ia.attesting_indices@.len(),
            indices@ =~= ia.attesting_indices@.take(i as int),
    {
        indices.push(ia.attesting_indices[i]);
        assert(indices@ =~= ia.attesting_indices@.take(i + 1));
    }
    assert(ia.attesting_indices@.take(n as int) =~= ia.attesting_indices@);
    IndexedAttestation { attesting_indices: indices, data: ia.data, signature: ia.signature }
}

/// Filters a committee by its aggregation bits.
fn compute_attesting_indices(committee: &Vec<u64>, bits: &Vec<bool>) -> (r: Vec<u64>)
    requires
        committee@.len() == bits@.len(),
    ensures
        r@ == spec_attesting_indices(committee@, bits@),
{
    let mut out: Vec<u64> = Vec::new();
    let n = committee.len();
    for i in 0..n
        invariant
            n == committee@.len() == bits@.len(),
            out@ == spec_attesting_indices(committee@.take(i as int), bits@.take(i as int)),
    {
        proof {
            let ci = committee@.take(i + 1);
            let bi = bits@.take(i + 1);
            assert(ci.drop_last() =~= committee@.take(i as int));
            assert(bi.drop_last() =~= bits@.take(i as int));
            assert(ci.last() == committee@[i as int]);
            assert(bi.last() == bits@[i as int]);
        }
        if bits[i] {
            out.push(committee[i]);
        }
    }
    assert(committee@.take(n as int) =~= committee@);
    assert(bits@.take(n as int) =~= bits@);
    out
}

} // verus!
