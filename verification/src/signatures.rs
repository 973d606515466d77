//! Batched signature verification: every signature of a block — proposal,
//! RANDAO reveal, aggregate attestations — is collected into one batch of
//! signature sets and checked in a single pass. The batch accepts exactly when
//! every set is individually valid, which is what makes the chain-segment
//! batch path equivalent to verifying each block alone.

use vstd::prelude::*;
use crate::chain::{BeaconChain, ValidatorPubkeyCache};
use crate::context::{spec_cache_coherent, spec_computed_indices, spec_indexed_lookup_error,
    ConsensusContext};
use crate::errors::{BlockSignatureVerifierError, BlockBlobError};
use crate::roots::{attestation_data_words, digest_of, header_root_of,
    compute_attestation_data_root, get_block_header_root};
use crate::state::{BeaconState, StateModel};
use crate::types::{Attestation, Signature, SignedBlock, SignedBlockHeader, DOMAIN_BEACON_ATTESTER,
    DOMAIN_BEACON_PROPOSER, DOMAIN_RANDAO};
use crate::{epoch_of, spec_epoch_of};

verus! {

/// One signature together with everything it must attest to.
#[derive(Clone, Copy, Debug, PartialEq, Eq, Structural)]
pub struct SignatureSet {
    pub pubkey: u64,
    pub object_root: u64,
    pub domain: u64,
    pub fork_version: u64,
    pub genesis_validators_root: u64,
    pub signature: Signature,
}

/// Whether the set's signature attests exactly the expected facts.
pub open spec fn set_valid(s: SignatureSet) -> bool {
    s.signature.spec_is_valid(
        s.pubkey,
        s.object_root,
        s.domain,
        s.fork_version,
        s.genesis_validators_root,
    )
}

/// Whether every set of a batch is valid.
pub open spec fn all_valid(sets: Seq<SignatureSet>) -> bool {
    forall|i: int| 0 <= i < sets.len() ==> set_valid(#[trigger] sets[i])
}

/// The aggregate public key of the validators at `indices`: the exclusive-or
/// of their keys, or the first index with no key, scanning left to right.
pub open spec fn spec_aggregate_pubkey(pubkeys: Seq<u64>, indices: Seq<u64>) -> Result<u64, u64>
    decreases indices.len(),
{
    if indices.len() == 0 {
        Ok(0u64)
    } else if indices.first() >= pubkeys.len() {
        Err(indices.first())
    } else {
        match spec_aggregate_pubkey(pubkeys, indices.drop_first()) {
            Ok(rest) => Ok(pubkeys[indices.first() as int] ^ rest),
            Err(i) => Err(i),
        }
    }
}

/// The signature set of one aggregate attestation on `state`, or the error
/// collecting it reports: the attesting indices are resolved from the
/// committee, their keys aggregated, and the signature must cover the root of
/// the attestation's data under the attester domain.
pub open spec fn spec_attestation_set(
    state: StateModel,
    pubkeys: Seq<u64>,
    att: Attestation,
) -> Result<SignatureSet, BlockSignatureVerifierError> {
    match spec_computed_indices(state, att.spec_data(), att.spec_aggregation_bits()) {
        Some(indices) => match spec_aggregate_pubkey(pubkeys, indices) {
            Ok(aggregate) => Ok(
                SignatureSet {
                    pubkey: aggregate,
                    object_root: digest_of(attestation_data_words(att.spec_data())),
                    domain: DOMAIN_BEACON_ATTESTER,
                    fork_version: state.fork_version,
                    genesis_validators_root: state.genesis_validators_root,
                    signature: att.spec_signature(),
                },
            ),
            Err(i) => Err(BlockSignatureVerifierError::ValidatorUnknown(i)),
        },
        None => Err(
            BlockSignatureVerifierError::ContextError(
                spec_indexed_lookup_error(state, att.spec_data(), att.spec_aggregation_bits()),
            ),
        ),
    }
}

/// The signature sets of a list of attestations, or the first error.
pub open spec fn spec_attestation_sets(
    state: StateModel,
    pubkeys: Seq<u64>,
    atts: Seq<Attestation>,
) -> Result<Seq<SignatureSet>, BlockSignatureVerifierError>
    decreases atts.len(),
{
    if atts.len() == 0 {
        Ok(Seq::<SignatureSet>::empty())
    } else {
        match spec_attestation_set(state, pubkeys, atts.first()) {
            Ok(s) => match spec_attestation_sets(state, pubkeys, atts.drop_first()) {
                Ok(rest) => Ok(seq![s] + rest),
                Err(e) => Err(e),
            },
            Err(e) => Err(e),
        }
    }
}

/// The proposal signature set of a block: the proposer's signature over the
/// block's root under the proposer domain.
pub open spec fn spec_proposal_set(
    state: StateModel,
    pubkeys: Seq<u64>,
    block: SignedBlock,
    proposer: u64,
    block_root: u64,
) -> SignatureSet
    recommends
        proposer < pubkeys.len(),
{
    SignatureSet {
        pubkey: pubkeys[proposer as int],
        object_root: block_root,
        domain: DOMAIN_BEACON_PROPOSER,
        fork_version: state.fork_version,
        genesis_validators_root: state.genesis_validators_root,
        signature: block.signature,
    }
}

/// The RANDAO-reveal signature set of a block: the proposer's signature over
/// the block's epoch under the RANDAO domain.
pub open spec fn spec_randao_set(
    state: StateModel,
    pubkeys: Seq<u64>,
    block: SignedBlock,
    proposer: u64,
) -> SignatureSet
    recommends
        proposer < pubkeys.len(),
{
    SignatureSet {
        pubkey: pubkeys[proposer as int],
        object_root: spec_epoch_of(block.message.slot),
        domain: DOMAIN_RANDAO,
        fork_version: state.fork_version,
        genesis_validators_root: state.genesis_validators_root,
        signature: block.message.body.randao_reveal,
    }
}

/// Every signature set of a block except the proposal: the RANDAO reveal and
/// the attestations, or the first error collecting them.
pub open spec fn spec_non_proposal_sets(
    state: StateModel,
    pubkeys: Seq<u64>,
    block: SignedBlock,
    proposer: u64,
) -> Result<Seq<SignatureSet>, BlockSignatureVerifierError> {
    if proposer >= pubkeys.len() {
        Err(BlockSignatureVerifierError::ValidatorUnknown(proposer))
    } else {
        match spec_attestation_sets(state, pubkeys, block.message.body.attestations@) {
            Ok(att_sets) => Ok(seq![spec_randao_set(state, pubkeys, block, proposer)] + att_sets),
            Err(e) => Err(e),
        }
    }
}

/// Every signature set of a block: the proposal first, then the rest.
pub open spec fn spec_all_sets(
    state: StateModel,
    pubkeys: Seq<u64>,
    block: SignedBlock,
    proposer: u64,
    block_root: u64,
) -> Result<Seq<SignatureSet>, BlockSignatureVerifierError> {
    if proposer >= pubkeys.len() {
        Err(BlockSignatureVerifierError::ValidatorUnknown(proposer))
    } else {
        match spec_non_proposal_sets(state, pubkeys, block, proposer) {
            Ok(rest) => Ok(seq![spec_proposal_set(state, pubkeys, block, proposer, block_root)]
                + rest),
            Err(e) => Err(e),
        }
    }
}

/// The guarded public keys a verifier resolves against: the cache, truncated
/// to the state's registry so no key beyond the state can be used.
pub open spec fn spec_guarded_pubkeys(cache: Seq<u64>, n_validators: nat) -> Seq<u64> {
    if cache.len() <= n_validators {
        cache
    } else {
        cache.take(n_validators as int)
    }
}

/// A batch signature verifier. Sets are added per block and the whole batch
/// is checked in one pass: it accepts exactly when every set is valid.
pub struct BlockSignatureVerifier {
    pubkeys: Vec<u64>,
    sets: Vec<SignatureSet>,
}

impl BlockSignatureVerifier {
    /// The keys the verifier resolves validator indices against.
    pub closed spec fn view_pubkeys(self) -> Seq<u64> {
        self.pubkeys@
    }

    /// The signature sets collected so far.
    pub closed spec fn view_sets(self) -> Seq<SignatureSet> {
        self.sets@
    }

    /// The key of a validator index, if the guarded cache holds one.
    fn get_pubkey(&self, validator_index: u64) -> (r: Option<u64>)
        ensures
            r == (if validator_index < self.view_pubkeys().len() {
                Some(self.view_pubkeys()[validator_index as int])
            } else {
                None::<u64>
            }),
    {
        if validator_index < self.pubkeys.len() as u64 {
            Some(self.pubkeys[validator_index as usize])
        } else {
            None
        }
    }

    /// Collects the proposal signature set of `block`. The resolved proposer
    /// must match the block's declared one exactly.
    pub fn include_block_proposal(
        &mut self,
        state: &BeaconState,
        block: &SignedBlock,
        ctx: &mut ConsensusContext,
    ) -> (r: Result<(), BlockSignatureVerifierError>)
        ensures
            final(self).view_pubkeys() == old(self).view_pubkeys(),
            final(ctx).spec_slot() == old(ctx).spec_slot(),
            final(ctx).spec_indexed_attestations() == old(ctx).spec_indexed_attestations(),
            old(ctx).spec_current_block_root() is Some ==> final(ctx).spec_current_block_root()
                == old(ctx).spec_current_block_root(),
            match r {
                Ok(()) => {
                    &&& spec_epoch_of(state.slot) == spec_epoch_of(old(ctx).spec_slot())
                    &&& old(ctx).spec_resolved_proposer(state@) matches Some(p)
                    &&& block.message.proposer_index == p
                    &&& p < old(self).view_pubkeys().len()
                    &&& final(self).view_sets() == old(self).view_sets().push(
                        spec_proposal_set(
                            state@,
                            old(self).view_pubkeys(),
                            *block,
                            p,
                            old(ctx).spec_resolved_block_root(*block),
                        ),
                    )
                    &&& final(ctx).spec_proposer_index() == Some(p)
                    &&& final(ctx).spec_current_block_root() == Some(
                        old(ctx).spec_resolved_block_root(*block),
                    )
                    &&& block.message.slot == old(ctx).spec_slot()
                },
                Err(e) => *final(self) == *old(self) && spec_proposal_verdict(
                    state@,
                    old(self).view_pubkeys(),
                    *block,
                    old(ctx).spec_slot(),
                    old(ctx).spec_proposer_index(),
                    old(ctx).spec_current_block_root(),
                ) == Err::<SignatureSet, BlockSignatureVerifierError>(e),
            },
    {
        let proposer = match ctx.get_proposer_index_from_epoch_state(state) {
            Ok(p) => p,
            Err(e) => {
                return Err(BlockSignatureVerifierError::ContextError(e));
            },
        };
        if block.message.proposer_index != proposer {
            return Err(
                BlockSignatureVerifierError::IncorrectBlockProposer {
                    block: block.message.proposer_index,
                    local_shuffling: proposer,
                },
            );
        }
        let pubkey = match self.get_pubkey(proposer) {
            Some(pk) => pk,
            None => {
                return Err(BlockSignatureVerifierError::ValidatorUnknown(proposer));
            },
        };
        let block_root = match ctx.get_current_block_root(block) {
            Ok(root) => root,
            Err(e) => {
                return Err(BlockSignatureVerifierError::ContextError(e));
            },
        };
        self.sets.push(
            SignatureSet {
                pubkey,
                object_root: block_root,
                domain: DOMAIN_BEACON_PROPOSER,
                fork_version: state.fork_version,
                genesis_validators_root: state.genesis_validators_root,
                signature: block.signature,
            },
        );
        Ok(())
    }

    /// Collects the RANDAO-reveal signature set of `block`.
    pub fn include_randao_reveal(
        &mut self,
        state: &BeaconState,
        block: &SignedBlock,
        ctx: &mut ConsensusContext,
    ) -> (r: Result<(), BlockSignatureVerifierError>)
        ensures
            final(self).view_pubkeys() == old(self).view_pubkeys(),
            final(ctx).spec_slot() == old(ctx).spec_slot(),
            final(ctx).spec_indexed_attestations() == old(ctx).spec_indexed_attestations(),
            final(ctx).spec_current_block_root() == old(ctx).spec_current_block_root(),
            old(ctx).spec_proposer_index() is Some ==> final(ctx).spec_proposer_index() == old(ctx).spec_proposer_index(),
            match r {
                Ok(()) => {
                    &&& spec_epoch_of(state.slot) == spec_epoch_of(old(ctx).spec_slot())
                    &&& old(ctx).spec_resolved_proposer(state@) matches Some(p)
                    &&& p < old(self).view_pubkeys().len()
                    &&& final(self).view_sets() == old(self).view_sets().push(
                        spec_randao_set(state@, old(self).view_pubkeys(), *block, p),
                    )
                    &&& final(ctx).spec_proposer_index() == Some(p)
                },
                Err(e) => *final(self) == *old(self) && spec_randao_verdict(
                    state@,
                    old(self).view_pubkeys(),
                    old(ctx).spec_slot(),
                    old(ctx).spec_proposer_index(),
                ) == Err::<u64, BlockSignatureVerifierError>(e),
            },
    {
        let proposer = match ctx.get_proposer_index_from_epoch_state(state) {
            Ok(p) => p,
            Err(e) => {
                return Err(BlockSignatureVerifierError::ContextError(e));
            },
        };
        let pubkey = match self.get_pubkey(proposer) {
            Some(pk) => pk,
            None => {
                return Err(BlockSignatureVerifierError::ValidatorUnknown(proposer));
            },
        };
        self.sets.push(
            SignatureSet {
                pubkey,
                object_root: epoch_of(block.message.slot),
                domain: DOMAIN_RANDAO,
                fork_version: state.fork_version,
                genesis_validators_root: state.genesis_validators_root,
                signature: block.message.body.randao_reveal,
            },
        );
        Ok(())
    }

    /// Collects one signature set per aggregate attestation in `block`.
    pub fn include_attestations(
        &mut self,
        state: &BeaconState,
        block: &SignedBlock,
        ctx: &mut ConsensusContext,
    ) -> (r: Result<(), BlockSignatureVerifierError>)
        requires
            spec_cache_coherent(*old(ctx), state@),
        ensures
            final(self).view_pubkeys() == old(self).view_pubkeys(),
            final(ctx).spec_slot() == old(ctx).spec_slot(),
            final(ctx).spec_proposer_index() == old(ctx).spec_proposer_index(),
            final(ctx).spec_current_block_root() == old(ctx).spec_current_block_root(),
            spec_cache_coherent(*final(ctx), state@),
            match r {
                Ok(()) => spec_attestation_sets(
                    state@,
                    old(self).view_pubkeys(),
                    block.message.body.attestations@,
                ) matches Ok(att_sets) && final(self).view_sets() == old(self).view_sets()
                    + att_sets,
                Err(e) => spec_attestation_sets(
                    state@,
                    old(self).view_pubkeys(),
                    block.message.body.attestations@,
                ) == Err::<Seq<SignatureSet>, BlockSignatureVerifierError>(e),
            },
    {
        let n = block.message.body.attestations.len();
        let ghost atts = block.message.body.attestations@;
        let ghost pubkeys = self.view_pubkeys();
        let ghost sets0 = self.view_sets();
        proof {
            assert(atts.skip(0) =~= atts);
        }
        for i in 0..n
            invariant
                n == atts.len(),
                atts == block.message.body.attestations@,
                pubkeys == old(self).view_pubkeys(),
                pubkeys == self.view_pubkeys(),
                sets0 == old(self).view_sets(),
                spec_cache_coherent(*ctx, state@),
                ctx.spec_slot() == old(ctx).spec_slot(),
                ctx.spec_proposer_index() == old(ctx).spec_proposer_index(),
                ctx.spec_current_block_root() == old(ctx).spec_current_block_root(),
                spec_attestation_sets(state@, pubkeys, atts.take(i as int)) matches Ok(done_sets)
                    && self.view_sets() == sets0 + done_sets,
                (match spec_attestation_sets(state@, pubkeys, atts) {
                    Ok(_) => spec_attestation_sets(state@, pubkeys, atts.take(i as int)) is Ok
                        && spec_attestation_sets(state@, pubkeys, atts.skip(i as int)) is Ok,
                    Err(e) => spec_attestation_sets(state@, pubkeys, atts.take(i as int)) is Ok
                        ==> spec_attestation_sets(state@, pubkeys, atts.skip(i as int)) == Err::<
                        Seq<SignatureSet>,
                        BlockSignatureVerifierError,
                    >(e),
                }),
                (match spec_attestation_sets(state@, pubkeys, atts) {
                    Ok(all) => all == spec_attestation_sets(
                        state@,
                        pubkeys,
                        atts.take(i as int),
                    ).unwrap() + spec_attestation_sets(state@, pubkeys, atts.skip(i as int)).unwrap(),
                    Err(_) => true,
                }),
        {
            proof {
                assert(atts.skip(i as int).first() == atts[i as int]);
                assert(atts.skip(i as int).drop_first() =~= atts.skip(i + 1));
            }
            let att = &block.message.body.attestations[i];
            let indexed = match ctx.get_indexed_attestation(state, att) {
                Ok(ia) => ia,
                Err(e) => {
                    proof {
                        lemma_attestation_sets_step(state@, pubkeys, atts, i as int);
                    }
                    return Err(BlockSignatureVerifierError::ContextError(e));
                },
            };
            let mut aggregate: u64 = 0;
            let m = indexed.attesting_indices.len();
            let ghost indices = indexed.attesting_indices@;
            proof {
                assert(indices.skip(0) =~= indices);
            }
            let mut j: usize = 0;
            let mut bad_index: Option<u64> = None;
            proof {
                if spec_aggregate_pubkey(pubkeys, indices) is Ok {
                    let rest = spec_aggregate_pubkey(pubkeys, indices).unwrap();
                    assert(0u64 ^ rest == rest) by (bit_vector);
                }
            }
            while j < m
                invariant
                    j <= m,
                    m == indices.len(),
                    indices == indexed.attesting_indices@,
                    pubkeys == old(self).view_pubkeys(),
                    pubkeys == self.view_pubkeys(),
                    sets0 == old(self).view_sets(),
                    spec_attestation_sets(state@, pubkeys, atts.take(i as int)) matches Ok(
                        done_sets,
                    ) && self.view_sets() == sets0 + done_sets,
                    spec_computed_indices(
                        state@,
                        atts[i as int].spec_data(),
                        atts[i as int].spec_aggregation_bits(),
                    ) == Some(indices),
                    (match spec_attestation_sets(state@, pubkeys, atts) {
                        Ok(_) => spec_attestation_sets(state@, pubkeys, atts.take(i as int)) is Ok
                            && spec_attestation_sets(state@, pubkeys, atts.skip(i as int)) is Ok,
                        Err(e) => spec_attestation_sets(state@, pubkeys, atts.take(i as int)) is Ok
                            ==> spec_attestation_sets(state@, pubkeys, atts.skip(i as int)) == Err::<
                            Seq<SignatureSet>,
                            BlockSignatureVerifierError,
                        >(e),
                    }),
                    bad_index is None ==> spec_aggregate_pubkey(pubkeys, indices)
                        == (match spec_aggregate_pubkey(pubkeys, indices.skip(j as int)) {
                        Ok(rest) => Ok::<u64, u64>(aggregate ^ rest),
                        Err(k) => Err::<u64, u64>(k),
                    }),
                    bad_index matches Some(k) ==> spec_aggregate_pubkey(pubkeys, indices) == Err::<
                        u64,
                        u64,
                    >(k) && j == m,
                decreases m - j,
            {
                proof {
                    assert(indices.skip(j as int).first() == indices[j as int]);
                    assert(indices.skip(j as int).drop_first() =~= indices.skip(j + 1));
                }
                let index = indexed.attesting_indices[j];
                match self.get_pubkey(index) {
                    Some(pk) => {
                        let ghost agg_before = aggregate;
                        aggregate = aggregate ^ pk;
                        proof {
                            lemma_aggregate_skip_step(pubkeys, indices, j as int);
                            if spec_aggregate_pubkey(pubkeys, indices.skip(j + 1)) is Ok {
                                let rest = spec_aggregate_pubkey(
                                    pubkeys,
                                    indices.skip(j + 1),
                                ).unwrap();
                                assert(agg_before ^ (pk ^ rest) == (agg_before ^ pk) ^ rest)
                                    by (bit_vector);
                            }
                        }
                        j = j + 1;
                    },
                    None => {
                        bad_index = Some(index);
                        proof {
                            lemma_aggregate_skip_err(pubkeys, indices, j as int);
                        }
                        j = m;
                    },
                }
            }
            if let Some(k) = bad_index {
                proof {
                    lemma_attestation_sets_step(state@, pubkeys, atts, i as int);
                }
                return Err(BlockSignatureVerifierError::ValidatorUnknown(k));
            }
            proof {
                assert(indices.skip(m as int) =~= Seq::<u64>::empty());
                assert(spec_aggregate_pubkey(pubkeys, indices) == Ok::<u64, u64>(aggregate ^ 0));
                assert(aggregate ^ 0 == aggregate) by (bit_vector);
            }
            let data = att.data();
            let data_root = compute_attestation_data_root(&data);
            self.sets.push(
                SignatureSet {
                    pubkey: aggregate,
                    object_root: data_root,
                    domain: DOMAIN_BEACON_ATTESTER,
                    fork_version: state.fork_version,
                    genesis_validators_root: state.genesis_validators_root,
                    signature: match att {
                        Attestation::Base(a) => a.signature,
                        Attestation::Electra(a) => a.signature,
                    },
                },
            );
            proof {
                lemma_attestation_sets_step(state@, pubkeys, atts, i as int);
                assert(spec_attestation_set(state@, pubkeys, atts[i as int]) == Ok::<
                    SignatureSet,
                    BlockSignatureVerifierError,
                >(self.view_sets().last()));
                assert(spec_attestation_sets(state@, pubkeys, atts.take(i + 1)).unwrap()
                    =~= spec_attestation_sets(state@, pubkeys, atts.take(i as int)).unwrap().push(
                    self.view_sets().last(),
                ));
                assert(self.view_sets() =~= sets0 + spec_attestation_sets(
                    state@,
                    pubkeys,
                    atts.take(i + 1),
                ).unwrap());
            }
        }
        proof {
            assert(atts.take(n as int) =~= atts);
        }
        Ok(())
    }

    /// Collects every signature set of `block`: proposal, RANDAO reveal and
    /// attestations.
    pub fn include_all_signatures(
        &mut self,
        state: &BeaconState,
        block: &SignedBlock,
        ctx: &mut ConsensusContext,
    ) -> (r: Result<(), BlockSignatureVerifierError>)
        requires
            spec_cache_coherent(*old(ctx), state@),
        ensures
            final(self).view_pubkeys() == old(self).view_pubkeys(),
            final(ctx).spec_slot() == old(ctx).spec_slot(),
            old(ctx).spec_current_block_root() is Some ==> final(ctx).spec_current_block_root()
                == old(ctx).spec_current_block_root(),
            spec_cache_coherent(*final(ctx), state@),
            match r {
                Ok(()) => {
                    &&& old(ctx).spec_resolved_proposer(state@) matches Some(p)
                    &&& block.message.proposer_index == p
                    &&& block.message.slot == old(ctx).spec_slot()
                    &&& spec_include_all_verdict(
                        state@,
                        old(self).view_pubkeys(),
                        *block,
                        old(ctx).spec_slot(),
                        old(ctx).spec_proposer_index(),
                        old(ctx).spec_current_block_root(),
                    ) matches Ok(sets) && final(self).view_sets() == old(self).view_sets() + sets
                },
                Err(e) => spec_include_all_verdict(
                    state@,
                    old(self).view_pubkeys(),
                    *block,
                    old(ctx).spec_slot(),
                    old(ctx).spec_proposer_index(),
                    old(ctx).spec_current_block_root(),
                ) == Err::<Seq<SignatureSet>, BlockSignatureVerifierError>(e),
            },
    {
        let ghost sets0 = self.view_sets();
        match self.include_block_proposal(state, block, ctx) {
            Ok(()) => (),
            Err(e) => {
                proof {
                    assert(spec_proposal_verdict(
                        state@,
                        old(self).view_pubkeys(),
                        *block,
                        old(ctx).spec_slot(),
                        old(ctx).spec_proposer_index(),
                        old(ctx).spec_current_block_root(),
                    ) == Err::<SignatureSet, BlockSignatureVerifierError>(e));
                    assert(spec_include_all_verdict(
                        state@,
                        old(self).view_pubkeys(),
                        *block,
                        old(ctx).spec_slot(),
                        old(ctx).spec_proposer_index(),
                        old(ctx).spec_current_block_root(),
                    ) == Err::<Seq<SignatureSet>, BlockSignatureVerifierError>(e));
                }
                return Err(e);
            },
        }
        match self.include_randao_reveal(state, block, ctx) {
            Ok(()) => (),
            Err(e) => {
                proof {
                    let p = old(ctx).spec_resolved_proposer(state@).unwrap();
                    assert(spec_randao_verdict(
                        state@,
                        old(self).view_pubkeys(),
                        old(ctx).spec_slot(),
                        Some(p),
                    ) == Ok::<u64, BlockSignatureVerifierError>(p));
                    assert(false);
                }
                return Err(e);
            },
        }
        match self.include_attestations(state, block, ctx) {
            Ok(()) => (),
            Err(e) => {
                return Err(e);
            },
        }
        proof {
            let p = old(ctx).spec_resolved_proposer(state@).unwrap();
            let root = old(ctx).spec_resolved_block_root(*block);
            let pubkeys = old(self).view_pubkeys();
            let proposal = spec_proposal_set(state@, pubkeys, *block, p, root);
            let randao = spec_randao_set(state@, pubkeys, *block, p);
            let att_sets = spec_attestation_sets(
                state@,
                pubkeys,
                block.message.body.attestations@,
            ).unwrap();
            assert(self.view_sets() =~= sets0 + (seq![proposal, randao] + att_sets));
            assert(spec_include_all_verdict(
                state@,
                pubkeys,
                *block,
                old(ctx).spec_slot(),
                old(ctx).spec_proposer_index(),
                old(ctx).spec_current_block_root(),
            ).unwrap() =~= seq![proposal, randao] + att_sets);
        }
        Ok(())
    }

    /// Collects every signature set of `block` except the proposal, which an
    /// earlier stage has already verified.
    pub fn include_all_signatures_except_proposal(
        &mut self,
        state: &BeaconState,
        block: &SignedBlock,
        ctx: &mut ConsensusContext,
    ) -> (r: Result<(), BlockSignatureVerifierError>)
        requires
            spec_cache_coherent(*old(ctx), state@),
        ensures
            final(self).view_pubkeys() == old(self).view_pubkeys(),
            final(ctx).spec_slot() == old(ctx).spec_slot(),
            final(ctx).spec_current_block_root() == old(ctx).spec_current_block_root(),
            old(ctx).spec_proposer_index() is Some ==> final(ctx).spec_proposer_index() == old(ctx).spec_proposer_index(),
            spec_cache_coherent(*final(ctx), state@),
            match r {
                Ok(()) => {
                    &&& old(ctx).spec_resolved_proposer(state@) matches Some(p)
                    &&& final(ctx).spec_proposer_index() == Some(p)
                    &&& spec_non_proposal_verdict(
                        state@,
                        old(self).view_pubkeys(),
                        *block,
                        old(ctx).spec_slot(),
                        old(ctx).spec_proposer_index(),
                    ) matches Ok(sets) && final(self).view_sets() == old(self).view_sets() + sets
                },
                Err(e) => spec_non_proposal_verdict(
                    state@,
                    old(self).view_pubkeys(),
                    *block,
                    old(ctx).spec_slot(),
                    old(ctx).spec_proposer_index(),
                ) == Err::<Seq<SignatureSet>, BlockSignatureVerifierError>(e),
            },
    {
        let ghost sets0 = self.view_sets();
        match self.include_randao_reveal(state, block, ctx) {
            Ok(()) => (),
            Err(e) => {
                return Err(e);
            },
        }
        match self.include_attestations(state, block, ctx) {
            Ok(()) => (),
            Err(e) => {
                return Err(e);
            },
        }
        proof {
            let p = old(ctx).spec_resolved_proposer(state@).unwrap();
            let pubkeys = old(self).view_pubkeys();
            let randao = spec_randao_set(state@, pubkeys, *block, p);
            let att_sets = spec_attestation_sets(
                state@,
                pubkeys,
                block.message.body.attestations@,
            ).unwrap();
            assert(self.view_sets() =~= sets0 + (seq![randao] + att_sets));
            assert(spec_non_proposal_verdict(
                state@,
                pubkeys,
                *block,
                old(ctx).spec_slot(),
                old(ctx).spec_proposer_index(),
            ).unwrap() =~= seq![randao] + att_sets);
        }
        Ok(())
    }

    /// Verifies the whole batch: accepts exactly when every collected set is
    /// valid. A batch failure does not identify which signature was invalid.
    pub fn verify(&self) -> (r: bool)
        ensures
            r == all_valid(self.view_sets()),
    {
        let n = self.sets.len();
        for i in 0..n
            invariant
                n == self.sets@.len(),
                forall|j: int| 0 <= j < i ==> set_valid(#[trigger] self.sets@[j]),
        {
            let s = &self.sets[i];
            if !s.signature.is_valid(
                s.pubkey,
                s.object_root,
                s.domain,
                s.fork_version,
                s.genesis_validators_root,
            ) {
                return false;
            }
        }
        true
    }
}

/// The error the proposal-set collection reports for a block, if any.
/// The proposer a context with these caches resolves on `state`.
pub open spec fn spec_ctx_proposer(
    state: StateModel,
    ctx_slot: u64,
    cached_proposer: Option<u64>,
) -> Option<u64> {
    match cached_proposer {
        Some(p) => Some(p),
        None => state.proposer_at(ctx_slot),
    }
}

/// The block root a context with these caches resolves for `block`.
pub open spec fn spec_ctx_root(block: SignedBlock, cached_root: Option<u64>) -> u64 {
    match cached_root {
        Some(r) => r,
        None => crate::roots::block_root_of(block.message),
    }
}

/// What collecting the proposal set of a block yields, for a context at
/// `ctx_slot` with the given caches: the set, or the first error — an epoch
/// mismatch, an unresolvable proposer, a proposer other than the block's, a
/// missing key, or a slot mismatch.
pub open spec fn spec_proposal_verdict(
    state: StateModel,
    pubkeys: Seq<u64>,
    block: SignedBlock,
    ctx_slot: u64,
    cached_proposer: Option<u64>,
    cached_root: Option<u64>,
) -> Result<SignatureSet, BlockSignatureVerifierError> {
    let resolved = spec_ctx_proposer(state, ctx_slot, cached_proposer);
    if spec_epoch_of(state.slot) != spec_epoch_of(ctx_slot) {
        Err(
            BlockSignatureVerifierError::ContextError(
                crate::context::ContextError::EpochMismatch {
                    epoch: spec_epoch_of(state.slot),
                    expected: spec_epoch_of(ctx_slot),
                },
            ),
        )
    } else if resolved is None {
        Err(
            BlockSignatureVerifierError::ContextError(
                crate::context::ContextError::BeaconState(state.proposer_lookup_error()),
            ),
        )
    } else if block.message.proposer_index != resolved.unwrap() {
        Err(
            BlockSignatureVerifierError::IncorrectBlockProposer {
                block: block.message.proposer_index,
                local_shuffling: resolved.unwrap(),
            },
        )
    } else if resolved.unwrap() >= pubkeys.len() {
        Err(BlockSignatureVerifierError::ValidatorUnknown(resolved.unwrap()))
    } else if block.message.slot != ctx_slot {
        Err(
            BlockSignatureVerifierError::ContextError(
                crate::context::ContextError::SlotMismatch {
                    slot: block.message.slot,
                    expected: ctx_slot,
                },
            ),
        )
    } else {
        Ok(
            spec_proposal_set(
                state,
                pubkeys,
                block,
                resolved.unwrap(),
                spec_ctx_root(block, cached_root),
            ),
        )
    }
}

/// How the RANDAO-reveal collection resolves its proposer, for a context at
/// `ctx_slot` with the given proposer cache: the proposer index, or the first
/// error — an epoch mismatch, an unresolvable proposer, or a missing key.
pub open spec fn spec_randao_verdict(
    state: StateModel,
    pubkeys: Seq<u64>,
    ctx_slot: u64,
    cached_proposer: Option<u64>,
) -> Result<u64, BlockSignatureVerifierError> {
    let resolved = spec_ctx_proposer(state, ctx_slot, cached_proposer);
    if spec_epoch_of(state.slot) != spec_epoch_of(ctx_slot) {
        Err(
            BlockSignatureVerifierError::ContextError(
                crate::context::ContextError::EpochMismatch {
                    epoch: spec_epoch_of(state.slot),
                    expected: spec_epoch_of(ctx_slot),
                },
            ),
        )
    } else if resolved is None {
        Err(
            BlockSignatureVerifierError::ContextError(
                crate::context::ContextError::BeaconState(state.proposer_lookup_error()),
            ),
        )
    } else if resolved.unwrap() >= pubkeys.len() {
        Err(BlockSignatureVerifierError::ValidatorUnknown(resolved.unwrap()))
    } else {
        Ok(resolved.unwrap())
    }
}

/// What collecting the non-proposal sets of a block yields, for a context at
/// `ctx_slot` with the given proposer cache: the RANDAO set followed by the
/// attestation sets, or the first error.
pub open spec fn spec_non_proposal_verdict(
    state: StateModel,
    pubkeys: Seq<u64>,
    block: SignedBlock,
    ctx_slot: u64,
    cached_proposer: Option<u64>,
) -> Result<Seq<SignatureSet>, BlockSignatureVerifierError> {
    let resolved = spec_ctx_proposer(state, ctx_slot, cached_proposer);
    if spec_epoch_of(state.slot) != spec_epoch_of(ctx_slot) {
        Err(
            BlockSignatureVerifierError::ContextError(
                crate::context::ContextError::EpochMismatch {
                    epoch: spec_epoch_of(state.slot),
                    expected: spec_epoch_of(ctx_slot),
                },
            ),
        )
    } else if resolved is None {
        Err(
            BlockSignatureVerifierError::ContextError(
                crate::context::ContextError::BeaconState(state.proposer_lookup_error()),
            ),
        )
    } else if resolved.unwrap() >= pubkeys.len() {
        Err(BlockSignatureVerifierError::ValidatorUnknown(resolved.unwrap()))
    } else {
        match spec_attestation_sets(state, pubkeys, block.message.body.attestations@) {
            Ok(att_sets) => Ok(
                seq![spec_randao_set(state, pubkeys, block, resolved.unwrap())] + att_sets,
            ),
            Err(e) => Err(e),
        }
    }
}

/// What collecting every set of a block yields, for a context at `ctx_slot`
/// with the given caches: the proposal set, the RANDAO set and the
/// attestation sets in order, or the first error.
pub open spec fn spec_include_all_verdict(
    state: StateModel,
    pubkeys: Seq<u64>,
    block: SignedBlock,
    ctx_slot: u64,
    cached_proposer: Option<u64>,
    cached_root: Option<u64>,
) -> Result<Seq<SignatureSet>, BlockSignatureVerifierError> {
    match spec_proposal_verdict(state, pubkeys, block, ctx_slot, cached_proposer, cached_root) {
        Err(e) => Err(e),
        Ok(proposal_set) => {
            let p = spec_ctx_proposer(state, ctx_slot, cached_proposer).unwrap();
            match spec_attestation_sets(state, pubkeys, block.message.body.attestations@) {
                Err(e) => Err(e),
                Ok(att_sets) => Ok(
                    seq![proposal_set, spec_randao_set(state, pubkeys, block, p)] + att_sets,
                ),
            }
        },
    }
}

/// Produces an empty signature verifier for `state`: no sets collected yet,
/// keys resolved through the cache but never beyond the state's registry.
pub fn get_signature_verifier(
    state: &BeaconState,
    validator_pubkey_cache: &ValidatorPubkeyCache,
) -> (r: BlockSignatureVerifier)
    ensures
        r.view_pubkeys() == spec_guarded_pubkeys(
            validator_pubkey_cache.view_pubkeys(),
            state@.validators.len(),
        ),
        r.view_sets() == Seq::<SignatureSet>::empty(),
{
    let limit = if validator_pubkey_cache.len() <= state.validators.len() {
        validator_pubkey_cache.len()
    } else {
        state.validators.len()
    };
    let mut pubkeys: Vec<u64> = Vec::new();
    let ghost cache = validator_pubkey_cache.view_pubkeys();
    for i in 0..limit
        invariant
            limit <= cache.len(),
            cache == validator_pubkey_cache.view_pubkeys(),
            pubkeys@ =~= cache.take(i as int),
    {
        let pk = match validator_pubkey_cache.get(i) {
            Some(pk) => pk,
            None => 0,
        };
        pubkeys.push(pk);
        assert(pubkeys@ =~= cache.take(i + 1));
    }
    proof {
        if cache.len() <= state@.validators.len() {
            assert(cache.take(limit as int) =~= cache);
        }
    }
    BlockSignatureVerifier { pubkeys, sets: Vec::new() }
}

/// Whether a header's proposal signature is valid on this chain: signed by the
/// cached key of its declared proposer, over the header's root, under the
/// proposer domain of the head fork.
pub open spec fn spec_header_signature_valid(chain: BeaconChain, header: SignedBlockHeader) -> bool {
    &&& header.message.proposer_index < chain.validator_pubkey_cache.view_pubkeys().len()
    &&& header.signature.spec_is_valid(
        chain.validator_pubkey_cache.view_pubkeys()[header.message.proposer_index as int],
        header_root_of(header.message),
        DOMAIN_BEACON_PROPOSER,
        chain.head_fork_version,
        chain.genesis_validators_root,
    )
}

/// Verifies that `header` was signed with a valid signature from its
/// proposer, independent of any block: used before forwarding slashing
/// evidence.
pub fn verify_header_signature<E: BlockBlobError>(
    chain: &BeaconChain,
    header: &SignedBlockHeader,
) -> (r: Result<(), E>)
    ensures
        match r {
            Ok(()) => spec_header_signature_valid(*chain, *header),
            Err(e) => !spec_header_signature_valid(*chain, *header) && e == (
            if header.message.proposer_index
                >= chain.validator_pubkey_cache.view_pubkeys().len() {
                E::spec_unknown_validator(header.message.proposer_index)
            } else {
                E::spec_proposer_signature_invalid()
            }),
        },
{
    if header.message.proposer_index >= chain.validator_pubkey_cache.len() as u64 {
        return Err(E::unknown_validator_error(header.message.proposer_index));
    }
    let proposer_pubkey = match chain.validator_pubkey_cache.get(
        header.message.proposer_index as usize,
    ) {
        Some(pk) => pk,
        None => {
            assert(false);
            return Err(E::unknown_validator_error(header.message.proposer_index));
        },
    };
    let root = get_block_header_root(header);
    if header.signature.is_valid(
        proposer_pubkey,
        root,
        DOMAIN_BEACON_PROPOSER,
        chain.head_fork_version,
        chain.genesis_validators_root,
    ) {
        Ok(())
    } else {
        Err(E::proposer_signature_invalid())
    }
}

/// One aggregation step: consuming the index at `j` folds its key into the
/// running aggregate.
proof fn lemma_aggregate_skip_step(pubkeys: Seq<u64>, indices: Seq<u64>, j: int)
    requires
        0 <= j < indices.len(),
        indices[j] < pubkeys.len(),
    ensures
        spec_aggregate_pubkey(pubkeys, indices.skip(j)) == (match spec_aggregate_pubkey(
            pubkeys,
            indices.skip(j + 1),
        ) {
            Ok(rest) => Ok::<u64, u64>(pubkeys[indices[j] as int] ^ rest),
            Err(k) => Err::<u64, u64>(k),
        }),
{
    assert(indices.skip(j).first() == indices[j]);
    assert(indices.skip(j).drop_first() =~= indices.skip(j + 1));
}

/// An out-of-range index at `j` makes the whole aggregation fail with it.
proof fn lemma_aggregate_skip_err(pubkeys: Seq<u64>, indices: Seq<u64>, j: int)
    requires
        0 <= j < indices.len(),
        indices[j] >= pubkeys.len(),
    ensures
        spec_aggregate_pubkey(pubkeys, indices.skip(j)) == Err::<u64, u64>(indices[j]),
{
    assert(indices.skip(j).first() == indices[j]);
}

/// Splitting the attestation list at `i`: the sets of the whole list are the
/// sets of the prefix plus the sets of the rest, and the first error of the
/// rest is the whole list's error once the prefix succeeded.
proof fn lemma_attestation_sets_step(
    state: StateModel,
    pubkeys: Seq<u64>,
    atts: Seq<Attestation>,
    i: int,
)
    requires
        0 <= i < atts.len(),
        spec_attestation_sets(state, pubkeys, atts.take(i)) is Ok,
    ensures
        spec_attestation_sets(state, pubkeys, atts.take(i + 1)) == (match spec_attestation_set(
            state,
            pubkeys,
            atts[i],
        ) {
            Ok(s) => Ok::<Seq<SignatureSet>, BlockSignatureVerifierError>(
                spec_attestation_sets(state, pubkeys, atts.take(i)).unwrap().push(s),
            ),
            Err(e) => Err::<Seq<SignatureSet>, BlockSignatureVerifierError>(e),
        }),
        spec_attestation_sets(state, pubkeys, atts.skip(i)) == (match spec_attestation_set(
            state,
            pubkeys,
            atts[i],
        ) {
            Ok(s) => match spec_attestation_sets(state, pubkeys, atts.skip(i + 1)) {
                Ok(rest) => Ok::<Seq<SignatureSet>, BlockSignatureVerifierError>(seq![s] + rest),
                Err(e) => Err::<Seq<SignatureSet>, BlockSignatureVerifierError>(e),
            },
            Err(e) => Err::<Seq<SignatureSet>, BlockSignatureVerifierError>(e),
        }),
        (match spec_attestation_sets(state, pubkeys, atts) {
            Ok(all) => spec_attestation_sets(state, pubkeys, atts.skip(i)) is Ok,
            Err(e) => spec_attestation_sets(state, pubkeys, atts.skip(i)) is Err
                ==> spec_attestation_sets(state, pubkeys, atts.skip(i)) == Err::<
                Seq<SignatureSet>,
                BlockSignatureVerifierError,
            >(e),
        }),
        (match spec_attestation_sets(state, pubkeys, atts) {
            Ok(all) => all == spec_attestation_sets(state, pubkeys, atts.take(i)).unwrap()
                + spec_attestation_sets(state, pubkeys, atts.skip(i)).unwrap(),
            Err(_) => true,
        }),
{
    lemma_attestation_sets_split(state, pubkeys, atts, i);
    assert(atts.skip(i).first() == atts[i]);
    assert(atts.skip(i).drop_first() =~= atts.skip(i + 1));
    assert(atts.take(i + 1).take(i) =~= atts.take(i));
    lemma_attestation_sets_split(state, pubkeys, atts.take(i + 1), i);
    let single = atts.take(i + 1).skip(i);
    assert(single.len() == 1);
    assert(single.first() == atts[i]);
    assert(single.drop_first() =~= Seq::<Attestation>::empty());
    assert(spec_attestation_sets(state, pubkeys, Seq::<Attestation>::empty()) == Ok::<
        Seq<SignatureSet>,
        BlockSignatureVerifierError,
    >(Seq::<SignatureSet>::empty()));
    match spec_attestation_set(state, pubkeys, atts[i]) {
        Ok(s) => {
            assert(spec_attestation_sets(state, pubkeys, single) == Ok::<
                Seq<SignatureSet>,
                BlockSignatureVerifierError,
            >(seq![s] + Seq::<SignatureSet>::empty()));
            assert(spec_attestation_sets(state, pubkeys, atts.take(i + 1)).unwrap()
                =~= spec_attestation_sets(state, pubkeys, atts.take(i)).unwrap().push(s));
            lemma_attestation_sets_split(state, pubkeys, atts, i + 1);
        },
        Err(e) => {
            assert(spec_attestation_sets(state, pubkeys, single) == Err::<
                Seq<SignatureSet>,
                BlockSignatureVerifierError,
            >(e));
            assert(spec_attestation_sets(state, pubkeys, atts.take(i + 1)) == Err::<
                Seq<SignatureSet>,
                BlockSignatureVerifierError,
            >(e));
        },
    }
}

/// The sets of a list split at `i`: once the prefix succeeds, the whole list's
/// outcome is the prefix's sets followed by the rest's outcome.
proof fn lemma_attestation_sets_split(
    state: StateModel,
    pubkeys: Seq<u64>,
    atts: Seq<Attestation>,
    i: int,
)
    requires
        0 <= i <= atts.len(),
        spec_attestation_sets(state, pubkeys, atts.take(i)) is Ok,
    ensures
        (match spec_attestation_sets(state, pubkeys, atts) {
            Ok(all) => spec_attestation_sets(state, pubkeys, atts.skip(i)) matches Ok(rest) && all
                == spec_attestation_sets(state, pubkeys, atts.take(i)).unwrap() + rest,
            Err(e) => spec_attestation_sets(state, pubkeys, atts.skip(i)) == Err::<
                Seq<SignatureSet>,
                BlockSignatureVerifierError,
            >(e),
        }),
    decreases i,
{
    if i == 0 {
        assert(atts.skip(0) =~= atts);
        assert(atts.take(0) =~= Seq::<Attestation>::empty());
        match spec_attestation_sets(state, pubkeys, atts) {
            Ok(all) => {
                assert(Seq::<SignatureSet>::empty() + all =~= all);
            },
            Err(_) => {},
        }
    } else {
        assert(atts.take(i).first() == atts[0]);
        assert(atts.len() > 0);
        assert(atts.first() == atts[0]);
        match spec_attestation_set(state, pubkeys, atts[0]) {
            Ok(s) => {
                assert(atts.take(i).drop_first() =~= atts.drop_first().take(i - 1));
                lemma_attestation_sets_split(state, pubkeys, atts.drop_first(), i - 1);
                assert(atts.drop_first().skip(i - 1) =~= atts.skip(i));
                match spec_attestation_sets(state, pubkeys, atts.drop_first()) {
                    Ok(all_rest) => {
                        match spec_attestation_sets(state, pubkeys, atts.skip(i)) {
                            Ok(rest) => {
                                assert(spec_attestation_sets(state, pubkeys, atts).unwrap()
                                    =~= spec_attestation_sets(
                                    state,
                                    pubkeys,
                                    atts.take(i),
                                ).unwrap() + rest);
                            },
                            Err(_) => {},
                        }
                    },
                    Err(_) => {},
                }
            },
            Err(e) => {
                assert(spec_attestation_sets(state, pubkeys, atts.take(i)) is Err);
            },
        }
    }
}

/// Batch equivalence: a combined batch of signature sets verifies exactly
/// when each of its parts verifies alone, so checking a chain segment's
/// blocks in one batch accepts and rejects exactly as checking each block's
/// sets individually would.
pub proof fn lemma_batch_verification_equivalence(a: Seq<SignatureSet>, b: Seq<SignatureSet>)
    ensures
        all_valid(a + b) <==> (all_valid(a) && all_valid(b)),
{
    if all_valid(a + b) {
        assert forall|i: int| 0 <= i < a.len() implies set_valid(#[trigger] a[i]) by {
            assert((a + b)[i] == a[i]);
        }
        assert forall|i: int| 0 <= i < b.len() implies set_valid(#[trigger] b[i]) by {
            assert((a + b)[a.len() + i] == b[i]);
        }
    }
    if all_valid(a) && all_valid(b) {
        assert forall|i: int| 0 <= i < (a + b).len() implies set_valid(#[trigger] (a + b)[i]) by {
            if i < a.len() {
                assert((a + b)[i] == a[i]);
            } else {
                assert((a + b)[i] == b[i - a.len()]);
            }
        }
    }
}

/// The signature sets of a block depend only on the shuffling-relevant parts
/// of the state: two states agreeing on the validator registry, the shuffling
/// seed, the fork version and the genesis root — as two states of the same
/// epoch derived from different parents of that epoch do — yield the same
/// sets for every block, which is what lets one epoch-wide state serve a
/// whole chain segment.
pub proof fn lemma_sets_depend_on_shuffling_only(
    s1: StateModel,
    s2: StateModel,
    pubkeys: Seq<u64>,
    block: SignedBlock,
    proposer: u64,
    block_root: u64,
)
    requires
        s1.validators == s2.validators,
        s1.proposer_seed == s2.proposer_seed,
        s1.fork_version == s2.fork_version,
        s1.genesis_validators_root == s2.genesis_validators_root,
        s1.committee_caches_built,
        s2.committee_caches_built,
    ensures
        spec_all_sets(s1, pubkeys, block, proposer, block_root) == spec_all_sets(
            s2,
            pubkeys,
            block,
            proposer,
            block_root,
        ),
{
    lemma_att_sets_depend_on_shuffling_only(
        s1,
        s2,
        pubkeys,
        block.message.body.attestations@,
    );
}

/// Attestation-set collection also depends only on the shuffling-relevant
/// parts of the state.
proof fn lemma_att_sets_depend_on_shuffling_only(
    s1: StateModel,
    s2: StateModel,
    pubkeys: Seq<u64>,
    atts: Seq<Attestation>,
)
    requires
        s1.validators == s2.validators,
        s1.proposer_seed == s2.proposer_seed,
        s1.fork_version == s2.fork_version,
        s1.genesis_validators_root == s2.genesis_validators_root,
        s1.committee_caches_built,
        s2.committee_caches_built,
    ensures
        spec_attestation_sets(s1, pubkeys, atts) == spec_attestation_sets(s2, pubkeys, atts),
    decreases atts.len(),
{
    if atts.len() > 0 {
        lemma_att_sets_depend_on_shuffling_only(s1, s2, pubkeys, atts.drop_first());
    }
}

} // verus!
