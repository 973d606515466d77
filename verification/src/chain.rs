//! The chain handle the verification pipeline works against: clock, fork
//! choice, store, caches, observation sets and the optional slasher.
//!
//! In the running node these parts sit behind locks; the verified core works
//! on them through exclusive references, and each observe-and-check operation
//! is one atomic method.

use vstd::prelude::*;
use crate::fork_choice::ForkChoiceView;
use crate::errors::BeaconChainError;
use crate::observation::{ObservedBlockProducers, ObservedSlashable};
use crate::state::ChainSpec;
use crate::store::HotColdDB;
use crate::types::SignedBlockHeader;
use crate::{spec_epoch_of, SLOTS_PER_EPOCH};

verus! {

/// A cached proposer assignment: the index and the fork it was derived under.
#[derive(Clone, Copy, Debug, PartialEq, Eq, Structural)]
pub struct Proposer {
    pub index: u64,
    pub fork_version: u64,
}

/// One proposer-shuffling cache entry: the proposers of a whole epoch, keyed
/// by (epoch, shuffling decision root).
pub struct ProposerCacheEntry {
    pub epoch: u64,
    pub decision_root: u64,
    /// Proposer of each slot of the epoch, in slot order.
    pub proposers: Vec<u64>,
    pub fork_version: u64,
}

/// Model of one proposer-cache entry.
pub struct ProposerCacheEntryModel {
    pub epoch: u64,
    pub decision_root: u64,
    pub proposers: Seq<u64>,
    pub fork_version: u64,
}

impl View for ProposerCacheEntry {
    type V = ProposerCacheEntryModel;

    open spec fn view(&self) -> ProposerCacheEntryModel {
        ProposerCacheEntryModel {
            epoch: self.epoch,
            decision_root: self.decision_root,
            proposers: self.proposers@,
            fork_version: self.fork_version,
        }
    }
}

/// The last cached entry for (`epoch`, `decision_root`): last write wins.
pub open spec fn spec_cache_entry_at(
    entries: Seq<ProposerCacheEntryModel>,
    epoch: u64,
    decision_root: u64,
) -> Option<ProposerCacheEntryModel>
    decreases entries.len(),
{
    if entries.len() == 0 {
        None
    } else if entries.last().epoch == epoch && entries.last().decision_root == decision_root {
        Some(entries.last())
    } else {
        spec_cache_entry_at(entries.drop_last(), epoch, decision_root)
    }
}

/// The proposer the cache answers for (`decision_root`, `slot`), if cached.
pub open spec fn spec_cached_proposer(
    entries: Seq<ProposerCacheEntryModel>,
    decision_root: u64,
    slot: u64,
) -> Option<Proposer> {
    match spec_cache_entry_at(entries, spec_epoch_of(slot), decision_root) {
        Some(entry) => if (slot % SLOTS_PER_EPOCH) < entry.proposers.len() {
            Some(
                Proposer {
                    index: entry.proposers[(slot % SLOTS_PER_EPOCH) as int],
                    fork_version: entry.fork_version,
                },
            )
        } else {
            None
        },
        None => None,
    }
}

/// Cache of proposer shufflings, keyed by (epoch, shuffling decision root).
/// Raced writers may both insert; the last write wins.
pub struct BeaconProposerCache {
    entries: Vec<ProposerCacheEntry>,
}

impl BeaconProposerCache {
    /// The cached entries, oldest first.
    pub closed spec fn view_entries(self) -> Seq<ProposerCacheEntryModel> {
        self.entries@.map_values(|e: ProposerCacheEntry| e@)
    }

    /// An empty cache.
    pub fn new() -> (r: Self)
        ensures
            r.view_entries() == Seq::<ProposerCacheEntryModel>::empty(),
    {
        let r = BeaconProposerCache { entries: Vec::new() };
        proof {
            assert(r.view_entries() =~= Seq::<ProposerCacheEntryModel>::empty());
        }
        r
    }

    /// The cached proposer for `slot` under `decision_root`, if present.
    pub fn get_slot(&self, decision_root: u64, slot: u64) -> (r: Option<Proposer>)
        ensures
            r == spec_cached_proposer(self.view_entries(), decision_root, slot),
    {
        let epoch = crate::epoch_of(slot);
        let ghost entries = self.view_entries();
        let n = self.entries.len();
        proof {
            assert(entries.take(n as int) =~= entries);
        }
        let mut i: usize = n;
        while i > 0
            invariant
                i <= n,
                n == self.entries@.len(),
                entries == self.view_entries(),
                entries.len() == n,
                epoch == spec_epoch_of(slot),
                spec_cache_entry_at(entries, epoch, decision_root) == spec_cache_entry_at(
                    entries.take(i as int),
                    epoch,
                    decision_root,
                ),
            decreases i,
        {
            proof {
                assert(entries.take(i as int).last() == entries[i - 1]);
                assert(entries.take(i as int).drop_last() =~= entries.take(i - 1));
                assert(entries[i - 1] == self.entries@[i - 1]@);
            }
            let entry = &self.entries[i - 1];
            if entry.epoch == epoch && entry.decision_root == decision_root {
                let position = (slot % SLOTS_PER_EPOCH) as usize;
                if position < entry.proposers.len() {
                    return Some(
                        Proposer {
                            index: entry.proposers[position],
                            fork_version: entry.fork_version,
                        },
                    );
                } else {
                    return None;
                }
            }
            i = i - 1;
        }
        assert(entries.take(0) =~= Seq::<ProposerCacheEntryModel>::empty());
        None
    }

    /// Primes the cache with a newly derived shuffling. A raced duplicate
    /// insert is tolerated: the last write wins on lookup.
    pub fn insert(&mut self, epoch: u64, decision_root: u64, proposers: Vec<u64>, fork_version: u64)
        ensures
            final(self).view_entries().len() == old(self).view_entries().len() + 1,
            final(self).view_entries().drop_last() == old(self).view_entries(),
            final(self).view_entries().last() == (ProposerCacheEntryModel {
                epoch,
                decision_root,
                proposers: proposers@,
                fork_version,
            }),
    {
        self.entries.push(ProposerCacheEntry { epoch, decision_root, proposers, fork_version });
        proof {
            assert(final(self).view_entries() =~= old(self).view_entries().push(
                ProposerCacheEntryModel {
                    epoch,
                    decision_root,
                    proposers: proposers@,
                    fork_version,
                },
            ));
        }
    }
}

/// Indexable cache of validator public keys.
pub struct ValidatorPubkeyCache {
    pubkeys: Vec<u64>,
}

impl ValidatorPubkeyCache {
    /// The cached public keys, by validator index.
    pub closed spec fn view_pubkeys(self) -> Seq<u64> {
        self.pubkeys@
    }

    /// A cache holding the given keys, by index.
    pub fn new(pubkeys: Vec<u64>) -> (r: Self)
        ensures
            r.view_pubkeys() == pubkeys@,
    {
        ValidatorPubkeyCache { pubkeys }
    }

    /// The key of validator `validator_index`, if known.
    pub fn get(&self, validator_index: usize) -> (r: Option<u64>)
        ensures
            r == (if validator_index < self.view_pubkeys().len() {
                Some(self.view_pubkeys()[validator_index as int])
            } else {
                None::<u64>
            }),
    {
        if validator_index < self.pubkeys.len() {
            Some(self.pubkeys[validator_index])
        } else {
            None
        }
    }

    /// The index of the validator with this key, if any.
    pub fn get_index(&self, pubkey: u64) -> (r: Option<usize>)
        ensures
            match r {
                Some(i) => i < self.view_pubkeys().len() && self.view_pubkeys()[i as int] == pubkey,
                None => !self.view_pubkeys().contains(pubkey),
            },
    {
        let n = self.pubkeys.len();
        for i in 0..n
            invariant
                n == self.pubkeys@.len(),
                forall|j: int| 0 <= j < i ==> self.pubkeys@[j] != pubkey,
        {
            if self.pubkeys[i] == pubkey {
                return Some(i);
            }
        }
        assert(!self.pubkeys@.contains(pubkey));
        None
    }

    /// Number of cached keys.
    pub fn len(&self) -> (r: usize)
        ensures
            r == self.view_pubkeys().len(),
    {
        self.pubkeys.len()
    }
}

/// An attached slashing detector, which accepts verified block headers.
pub struct Slasher {
    pub accepted_headers: Vec<SignedBlockHeader>,
}

impl Slasher {
    /// A detector that has seen nothing yet.
    pub fn new() -> (r: Self)
        ensures
            r.accepted_headers@ == Seq::<SignedBlockHeader>::empty(),
    {
        Slasher { accepted_headers: Vec::new() }
    }

    /// Ingests a header whose proposer signature has been confirmed valid.
    pub fn accept_block_header(&mut self, header: SignedBlockHeader)
        ensures
            final(self).accepted_headers@ == old(self).accepted_headers@.push(header),
    {
        self.accepted_headers.push(header);
    }
}

/// The chain handle: everything block verification reads and writes.
pub struct BeaconChain {
    pub chain_spec: ChainSpec,
    pub genesis_validators_root: u64,
    /// What the slot clock reads now; absent when the clock cannot be read.
    pub current_slot: Option<u64>,
    /// Fork version of the canonical head, used for header-only checks.
    pub head_fork_version: u64,
    pub fork_choice: ForkChoiceView,
    pub store: HotColdDB,
    pub observed_block_producers: ObservedBlockProducers,
    pub observed_slashable: ObservedSlashable,
    pub validator_pubkey_cache: ValidatorPubkeyCache,
    pub beacon_proposer_cache: BeaconProposerCache,
    pub slasher: Option<Slasher>,
    /// Roots of blocks rejected for preceding finalization, for bookkeeping.
    pub pre_finalization_rejected: Vec<u64>,
}

impl BeaconChain {
    /// Whether the chain handle is well-formed: a sane configuration and a
    /// finalized checkpoint within the slot range.
    pub open spec fn wf(self) -> bool {
        &&& self.chain_spec.wf()
        &&& self.fork_choice.wf()
    }

    /// Reads the slot clock.
    pub fn slot(&self) -> (r: Result<u64, BeaconChainError>)
        ensures
            match self.current_slot {
                Some(slot) => r == Ok::<u64, BeaconChainError>(slot),
                None => r == Err::<u64, BeaconChainError>(BeaconChainError::UnableToReadSlot),
            },
    {
        match self.current_slot {
            Some(slot) => Ok(slot),
            None => Err(BeaconChainError::UnableToReadSlot),
        }
    }

    /// Reads the slot clock with the gossip clock-disparity tolerance added:
    /// a peer's clock may run ahead by up to the configured bound.
    pub fn slot_with_future_tolerance(&self) -> (r: Result<u64, BeaconChainError>)
        ensures
            match self.current_slot {
                Some(slot) => match r {
                    Ok(t) => t == (if slot + self.chain_spec.maximum_gossip_clock_disparity_slots
                        <= u64::MAX {
                        (slot + self.chain_spec.maximum_gossip_clock_disparity_slots) as u64
                    } else {
                        u64::MAX
                    }),
                    Err(_) => false,
                },
                None => r == Err::<u64, BeaconChainError>(BeaconChainError::UnableToReadSlot),
            },
    {
        match self.current_slot {
            Some(slot) => {
                if slot <= u64::MAX - self.chain_spec.maximum_gossip_clock_disparity_slots {
                    Ok(slot + self.chain_spec.maximum_gossip_clock_disparity_slots)
                } else {
                    Ok(u64::MAX)
                }
            },
            None => Err(BeaconChainError::UnableToReadSlot),
        }
    }

    /// Records a block root rejected for preceding finalization. Recording
    /// the same root again changes nothing.
    pub fn pre_finalization_block_rejected(&mut self, block_root: u64)
        ensures
            final(self).pre_finalization_rejected@ == (if old(
                self,
            ).pre_finalization_rejected@.contains(block_root) {
                old(self).pre_finalization_rejected@
            } else {
                old(self).pre_finalization_rejected@.push(block_root)
            }),
            final(self).chain_spec == old(self).chain_spec,
            final(self).genesis_validators_root == old(self).genesis_validators_root,
            final(self).current_slot == old(self).current_slot,
            final(self).head_fork_version == old(self).head_fork_version,
            final(self).fork_choice == old(self).fork_choice,
            final(self).store == old(self).store,
            final(self).observed_block_producers == old(self).observed_block_producers,
            final(self).observed_slashable == old(self).observed_slashable,
            final(self).validator_pubkey_cache == old(self).validator_pubkey_cache,
            final(self).beacon_proposer_cache == old(self).beacon_proposer_cache,
            final(self).slasher == old(self).slasher,
    {
        if !crate::store::contains_root(&self.pre_finalization_rejected, block_root) {
            self.pre_finalization_rejected.push(block_root);
        }
    }
}

} // verus!
