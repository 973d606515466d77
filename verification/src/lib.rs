//! Verification pipeline for consensus-layer beacon blocks.
//!
//! An untrusted block moves monotonically through a linear progression of
//! wrapper types — unverified, gossip-verified, signature-verified,
//! execution-pending — each capturing strictly more validation work than the
//! previous one, so that no check is ever repeated for the same block.

use vstd::prelude::*;

pub mod chain;
pub mod codec;
pub mod context;
pub mod coupling;
pub mod errors;
pub mod fork_choice;
pub mod observation;
pub mod pipeline;
pub mod relevancy;
pub mod roots;
pub mod signatures;
pub mod state;
pub mod store;
pub mod types;

verus! {

/// Number of slots in an epoch.
pub const SLOTS_PER_EPOCH: u64 = 32;

/// Epoch containing a slot.
pub open spec fn spec_epoch_of(slot: u64) -> u64 {
    slot / SLOTS_PER_EPOCH
}

/// Epoch containing `slot`.
pub fn epoch_of(slot: u64) -> (r: u64)
    ensures
        r == spec_epoch_of(slot),
{
    slot / SLOTS_PER_EPOCH
}

} // verus!
