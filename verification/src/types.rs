//! Plain-value data model: blocks, headers, signatures, attestations.
//!
//! Every entity is held as plain integers and vectors so that contracts can
//! speak about it directly. A BLS-style signature is modelled as the tuple of
//! facts it attests to: the signer's public key, the root of the signed
//! object, the domain kind and the fork/genesis context. A signature is valid
//! exactly when those facts match what the verifier expects.

use vstd::prelude::*;

verus! {

/// Domain kind for block-proposal signatures.
pub const DOMAIN_BEACON_PROPOSER: u64 = 0;
/// Domain kind for RANDAO-reveal signatures.
pub const DOMAIN_RANDAO: u64 = 1;
/// Domain kind for attestation signatures.
pub const DOMAIN_BEACON_ATTESTER: u64 = 2;

/// A BLS-style signature, modelled by the facts it attests to.
#[derive(Clone, Copy, Debug, PartialEq, Eq, Structural)]
pub struct Signature {
    /// Public key of the signer.
    pub signer: u64,
    /// Root of the object that was signed.
    pub object_root: u64,
    /// Domain kind (proposal, RANDAO, attestation, ...).
    pub domain: u64,
    /// Fork version under which the object was signed.
    pub fork_version: u64,
    /// Root of the genesis validator set, fixed per chain.
    pub genesis_validators_root: u64,
}

impl Signature {
    /// True when the signature attests exactly the expected facts.
    pub open spec fn spec_is_valid(
        self,
        pubkey: u64,
        object_root: u64,
        domain: u64,
        fork_version: u64,
        genesis_validators_root: u64,
    ) -> bool {
        &&& self.signer == pubkey
        &&& self.object_root == object_root
        &&& self.domain == domain
        &&& self.fork_version == fork_version
        &&& self.genesis_validators_root == genesis_validators_root
    }

    /// Checks the signature against the expected signing facts.
    pub fn is_valid(
        &self,
        pubkey: u64,
        object_root: u64,
        domain: u64,
        fork_version: u64,
        genesis_validators_root: u64,
    ) -> (r: bool)
        ensures
            r == self.spec_is_valid(
                pubkey,
                object_root,
                domain,
                fork_version,
                genesis_validators_root,
            ),
    {
        self.signer == pubkey && self.object_root == object_root && self.domain == domain
            && self.fork_version == fork_version
            && self.genesis_validators_root == genesis_validators_root
    }
}

/// The data every attestation commits to.
#[derive(Clone, Copy, Debug, PartialEq, Eq, Structural)]
pub struct AttestationData {
    pub slot: u64,
    /// Committee index within the slot.
    pub index: u64,
    pub beacon_block_root: u64,
    pub source_epoch: u64,
    pub target_epoch: u64,
}

/// An aggregate attestation in its original (pre-Electra) shape.
#[derive(Clone, Debug, PartialEq, Eq)]
pub struct AttestationBase {
    pub data: AttestationData,
    /// One bit per committee member; set when that member attested.
    pub aggregation_bits: Vec<bool>,
    pub signature: Signature,
}

/// An aggregate attestation in the Electra shape, with committee bits.
#[derive(Clone, Debug, PartialEq, Eq)]
pub struct AttestationElectra {
    pub data: AttestationData,
    pub aggregation_bits: Vec<bool>,
    pub committee_bits: Vec<bool>,
    pub signature: Signature,
}

/// An aggregate attestation, in either fork shape.
#[derive(Clone, Debug, PartialEq, Eq)]
pub enum Attestation {
    Base(AttestationBase),
    Electra(AttestationElectra),
}

impl Attestation {
    /// The committed data, independent of the fork shape.
    pub open spec fn spec_data(self) -> AttestationData {
        match self {
            Attestation::Base(a) => a.data,
            Attestation::Electra(a) => a.data,
        }
    }

    /// The aggregation bits, independent of the fork shape.
    pub open spec fn spec_aggregation_bits(self) -> Seq<bool> {
        match self {
            Attestation::Base(a) => a.aggregation_bits@,
            Attestation::Electra(a) => a.aggregation_bits@,
        }
    }

    /// The aggregate signature, independent of the fork shape.
    pub open spec fn spec_signature(self) -> Signature {
        match self {
            Attestation::Base(a) => a.signature,
            Attestation::Electra(a) => a.signature,
        }
    }

    /// The committed data.
    pub fn data(&self) -> (r: AttestationData)
        ensures
            r == self.spec_data(),
    {
        match self {
            Attestation::Base(a) => a.data,
            Attestation::Electra(a) => a.data,
        }
    }
}

/// An attestation whose participants have been resolved to validator indices.
#[derive(Clone, Debug, PartialEq, Eq)]
pub struct IndexedAttestation {
    pub attesting_indices: Vec<u64>,
    pub data: AttestationData,
    pub signature: Signature,
}

/// Two attestations by overlapping validators that contradict each other.
#[derive(Clone, Debug, PartialEq, Eq)]
pub struct AttesterSlashing {
    pub attestation_1: IndexedAttestation,
    pub attestation_2: IndexedAttestation,
}

/// The execution-layer payload carried by a post-merge block.
#[derive(Clone, Copy, Debug, PartialEq, Eq, Structural)]
pub struct ExecutionPayload {
    /// Hash of the parent execution block.
    pub parent_hash: u64,
    /// Hash of this execution block.
    pub block_hash: u64,
    /// Timestamp declared by the payload; must match the slot.
    pub timestamp: u64,
}

/// The operations and payload carried by a block.
#[derive(Clone, Debug, PartialEq, Eq)]
pub struct BlockBody {
    /// Proposer's RANDAO reveal: a signature over the block's epoch.
    pub randao_reveal: Signature,
    pub attestations: Vec<Attestation>,
    pub attester_slashings: Vec<AttesterSlashing>,
    /// Present exactly on forks that carry an execution payload.
    pub execution_payload: Option<ExecutionPayload>,
}

/// An (unsigned) beacon block.
#[derive(Clone, Debug, PartialEq, Eq)]
pub struct Block {
    pub slot: u64,
    pub proposer_index: u64,
    pub parent_root: u64,
    pub state_root: u64,
    pub body: BlockBody,
}

/// A beacon block together with the proposer's signature.
#[derive(Clone, Debug, PartialEq, Eq)]
pub struct SignedBlock {
    pub message: Block,
    pub signature: Signature,
}

impl SignedBlock {
    /// Slot of the wrapped block.
    pub fn slot(&self) -> (r: u64)
        ensures
            r == self.message.slot,
    {
        self.message.slot
    }

    /// Parent root of the wrapped block.
    pub fn parent_root(&self) -> (r: u64)
        ensures
            r == self.message.parent_root,
    {
        self.message.parent_root
    }
}

/// The fixed-size summary of a block: its body stands in as a single root.
#[derive(Clone, Copy, Debug, PartialEq, Eq, Structural)]
pub struct BlockHeader {
    pub slot: u64,
    pub proposer_index: u64,
    pub parent_root: u64,
    pub state_root: u64,
    pub body_root: u64,
}

/// A block header together with the proposer's signature.
#[derive(Clone, Copy, Debug, PartialEq, Eq, Structural)]
pub struct SignedBlockHeader {
    pub message: BlockHeader,
    pub signature: Signature,
}

/// Whether data submitted for signing is safe from slashing.
#[derive(Clone, Copy, Debug, PartialEq, Eq, Structural)]
pub enum Safe {
    /// Casting the exact same data (block or attestation) twice is never slashable.
    SameData,
    /// Incoming data is safe from slashing, and is not a duplicate.
    Valid,
}

/// An attestation together with the facts its slashing-safety check used.
#[derive(Clone, Debug, PartialEq, Eq)]
pub struct AttestationSafety {
    pub attestation: Attestation,
    pub validator_pubkey: u64,
    pub domain: u64,
    pub safe: Safe,
}

/// A single (unaggregated) attestation by one validator.
#[derive(Clone, Copy, Debug, PartialEq, Eq, Structural)]
pub struct SingleAttestation {
    pub committee_index: u64,
    pub attester_index: u64,
    pub data: AttestationData,
    pub signature: Signature,
}

/// A single attestation that has been fully verified for gossip propagation,
/// together with its resolved indexed form and subnet.
#[derive(Clone, Debug, PartialEq, Eq)]
pub struct VerifiedSingleAttestation {
    pub attestation: SingleAttestation,
    pub indexed_attestation: IndexedAttestation,
    pub subnet_id: u64,
}

/// An attestation recorded in the state but not yet fully processed,
/// in its original shape.
#[derive(Clone, Debug, PartialEq, Eq)]
pub struct PendingAttestationBase {
    pub aggregation_bits: Vec<bool>,
    pub data: AttestationData,
    pub inclusion_delay: u64,
    pub proposer_index: u64,
}

/// An attestation recorded in the state but not yet fully processed,
/// in the Electra shape.
#[derive(Clone, Debug, PartialEq, Eq)]
pub struct PendingAttestationElectra {
    pub aggregation_bits: Vec<bool>,
    pub data: AttestationData,
    pub inclusion_delay: u64,
    pub proposer_index: u64,
    pub committee_bits: Vec<bool>,
}

/// An attestation recorded in the state but not yet fully processed.
#[derive(Clone, Debug, PartialEq, Eq)]
pub enum PendingAttestation {
    Base(PendingAttestationBase),
    Electra(PendingAttestationElectra),
}

} // verus!
