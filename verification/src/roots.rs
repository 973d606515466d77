//! Content addressing: every block, header and state is identified by the
//! Merkle digest of its canonical word encoding.
//!
//! A block's canonical root is defined as the root of its header, where the
//! header summarises the body by the body's own root. Block and header
//! therefore agree on one root, and it is computed once per block.

use vstd::prelude::*;
use crate::types::{Attestation, AttestationData, Block, BlockBody, BlockHeader, IndexedAttestation,
    Signature, SignedBlock, SignedBlockHeader};

verus! {

/// Digest of a word sequence, as computed by the Merkle root function of the
/// `tree_hash` crate (truncated to its leading eight bytes). A pure function
/// of the words alone.
pub uninterp spec fn digest_of(words: Seq<u64>) -> u64;

/// Relies on tree_hash::merkle_root: a deterministic Merkle digest of the
/// input bytes. The words are serialised in order as little-endian bytes and
/// the digest's leading eight bytes are kept.
#[verifier::external_body]
fn digest_words(words: &Vec<u64>) -> (r: u64)
    ensures
        r == digest_of(words@),
{
    let mut bytes: Vec<u8> = Vec::with_capacity(words.len() * 8);
    for w in words {
        bytes.extend_from_slice(&w.to_le_bytes());
    }
    let root = tree_hash::merkle_root(&bytes, 0);
    let mut prefix = [0u8; 8];
    prefix.copy_from_slice(&root.as_slice()[0..8]);
    u64::from_le_bytes(prefix)
}

/// Canonical word encoding of a signature.
pub open spec fn signature_words(s: Signature) -> Seq<u64> {
    seq![s.signer, s.object_root, s.domain, s.fork_version, s.genesis_validators_root]
}

/// Canonical word encoding of attestation data.
pub open spec fn attestation_data_words(d: AttestationData) -> Seq<u64> {
    seq![d.slot, d.index, d.beacon_block_root, d.source_epoch, d.target_epoch]
}

/// Canonical word encoding of a bit list: its length, then one word per bit.
pub open spec fn bits_words(bits: Seq<bool>) -> Seq<u64> {
    seq![bits.len() as u64] + Seq::new(bits.len(), |i: int| if bits[i] { 1u64 } else { 0u64 })
}

/// Canonical word encoding of one attestation, tagged by its fork shape.
pub open spec fn attestation_words(a: Attestation) -> Seq<u64> {
    match a {
        Attestation::Base(b) => seq![0u64] + attestation_data_words(b.data) + bits_words(
            b.aggregation_bits@,
        ) + signature_words(b.signature),
        Attestation::Electra(e) => seq![1u64] + attestation_data_words(e.data) + bits_words(
            e.aggregation_bits@,
        ) + bits_words(e.committee_bits@) + signature_words(e.signature),
    }
}

/// Canonical word encoding of an indexed attestation.
pub open spec fn indexed_attestation_words(a: IndexedAttestation) -> Seq<u64> {
    seq![a.attesting_indices@.len() as u64] + a.attesting_indices@ + attestation_data_words(a.data)
        + signature_words(a.signature)
}

/// Canonical word encoding of a list of attestations.
pub open spec fn attestation_list_words(atts: Seq<Attestation>) -> Seq<u64>
    decreases atts.len(),
{
    if atts.len() == 0 {
        seq![]
    } else {
        attestation_words(atts.first()) + attestation_list_words(atts.drop_first())
    }
}

/// Canonical word encoding of a block body.
pub open spec fn body_words(b: BlockBody) -> Seq<u64> {
    signature_words(b.randao_reveal) + seq![b.attestations@.len() as u64]
        + attestation_list_words(b.attestations@) + seq![b.attester_slashings@.len() as u64]
        + (match b.execution_payload {
        Some(p) => seq![1u64, p.parent_hash, p.block_hash, p.timestamp],
        None => seq![0u64],
    })
}

/// Root of a block body.
pub open spec fn body_root_of(b: BlockBody) -> u64 {
    digest_of(body_words(b))
}

/// Canonical word encoding of a block header.
pub open spec fn header_words(h: BlockHeader) -> Seq<u64> {
    seq![h.slot, h.proposer_index, h.parent_root, h.state_root, h.body_root]
}

/// Root of a block header.
pub open spec fn header_root_of(h: BlockHeader) -> u64 {
    digest_of(header_words(h))
}

/// The header summarising a block: same fields, body folded to its root.
pub open spec fn header_of(b: Block) -> BlockHeader {
    BlockHeader {
        slot: b.slot,
        proposer_index: b.proposer_index,
        parent_root: b.parent_root,
        state_root: b.state_root,
        body_root: body_root_of(b.body),
    }
}

/// Canonical root of a block: the root of its header. Block and header hash
/// to the same root by construction.
pub open spec fn block_root_of(b: Block) -> u64 {
    header_root_of(header_of(b))
}

/// Builds the word encoding of a bit list.
fn compute_bits_words(bits: &Vec<bool>, out: &mut Vec<u64>)
    ensures
        final(out)@ == old(out)@ + bits_words(bits@),
{
    let ghost prefix = out@;
    out.push(bits.len() as u64);
    let n = bits.len();
    for i in 0..n
        invariant
            n == bits@.len(),
            out@ == prefix + bits_words(bits@).take(1 + i as int),
    {
        assert(bits_words(bits@)[1 + i as int] == (if bits@[i as int] {
            1u64
        } else {
            0u64
        }));
        if bits[i] {
            out.push(1u64);
        } else {
            out.push(0u64);
        }
        assert(bits_words(bits@).take(1 + (i + 1) as int) =~= bits_words(bits@).take(
            1 + i as int,
        ).push(if bits@[i as int] {
            1u64
        } else {
            0u64
        }));
    }
    assert(bits_words(bits@).take(1 + n as int) =~= bits_words(bits@));
}

/// Appends the word encoding of a signature.
fn compute_signature_words(s: &Signature, out: &mut Vec<u64>)
    ensures
        final(out)@ == old(out)@ + signature_words(*s),
{
    out.push(s.signer);
    out.push(s.object_root);
    out.push(s.domain);
    out.push(s.fork_version);
    out.push(s.genesis_validators_root);
    assert(out@ =~= old(out)@ + signature_words(*s));
}

/// Appends the word encoding of attestation data.
fn compute_attestation_data_words(d: &AttestationData, out: &mut Vec<u64>)
    ensures
        final(out)@ == old(out)@ + attestation_data_words(*d),
{
    out.push(d.slot);
    out.push(d.index);
    out.push(d.beacon_block_root);
    out.push(d.source_epoch);
    out.push(d.target_epoch);
    assert(out@ =~= old(out)@ + attestation_data_words(*d));
}

/// Appends the word encoding of one attestation.
fn compute_attestation_words(a: &Attestation, out: &mut Vec<u64>)
    ensures
        final(out)@ == old(out)@ + attestation_words(*a),
{
    match a {
        Attestation::Base(b) => {
            out.push(0u64);
            compute_attestation_data_words(&b.data, out);
            compute_bits_words(&b.aggregation_bits, out);
            compute_signature_words(&b.signature, out);
            assert(out@ =~= old(out)@ + attestation_words(*a));
        },
        Attestation::Electra(e) => {
            out.push(1u64);
            compute_attestation_data_words(&e.data, out);
            compute_bits_words(&e.aggregation_bits, out);
            compute_bits_words(&e.committee_bits, out);
            assert(out@ =~= old(out)@ + (seq![1u64] + attestation_data_words(e.data) + bits_words(
                e.aggregation_bits@,
            ) + bits_words(e.committee_bits@)));
            compute_signature_words(&e.signature, out);
            assert(out@ =~= old(out)@ + attestation_words(*a));
        },
    }
}

/// Unfolding lemma: the encoding of a non-empty list starts with its first
/// element's encoding.
proof fn lemma_attestation_list_words_push(atts: Seq<Attestation>, i: int)
    requires
        0 <= i < atts.len(),
    ensures
        attestation_list_words(atts.take(i + 1)) == attestation_list_words(atts.take(i))
            + attestation_words(atts[i]),
    decreases i,
{
    let pre = atts.take(i + 1);
    if i == 0 {
        let empty = Seq::<Attestation>::empty();
        assert(attestation_list_words(empty) =~= Seq::<u64>::empty());
        assert(atts.take(0) =~= empty);
        assert(pre.drop_first() =~= empty);
        assert(pre.first() == atts[0]);
        assert(attestation_list_words(pre) == attestation_words(atts[0]) + attestation_list_words(
            empty,
        ));
        assert(attestation_words(atts[0]) + Seq::<u64>::empty() =~= attestation_words(atts[0]));
        assert(attestation_list_words(atts.take(0)) + attestation_words(atts[0])
            =~= attestation_words(atts[0]));
    } else {
        lemma_attestation_list_words_push(atts.drop_first(), i - 1);
        assert(pre.drop_first() =~= atts.drop_first().take(i));
        assert(atts.take(i).drop_first() =~= atts.drop_first().take(i - 1));
        assert(atts.drop_first()[i - 1] == atts[i]);
        assert(attestation_list_words(atts.take(i)) == attestation_words(atts.first())
            + attestation_list_words(atts.drop_first().take(i - 1)));
        assert(attestation_list_words(pre) == attestation_words(pre.first())
            + attestation_list_words(atts.drop_first().take(i)));
    }
}

/// Builds the word encoding of a block body.
fn compute_body_words(b: &BlockBody) -> (r: Vec<u64>)
    ensures
        r@ == body_words(*b),
{
    let mut out: Vec<u64> = Vec::new();
    compute_signature_words(&b.randao_reveal, &mut out);
    out.push(b.attestations.len() as u64);
    let n = b.attestations.len();
    for i in 0..n
        invariant
            n == b.attestations@.len(),
            out@ == signature_words(b.randao_reveal) + seq![b.attestations@.len() as u64]
                + attestation_list_words(b.attestations@.take(i as int)),
    {
        compute_attestation_words(&b.attestations[i], &mut out);
        proof {
            lemma_attestation_list_words_push(b.attestations@, i as int);
        }
    }
    assert(b.attestations@.take(n as int) =~= b.attestations@);
    out.push(b.attester_slashings.len() as u64);
    match &b.execution_payload {
        Some(p) => {
            out.push(1u64);
            out.push(p.parent_hash);
            out.push(p.block_hash);
            out.push(p.timestamp);
        },
        None => {
            out.push(0u64);
        },
    }
    assert(out@ =~= body_words(*b));
    out
}

/// Builds the word encoding of a block header.
fn compute_header_words(h: &BlockHeader) -> (r: Vec<u64>)
    ensures
        r@ == header_words(*h),
{
    let mut out: Vec<u64> = Vec::new();
    out.push(h.slot);
    out.push(h.proposer_index);
    out.push(h.parent_root);
    out.push(h.state_root);
    out.push(h.body_root);
    assert(out@ =~= header_words(*h));
    out
}

/// Root of a word sequence already encoded.
pub(crate) fn digest_of_words(words: &Vec<u64>) -> (r: u64)
    ensures
        r == digest_of(words@),
{
    digest_words(words)
}

/// Computes the root of an attestation's data, the object an attestation
/// signature covers.
pub fn compute_attestation_data_root(d: &AttestationData) -> (r: u64)
    ensures
        r == digest_of(attestation_data_words(*d)),
{
    let mut words: Vec<u64> = Vec::new();
    compute_attestation_data_words(d, &mut words);
    assert(words@ =~= attestation_data_words(*d));
    digest_words(&words)
}

/// Computes the header summarising a block.
pub fn compute_block_header(b: &Block) -> (r: BlockHeader)
    ensures
        r == header_of(*b),
{
    let body = compute_body_words(&b.body);
    let body_root = digest_words(&body);
    BlockHeader {
        slot: b.slot,
        proposer_index: b.proposer_index,
        parent_root: b.parent_root,
        state_root: b.state_root,
        body_root,
    }
}

/// The signed header of a signed block: the block summarised by its header,
/// carrying the same proposer signature.
pub fn signed_block_header(b: &SignedBlock) -> (r: SignedBlockHeader)
    ensures
        r.message == header_of(b.message),
        r.signature == b.signature,
{
    SignedBlockHeader { message: compute_block_header(&b.message), signature: b.signature }
}

/// Returns the canonical root of the given block.
pub fn get_block_root(block: &SignedBlock) -> (r: u64)
    ensures
        r == block_root_of(block.message),
{
    let header = compute_block_header(&block.message);
    let words = compute_header_words(&header);
    digest_words(&words)
}

/// Returns the canonical root of the given block header. A block and its
/// header share one canonical root, so hashing the header is the cheaper way
/// to obtain a block's root.
pub fn get_block_header_root(block_header: &SignedBlockHeader) -> (r: u64)
    ensures
        r == header_root_of(block_header.message),
{
    let words = compute_header_words(&block_header.message);
    digest_words(&words)
}

} // verus!
