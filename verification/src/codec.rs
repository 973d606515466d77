//! Byte codec for pending attestations: a fixed 56-byte prefix — the
//! attestation data, inclusion delay and proposer index as little-endian
//! words — followed by bit lists, one byte per bit. The two fork shapes share
//! no tag: decoding tries the original shape first and falls back to the
//! Electra shape, exactly as the wire format is consumed.

use vstd::prelude::*;
use vstd::bytes::{spec_u64_from_le_bytes, u64_from_le_bytes};
use vstd::slice::slice_subrange;
use crate::types::{AttestationData, PendingAttestation, PendingAttestationBase,
    PendingAttestationElectra};

verus! {

/// Decoding failures.
#[derive(Clone, Copy, Debug, PartialEq, Eq, Structural)]
pub enum DecodeError {
    /// The bytes fit no fork shape of the type.
    BytesInvalid,
}

/// The word at byte offset `off`.
pub open spec fn spec_word_at(b: Seq<u8>, off: int) -> u64 {
    spec_u64_from_le_bytes(b.subrange(off, off + 8))
}

/// The attestation data at byte offset `off` (40 bytes).
pub open spec fn spec_data_at(b: Seq<u8>, off: int) -> AttestationData {
    AttestationData {
        slot: spec_word_at(b, off),
        index: spec_word_at(b, off + 8),
        beacon_block_root: spec_word_at(b, off + 16),
        source_epoch: spec_word_at(b, off + 24),
        target_epoch: spec_word_at(b, off + 32),
    }
}

/// The bit list in bytes [off, end): one byte per bit, each 0 or 1.
pub open spec fn spec_bits_at(b: Seq<u8>, off: int, end: int) -> Option<Seq<bool>> {
    if forall|k: int| off <= k < end ==> (#[trigger] b[k]) <= 1 {
        Some(Seq::new((end - off) as nat, |i: int| b[off + i] == 1))
    } else {
        None
    }
}

/// The original shape: the fixed prefix, then the aggregation bits to the
/// end.
pub open spec fn spec_decode_base(b: Seq<u8>) -> Option<(AttestationData, u64, u64, Seq<bool>)> {
    if b.len() < 56 {
        None
    } else {
        match spec_bits_at(b, 56, b.len() as int) {
            Some(bits) => Some(
                (spec_data_at(b, 0), spec_word_at(b, 40), spec_word_at(b, 48), bits),
            ),
            None => None,
        }
    }
}

/// The Electra shape: the fixed prefix, the aggregation-bit count, that many
/// aggregation bits, then the committee bits to the end.
pub open spec fn spec_decode_electra(b: Seq<u8>) -> Option<
    (AttestationData, u64, u64, Seq<bool>, Seq<bool>),
> {
    if b.len() < 64 {
        None
    } else {
        let agg_len = spec_word_at(b, 56);
        if 64 + agg_len > b.len() {
            None
        } else {
            match spec_bits_at(b, 64, 64 + agg_len) {
                Some(agg) => match spec_bits_at(b, 64 + agg_len, b.len() as int) {
                    Some(committee) => Some(
                        (spec_data_at(b, 0), spec_word_at(b, 40), spec_word_at(b, 48), agg,
                        committee),
                    ),
                    None => None,
                },
                None => None,
            }
        }
    }
}

/// Reads the word at byte offset `off`.
fn read_word(bytes: &[u8], off: usize) -> (r: u64)
    requires
        off + 8 <= bytes@.len(),
    ensures
        r == spec_word_at(bytes@, off as int),
{
    let n = bytes.len();
    let s = slice_subrange(bytes, off, off + 8);
    u64_from_le_bytes(s)
}

/// Reads the bit list in bytes [off, end), if every byte is 0 or 1.
fn read_bits(bytes: &[u8], off: usize, end: usize) -> (r: Option<Vec<bool>>)
    requires
        off <= end <= bytes@.len(),
    ensures
        match spec_bits_at(bytes@, off as int, end as int) {
            Some(bits) => r matches Some(v) && v@ == bits,
            None => r is None,
        },
{
    let mut out: Vec<bool> = Vec::new();
    let mut k = off;
    while k < end
        invariant
            off <= k <= end <= bytes@.len(),
            out@.len() == k - off,
            forall|j: int| off <= j < k ==> (#[trigger] bytes@[j]) <= 1,
            forall|i: int| 0 <= i < out@.len() ==> out@[i] == (bytes@[off + i] == 1),
        decreases end - k,
    {
        let byte = bytes[k];
        if byte > 1 {
            return None;
        }
        out.push(byte == 1);
        k = k + 1;
    }
    proof {
        let bits = spec_bits_at(bytes@, off as int, end as int).unwrap();
        assert(out@ =~= bits);
    }
    Some(out)
}

/// Reads the attestation data at byte offset `off`.
fn read_data(bytes: &[u8], off: usize) -> (r: AttestationData)
    requires
        off + 40 <= bytes@.len(),
    ensures
        r == spec_data_at(bytes@, off as int),
{
    let n = bytes.len();
    AttestationData {
        slot: read_word(bytes, off),
        index: read_word(bytes, off + 8),
        beacon_block_root: read_word(bytes, off + 16),
        source_epoch: read_word(bytes, off + 24),
        target_epoch: read_word(bytes, off + 32),
    }
}

impl PendingAttestation {
    /// The encoding has no fixed length: the bit lists vary.
    pub fn is_ssz_fixed_len() -> (r: bool)
        ensures
            r == false,
    {
        false
    }

    /// Decodes a pending attestation from bytes: the original shape is tried
    /// first, then the Electra shape; bytes fitting neither are invalid.
    pub fn from_ssz_bytes(bytes: &[u8]) -> (r: Result<PendingAttestation, DecodeError>)
        ensures
            match spec_decode_base(bytes@) {
                Some(t) => r matches Ok(PendingAttestation::Base(a)) && a.data == t.0
                    && a.inclusion_delay == t.1 && a.proposer_index == t.2 && a.aggregation_bits@
                    == t.3,
                None => match spec_decode_electra(bytes@) {
                    Some(t) => r matches Ok(PendingAttestation::Electra(a)) && a.data == t.0
                        && a.inclusion_delay == t.1 && a.proposer_index == t.2
                        && a.aggregation_bits@ == t.3 && a.committee_bits@ == t.4,
                    None => r == Err::<PendingAttestation, DecodeError>(DecodeError::BytesInvalid),
                },
            },
    {
        if bytes.len() >= 56 {
            match read_bits(bytes, 56, bytes.len()) {
                Some(bits) => {
                    return Ok(
                        PendingAttestation::Base(
                            PendingAttestationBase {
                                aggregation_bits: bits,
                                data: read_data(bytes, 0),
                                inclusion_delay: read_word(bytes, 40),
                                proposer_index: read_word(bytes, 48),
                            },
                        ),
                    );
                },
                None => (),
            }
        }
        if bytes.len() >= 64 {
            let agg_len = read_word(bytes, 56);
            if agg_len <= (bytes.len() - 64) as u64 {
                let agg_end = 64 + agg_len as usize;
                match read_bits(bytes, 64, agg_end) {
                    Some(agg) => {
                        match read_bits(bytes, agg_end, bytes.len()) {
                            Some(committee) => {
                                return Ok(
                                    PendingAttestation::Electra(
                                        PendingAttestationElectra {
                                            aggregation_bits: agg,
                                            data: read_data(bytes, 0),
                                            inclusion_delay: read_word(bytes, 40),
                                            proposer_index: read_word(bytes, 48),
                                            committee_bits: committee,
                                        },
                                    ),
                                );
                            },
                            None => (),
                        }
                    },
                    None => (),
                }
            }
        }
        Err(DecodeError::BytesInvalid)
    }
}

} // verus!
