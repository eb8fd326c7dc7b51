//! The canonical byte encoding of envelopes: fixed-size fields in
//! declaration order, with a four-byte offset marking where the single
//! variable-size field begins. Decoding accepts exactly the encodings
//! this module produces, so encode and decode round-trip bit-exactly.

use vstd::prelude::*;
use vstd::assert_seqs_equal;
use vstd::bytes::{
    spec_u32_from_le_bytes, spec_u32_to_le_bytes, spec_u64_from_le_bytes, spec_u64_to_le_bytes,
    u32_from_le_bytes, u32_to_le_bytes, u64_from_le_bytes, u64_to_le_bytes,
    lemma_auto_spec_u32_to_from_le_bytes, lemma_auto_spec_u64_to_from_le_bytes,
};
use vstd::slice::slice_subrange;
use crate::merkle::append_bytes;
use crate::types::{
    ContributionAndProof, ContributionView, EnvelopeView, Signature, SyncCommitteeContribution,
    wf_envelope,
};

verus! {

/// The canonical encoding of a contribution: slot and subcommittee index
/// little-endian, the offset of the aggregate, then the aggregate bytes.
pub open spec fn encode_contribution(c: ContributionView) -> Seq<u8> {
    spec_u64_to_le_bytes(c.slot) + spec_u64_to_le_bytes(c.subcommittee_index)
        + spec_u32_to_le_bytes(20u32) + c.aggregate
}

/// The canonical encoding of an envelope: aggregator index little-endian,
/// the offset of the contribution, the selection proof, then the encoded
/// contribution.
pub open spec fn encode_envelope(e: EnvelopeView) -> Seq<u8> {
    spec_u64_to_le_bytes(e.aggregator_index) + spec_u32_to_le_bytes(108u32) + e.selection_proof
        + encode_contribution(e.contribution)
}

/// The decoding of a contribution: defined, with the bytes after the
/// fixed part as the aggregate, exactly when the bytes are long enough
/// and the offset is canonical.
pub open spec fn decode_contribution(b: Seq<u8>) -> Option<ContributionView> {
    if b.len() >= 20 && spec_u32_from_le_bytes(b.subrange(16, 20)) == 20u32 {
        Some(
            ContributionView {
                slot: spec_u64_from_le_bytes(b.subrange(0, 8)),
                subcommittee_index: spec_u64_from_le_bytes(b.subrange(8, 16)),
                aggregate: b.subrange(20, b.len() as int),
            },
        )
    } else {
        None
    }
}

/// The decoding of an envelope: defined exactly when the bytes are long
/// enough, the offset is canonical, and the trailing contribution
/// decodes.
pub open spec fn decode_envelope(b: Seq<u8>) -> Option<EnvelopeView> {
    if b.len() >= 108 && spec_u32_from_le_bytes(b.subrange(8, 12)) == 108u32 {
        match decode_contribution(b.subrange(108, b.len() as int)) {
            Some(c) => Some(
                EnvelopeView {
                    aggregator_index: spec_u64_from_le_bytes(b.subrange(0, 8)),
                    contribution: c,
                    selection_proof: b.subrange(12, 108),
                },
            ),
            None => None,
        }
    } else {
        None
    }
}

impl SyncCommitteeContribution {
    /// Encode this contribution into its canonical byte form.
    pub fn as_ssz_bytes(&self) -> (r: Vec<u8>)
        ensures
            r@ == encode_contribution(self@),
    {
        let mut out = u64_to_le_bytes(self.slot);
        let index_bytes = u64_to_le_bytes(self.subcommittee_index);
        append_bytes(&mut out, index_bytes.as_slice());
        let offset_bytes = u32_to_le_bytes(20u32);
        append_bytes(&mut out, offset_bytes.as_slice());
        append_bytes(&mut out, self.aggregate.as_slice());
        proof {
            assert_seqs_equal!(out@ == encode_contribution(self@));
        }
        out
    }

    /// Decode a contribution from its canonical byte form. Returns the
    /// unique contribution the bytes encode, and nothing on bytes that
    /// are no canonical encoding.
    pub fn from_ssz_bytes(bytes: &[u8]) -> (r: Option<Self>)
        ensures
            (r matches Some(c)) <==> decode_contribution(bytes@) is Some,
            (r matches Some(c) ==> decode_contribution(bytes@) == Some(c@)),
    {
        if bytes.len() < 20 {
            return None;
        }
        let offset = u32_from_le_bytes(slice_subrange(bytes, 16, 20));
        if offset != 20 {
            return None;
        }
        let slot = u64_from_le_bytes(slice_subrange(bytes, 0, 8));
        let subcommittee_index = u64_from_le_bytes(slice_subrange(bytes, 8, 16));
        let mut aggregate: Vec<u8> = Vec::new();
        append_bytes(&mut aggregate, slice_subrange(bytes, 20, bytes.len()));
        Some(SyncCommitteeContribution { slot, subcommittee_index, aggregate })
    }
}

impl ContributionAndProof {
    /// Encode this envelope into its canonical byte form.
    pub fn as_ssz_bytes(&self) -> (r: Vec<u8>)
        ensures
            r@ == encode_envelope(self@),
    {
        let mut out = u64_to_le_bytes(self.aggregator_index);
        let offset_bytes = u32_to_le_bytes(108u32);
        append_bytes(&mut out, offset_bytes.as_slice());
        append_bytes(&mut out, self.selection_proof.bytes.as_slice());
        let contribution_bytes = self.contribution.as_ssz_bytes();
        append_bytes(&mut out, contribution_bytes.as_slice());
        proof {
            assert_seqs_equal!(out@ == encode_envelope(self@));
        }
        out
    }

    /// Decode an envelope from its canonical byte form. Returns the
    /// unique envelope the bytes encode, and nothing on bytes that are
    /// no canonical encoding.
    pub fn from_ssz_bytes(bytes: &[u8]) -> (r: Option<Self>)
        ensures
            (r matches Some(e)) <==> decode_envelope(bytes@) is Some,
            (r matches Some(e) ==> decode_envelope(bytes@) == Some(e@) && e.wf()),
    {
        if bytes.len() < 108 {
            return None;
        }
        let offset = u32_from_le_bytes(slice_subrange(bytes, 8, 12));
        if offset != 108 {
            return None;
        }
        let aggregator_index = u64_from_le_bytes(slice_subrange(bytes, 0, 8));
        let contribution = match SyncCommitteeContribution::from_ssz_bytes(
            slice_subrange(bytes, 108, bytes.len()),
        ) {
            Some(c) => c,
            None => {
                return None;
            },
        };
        let mut proof_bytes: Vec<u8> = Vec::new();
        append_bytes(&mut proof_bytes, slice_subrange(bytes, 12, 108));
        let selection_proof = Signature { bytes: proof_bytes };
        Some(ContributionAndProof { aggregator_index, contribution, selection_proof })
    }
}

/// Law: the canonical encoding of a contribution round-trips. Decoding
/// an encoded contribution gives back exactly the contribution.
pub proof fn lemma_contribution_round_trip(c: ContributionView)
    ensures
        decode_contribution(encode_contribution(c)) == Some(c),
{
    lemma_auto_spec_u64_to_from_le_bytes();
    lemma_auto_spec_u32_to_from_le_bytes();
    let b = encode_contribution(c);
    assert(b.subrange(0, 8) =~= spec_u64_to_le_bytes(c.slot));
    assert(b.subrange(8, 16) =~= spec_u64_to_le_bytes(c.subcommittee_index));
    assert(b.subrange(16, 20) =~= spec_u32_to_le_bytes(20u32));
    assert(b.subrange(20, b.len() as int) =~= c.aggregate);
}

/// Law: the canonical encoding of an envelope round-trips. Decoding an
/// encoded envelope gives back exactly the envelope.
pub proof fn lemma_envelope_round_trip(e: EnvelopeView)
    requires
        wf_envelope(e),
    ensures
        decode_envelope(encode_envelope(e)) == Some(e),
{
    lemma_auto_spec_u64_to_from_le_bytes();
    lemma_auto_spec_u32_to_from_le_bytes();
    lemma_contribution_round_trip(e.contribution);
    let b = encode_envelope(e);
    assert(b.subrange(0, 8) =~= spec_u64_to_le_bytes(e.aggregator_index));
    assert(b.subrange(8, 12) =~= spec_u32_to_le_bytes(108u32));
    assert(b.subrange(12, 108) =~= e.selection_proof);
    assert(b.subrange(108, b.len() as int) =~= encode_contribution(e.contribution));
}

/// Law: the canonical encoding is injective. Envelopes with equal
/// encodings are equal, so an encoding determines its envelope.
pub proof fn lemma_encode_injective(e1: EnvelopeView, e2: EnvelopeView)
    requires
        wf_envelope(e1),
        wf_envelope(e2),
        encode_envelope(e1) == encode_envelope(e2),
    ensures
        e1 == e2,
{
    lemma_envelope_round_trip(e1);
    lemma_envelope_round_trip(e2);
}

/// Law: the canonical encoding is idempotent across a decode. Re-encoding
/// any successfully decoded byte string reproduces it bit for bit.
pub proof fn lemma_encode_canonical(b: Seq<u8>)
    requires
        decode_envelope(b) is Some,
    ensures
        encode_envelope(decode_envelope(b)->0) == b,
{
    lemma_auto_spec_u64_to_from_le_bytes();
    lemma_auto_spec_u32_to_from_le_bytes();
    let e = decode_envelope(b)->0;
    let tail = b.subrange(108, b.len() as int);
    let c = decode_contribution(tail)->0;
    assert(spec_u64_to_le_bytes(e.aggregator_index) == b.subrange(0, 8));
    assert(spec_u32_to_le_bytes(108u32) == b.subrange(8, 12));
    assert(spec_u64_to_le_bytes(c.slot) == tail.subrange(0, 8));
    assert(spec_u64_to_le_bytes(c.subcommittee_index) == tail.subrange(8, 16));
    assert(spec_u32_to_le_bytes(20u32) == tail.subrange(16, 20));
    assert(encode_contribution(c) =~= tail);
    assert(encode_envelope(e) =~= b);
}

} // verus!
