//! The structural digest ("tree hash") of envelopes: every field
//! participates, in declaration order, through the same merkleization
//! engine, so the digest is a pure function of the three fields and is
//! unchanged by an encode/decode cycle.

use vstd::prelude::*;
use vstd::assert_seqs_equal;
use crate::merkle::{
    bytes_root, bytes_root_vec, hash_pair, hash_two, merkle_root, merkleize, pack, pack_chunks,
    u64_chunk, u64_chunk_vec, views,
};
use crate::ssz::{decode_envelope, encode_envelope, lemma_envelope_round_trip};
use crate::types::{
    ContributionAndProof, ContributionView, EnvelopeView, Hash256, Signature,
    SyncCommitteeContribution, wf_envelope,
};

verus! {

/// The digest of a contribution: its field roots — the slot chunk, the
/// subcommittee-index chunk, and the aggregate's digest — merkleized in
/// declaration order.
pub open spec fn contribution_tree_root(c: ContributionView) -> Seq<u8>
    recommends
        c.aggregate.len() <= u64::MAX,
{
    merkle_root(seq![u64_chunk(c.slot), u64_chunk(c.subcommittee_index), bytes_root(c.aggregate)])
}

/// The digest of a selection proof: its 96 bytes packed into chunks and
/// merkleized.
pub open spec fn signature_tree_root(sig: Seq<u8>) -> Seq<u8>
    recommends
        sig.len() == 96,
{
    merkle_root(pack_chunks(sig))
}

/// The digest of an envelope: its field roots — the aggregator-index
/// chunk, the contribution's digest, and the selection proof's digest —
/// merkleized in declaration order.
pub open spec fn envelope_tree_root(e: EnvelopeView) -> Seq<u8>
    recommends
        wf_envelope(e),
        e.contribution.aggregate.len() <= u64::MAX,
{
    merkle_root(
        seq![
            u64_chunk(e.aggregator_index),
            contribution_tree_root(e.contribution),
            signature_tree_root(e.selection_proof),
        ],
    )
}

/// The signing root of an envelope under a domain: its structural digest
/// paired with the domain, for an outer signature over the whole
/// envelope.
pub open spec fn envelope_signing_root(e: EnvelopeView, domain: Seq<u8>) -> Seq<u8> {
    hash_pair(envelope_tree_root(e), domain)
}

impl SyncCommitteeContribution {
    /// The structural digest of this contribution.
    pub fn tree_hash_root(&self) -> (r: Hash256)
        ensures
            r.wf(),
            r@ == contribution_tree_root(self@),
    {
        let n = self.aggregate.len();
        proof {
            assert(n <= u64::MAX);
        }
        let slot_chunk = u64_chunk_vec(self.slot);
        let index_chunk = u64_chunk_vec(self.subcommittee_index);
        let aggregate_root = bytes_root_vec(self.aggregate.as_slice());
        let ghost s0 = slot_chunk@;
        let ghost s1 = index_chunk@;
        let ghost s2 = aggregate_root@;
        let mut leaves: Vec<Vec<u8>> = Vec::new();
        leaves.push(slot_chunk);
        leaves.push(index_chunk);
        leaves.push(aggregate_root);
        proof {
            assert_seqs_equal!(views(leaves@) == seq![s0, s1, s2]);
        }
        let root = merkleize(&leaves);
        Hash256 { bytes: root }
    }
}

impl Signature {
    /// The structural digest of this selection proof.
    pub fn tree_hash_root(&self) -> (r: Hash256)
        ensures
            r.wf(),
            r@ == signature_tree_root(self@),
    {
        let chunks = pack(self.bytes.as_slice());
        let root = merkleize(&chunks);
        Hash256 { bytes: root }
    }
}

impl ContributionAndProof {
    /// The structural digest of this envelope: a pure function of its
    /// three fields, identical however the envelope was constructed or
    /// transmitted.
    pub fn tree_hash_root(&self) -> (r: Hash256)
        ensures
            r.wf(),
            r@ == envelope_tree_root(self@),
    {
        let index_chunk = u64_chunk_vec(self.aggregator_index);
        let contribution_root = self.contribution.tree_hash_root();
        let proof_root = self.selection_proof.tree_hash_root();
        let ghost s0 = index_chunk@;
        let ghost s1 = contribution_root@;
        let ghost s2 = proof_root@;
        let mut leaves: Vec<Vec<u8>> = Vec::new();
        leaves.push(index_chunk);
        leaves.push(contribution_root.bytes);
        leaves.push(proof_root.bytes);
        proof {
            assert_seqs_equal!(views(leaves@) == seq![s0, s1, s2]);
        }
        let root = merkleize(&leaves);
        Hash256 { bytes: root }
    }

    /// The signing root of this envelope under `domain`, the message an
    /// outer envelope signature would cover.
    pub fn signing_root(&self, domain: &Hash256) -> (r: Hash256)
        requires
            domain.wf(),
        ensures
            r.wf(),
            r@ == envelope_signing_root(self@, domain@),
    {
        let root = self.tree_hash_root();
        let bytes = hash_two(root.bytes.as_slice(), domain.bytes.as_slice());
        Hash256 { bytes }
    }
}

/// Law: the structural digest survives an encode/decode cycle. Decoding
/// a canonical encoding succeeds and yields an envelope with the same
/// digest as the one encoded.
pub proof fn lemma_digest_round_trip(e: EnvelopeView)
    requires
        wf_envelope(e),
    ensures
        decode_envelope(encode_envelope(e)) matches Some(d) && envelope_tree_root(d)
            == envelope_tree_root(e),
{
    lemma_envelope_round_trip(e);
}

} // verus!
