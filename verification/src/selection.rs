//! Deriving a selection proof: the duty's slot and subcommittee index are
//! merkleized into a selection-data root, bound to the fork and genesis
//! context through a signing domain, and the resulting signing root is
//! signed with the validator's secret key.

use vstd::prelude::*;
use vstd::assert_seqs_equal;
use crate::crypto::{bls_sign, bls_signature_of, SecretKey};
use crate::merkle::{hash_pair, hash_two, pad32, pad_to_chunk, u64_chunk, u64_chunk_vec};
use crate::types::{Fork, Hash256, SyncSelectionProof};

verus! {

/// The domain type that separates selection-proof signatures from every
/// other signed message of the protocol.
pub open spec fn selection_domain_type() -> Seq<u8> {
    seq![7u8, 0u8, 0u8, 0u8]
}

/// The root of the fork data: the current fork version, padded to a
/// chunk, paired with the genesis validators root.
pub open spec fn fork_data_root(current_version: Seq<u8>, genesis_validators_root: Seq<u8>) -> Seq<
    u8,
> {
    hash_pair(pad32(current_version), genesis_validators_root)
}

/// The 32-byte signing domain: the domain type followed by the first 28
/// bytes of the fork data root.
pub open spec fn signing_domain(current_version: Seq<u8>, genesis_validators_root: Seq<u8>) -> Seq<
    u8,
> {
    selection_domain_type() + fork_data_root(current_version, genesis_validators_root).subrange(
        0,
        28,
    )
}

/// The serialized selection data a duty is signed over: the slot chunk
/// followed by the subcommittee-index chunk.
pub open spec fn selection_data_bytes(slot: u64, subcommittee_index: u64) -> Seq<u8> {
    u64_chunk(slot) + u64_chunk(subcommittee_index)
}

/// The root of the selection data: the slot and the subcommittee index,
/// merkleized in that order.
pub open spec fn selection_data_root(slot: u64, subcommittee_index: u64) -> Seq<u8> {
    hash_pair(u64_chunk(slot), u64_chunk(subcommittee_index))
}

/// The signing root of a selection duty: its selection-data root paired
/// with the signing domain.
pub open spec fn selection_signing_root(
    slot: u64,
    subcommittee_index: u64,
    current_version: Seq<u8>,
    genesis_validators_root: Seq<u8>,
) -> Seq<u8> {
    hash_pair(
        selection_data_root(slot, subcommittee_index),
        signing_domain(current_version, genesis_validators_root),
    )
}

/// The proof derived for a duty: the deterministic signature of the
/// duty's signing root under the key generated from `seed`.
pub open spec fn derived_proof(
    slot: u64,
    subcommittee_index: u64,
    seed: Seq<u8>,
    current_version: Seq<u8>,
    genesis_validators_root: Seq<u8>,
) -> Seq<u8> {
    bls_signature_of(
        seed,
        selection_signing_root(slot, subcommittee_index, current_version, genesis_validators_root),
    )
}

/// The selection-data root is the digest of the serialized selection
/// data, so the injectivity of the serialization is about exactly the
/// bytes that proof derivation hashes and signs.
pub proof fn lemma_selection_root_hashes_data(slot: u64, subcommittee_index: u64)
    ensures
        selection_data_root(slot, subcommittee_index) == crate::crypto::sha256_of(
            selection_data_bytes(slot, subcommittee_index),
        ),
{
}

/// Law: derivation depends on both duty fields. The selection data that
/// proof derivation signs over is injective in the pair of slot and
/// subcommittee index: payloads that differ in either field are signed
/// over different bytes. That the derived proofs themselves then differ
/// rests on the collision resistance of the digest and the injectivity
/// of the signature scheme, of which this crate states nothing.
pub proof fn lemma_selection_data_injective(s1: u64, i1: u64, s2: u64, i2: u64)
    requires
        s1 != s2 || i1 != i2,
    ensures
        selection_data_bytes(s1, i1) != selection_data_bytes(s2, i2),
{
    vstd::bytes::lemma_auto_spec_u64_to_from_le_bytes();
    let a = selection_data_bytes(s1, i1);
    let b = selection_data_bytes(s2, i2);
    assert(a.subrange(0, 8) =~= vstd::bytes::spec_u64_to_le_bytes(s1));
    assert(b.subrange(0, 8) =~= vstd::bytes::spec_u64_to_le_bytes(s2));
    assert(a.subrange(32, 40) =~= vstd::bytes::spec_u64_to_le_bytes(i1));
    assert(b.subrange(32, 40) =~= vstd::bytes::spec_u64_to_le_bytes(i2));
    if a == b {
        assert(vstd::bytes::spec_u64_to_le_bytes(s1) == vstd::bytes::spec_u64_to_le_bytes(s2));
        assert(vstd::bytes::spec_u64_to_le_bytes(i1) == vstd::bytes::spec_u64_to_le_bytes(i2));
        assert(s1 == s2);
        assert(i1 == i2);
    }
}

impl SyncSelectionProof {
    /// Derive the selection proof for `(slot, subcommittee_index)` under
    /// the given fork and genesis context. Derivation is deterministic:
    /// equal inputs give bit-identical proofs, and the signed message
    /// depends on both the slot and the subcommittee index.
    pub fn new(
        slot: u64,
        subcommittee_index: u64,
        secret_key: &SecretKey,
        fork: &Fork,
        genesis_validators_root: &Hash256,
    ) -> (r: Self)
        requires
            fork.wf(),
            genesis_validators_root.wf(),
        ensures
            r.wf(),
            r@ == derived_proof(
                slot,
                subcommittee_index,
                secret_key@,
                fork@.current_version,
                genesis_validators_root@,
            ),
    {
        let slot_chunk = u64_chunk_vec(slot);
        let index_chunk = u64_chunk_vec(subcommittee_index);
        let data_root = hash_two(slot_chunk.as_slice(), index_chunk.as_slice());
        let version_chunk = pad_to_chunk(fork.current_version.as_slice());
        let fdr = hash_two(version_chunk.as_slice(), genesis_validators_root.bytes.as_slice());
        let mut domain: Vec<u8> = Vec::new();
        domain.push(7u8);
        domain.push(0u8);
        domain.push(0u8);
        domain.push(0u8);
        let fdr_prefix = vstd::slice::slice_subrange(fdr.as_slice(), 0, 28);
        crate::merkle::append_bytes(&mut domain, fdr_prefix);
        proof {
            assert_seqs_equal!(
                domain@ == signing_domain(fork@.current_version, genesis_validators_root@)
            );
        }
        let signing_root = hash_two(data_root.as_slice(), domain.as_slice());
        let signature = bls_sign(secret_key, &signing_root);
        SyncSelectionProof { bytes: signature }
    }
}

} // verus!
