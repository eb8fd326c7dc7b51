use contribution_and_proof::quoted::{
    u64_from_decimal, u64_from_quoted, u64_to_decimal, u64_to_quoted,
};
use contribution_and_proof::types::{
    ContributionAndProof, Hash256, Signature, SyncCommitteeContribution,
};
use sha2::Digest;

fn sample_envelope() -> ContributionAndProof {
    ContributionAndProof {
        aggregator_index: 42,
        contribution: SyncCommitteeContribution {
            slot: 100,
            subcommittee_index: 3,
            aggregate: vec![0xaa, 0xbb, 0xcc, 0xdd],
        },
        selection_proof: Signature { bytes: (0..96).collect() },
    }
}

#[test]
fn ssz_round_trip() {
    let envelope = sample_envelope();
    let bytes = envelope.as_ssz_bytes();
    let decoded = ContributionAndProof::from_ssz_bytes(&bytes).unwrap();
    assert_eq!(decoded, envelope);
    assert_eq!(decoded.as_ssz_bytes(), bytes);
    assert_eq!(
        decoded.tree_hash_root().bytes,
        envelope.tree_hash_root().bytes
    );
}

#[test]
fn ssz_layout_is_fixed_fields_then_offset_payload() {
    let envelope = sample_envelope();
    let bytes = envelope.as_ssz_bytes();
    assert_eq!(bytes.len(), 108 + 20 + 4);
    assert_eq!(&bytes[0..8], &42u64.to_le_bytes());
    assert_eq!(&bytes[8..12], &108u32.to_le_bytes());
    assert_eq!(&bytes[12..108], envelope.selection_proof.bytes.as_slice());
    assert_eq!(&bytes[108..116], &100u64.to_le_bytes());
    assert_eq!(&bytes[116..124], &3u64.to_le_bytes());
    assert_eq!(&bytes[124..128], &20u32.to_le_bytes());
    assert_eq!(&bytes[128..], &[0xaa, 0xbb, 0xcc, 0xdd]);
}

#[test]
fn ssz_empty_aggregate_round_trips() {
    let mut envelope = sample_envelope();
    envelope.contribution.aggregate = vec![];
    let bytes = envelope.as_ssz_bytes();
    assert_eq!(bytes.len(), 128);
    let decoded = ContributionAndProof::from_ssz_bytes(&bytes).unwrap();
    assert_eq!(decoded, envelope);
}

#[test]
fn ssz_rejects_malformed_bytes() {
    let envelope = sample_envelope();
    let bytes = envelope.as_ssz_bytes();
    assert!(ContributionAndProof::from_ssz_bytes(&bytes[..100]).is_none());
    assert!(ContributionAndProof::from_ssz_bytes(&bytes[..120]).is_none());
    let mut wrong_offset = bytes.clone();
    wrong_offset[8] = 107;
    assert!(ContributionAndProof::from_ssz_bytes(&wrong_offset).is_none());
    let mut wrong_inner_offset = bytes.clone();
    wrong_inner_offset[124] = 21;
    assert!(ContributionAndProof::from_ssz_bytes(&wrong_inner_offset).is_none());
    assert!(ContributionAndProof::from_ssz_bytes(&[]).is_none());
}

#[test]
fn digest_depends_on_every_field() {
    let base = sample_envelope();
    let mut other_index = sample_envelope();
    other_index.aggregator_index = 43;
    let mut other_slot = sample_envelope();
    other_slot.contribution.slot = 101;
    let mut other_proof = sample_envelope();
    other_proof.selection_proof.bytes[0] ^= 1;
    let base_root = base.tree_hash_root().bytes;
    assert_ne!(base_root, other_index.tree_hash_root().bytes);
    assert_ne!(base_root, other_slot.tree_hash_root().bytes);
    assert_ne!(base_root, other_proof.tree_hash_root().bytes);
}

fn sha2_cat(a: &[u8], b: &[u8]) -> Vec<u8> {
    let mut input = a.to_vec();
    input.extend_from_slice(b);
    sha2::Sha256::digest(&input).to_vec()
}

#[test]
fn aggregate_digest_walks_the_merkle_tree() {
    // 65 bytes: three chunks, so one level pairs the odd chunk with the
    // zero chunk before the length is mixed in.
    let aggregate: Vec<u8> = (0u8..65).collect();
    let contribution = SyncCommitteeContribution {
        slot: 1,
        subcommittee_index: 2,
        aggregate: aggregate.clone(),
    };
    let mut padded = aggregate;
    padded.resize(96, 0);
    let left = sha2_cat(&padded[0..32], &padded[32..64]);
    let right = sha2_cat(&padded[64..96], &[0u8; 32]);
    let merkle = sha2_cat(&left, &right);
    let mut len_chunk = 65u64.to_le_bytes().to_vec();
    len_chunk.resize(32, 0);
    let aggregate_root = sha2_cat(&merkle, &len_chunk);

    let mut slot_chunk = 1u64.to_le_bytes().to_vec();
    slot_chunk.resize(32, 0);
    let mut index_chunk = 2u64.to_le_bytes().to_vec();
    index_chunk.resize(32, 0);
    let expected = sha2_cat(
        &sha2_cat(&slot_chunk, &index_chunk),
        &sha2_cat(&aggregate_root, &[0u8; 32]),
    );
    assert_eq!(contribution.tree_hash_root().bytes, expected);
}

#[test]
fn signing_root_mixes_digest_and_domain() {
    let envelope = sample_envelope();
    let domain = Hash256 { bytes: vec![3u8; 32] };
    let signing_root = envelope.signing_root(&domain);
    let mut preimage = envelope.tree_hash_root().bytes;
    preimage.extend_from_slice(&[3u8; 32]);
    let expected = sha2::Sha256::digest(&preimage).to_vec();
    assert_eq!(signing_root.bytes, expected);
}

#[test]
fn quoted_u64_preserves_large_values() {
    let value: u64 = (1u64 << 63) + 7;
    let quoted = u64_to_quoted(value);
    assert_eq!(quoted, b"\"9223372036854775815\"".to_vec());
    assert_eq!(u64_from_quoted(&quoted), Some(value));
}

#[test]
fn decimal_round_trips_for_edge_values() {
    for value in [0u64, 1, 9, 10, 42, u64::MAX - 1, u64::MAX] {
        let digits = u64_to_decimal(value);
        assert_eq!(u64_from_decimal(&digits), Some(value));
    }
    assert_eq!(u64_to_decimal(0), b"0".to_vec());
    assert_eq!(u64_to_decimal(18446744073709551615), b"18446744073709551615".to_vec());
}

#[test]
fn decimal_parser_rejects_non_canonical_input() {
    assert_eq!(u64_from_decimal(b""), None);
    assert_eq!(u64_from_decimal(b"01"), None);
    assert_eq!(u64_from_decimal(b"1a2"), None);
    assert_eq!(u64_from_decimal(b"-1"), None);
    assert_eq!(u64_from_decimal(b"18446744073709551616"), None);
    assert_eq!(u64_from_decimal(b"99999999999999999999999"), None);
    assert_eq!(u64_from_decimal(b"18446744073709551615"), Some(u64::MAX));
    assert_eq!(u64_from_decimal(b"0"), Some(0));
}

#[test]
fn quoted_parser_requires_quotes() {
    assert_eq!(u64_from_quoted(b"42"), None);
    assert_eq!(u64_from_quoted(b"\"42"), None);
    assert_eq!(u64_from_quoted(b"42\""), None);
    assert_eq!(u64_from_quoted(b"\"\""), None);
    assert_eq!(u64_from_quoted(b"\"42\""), Some(42));
}
