use bls_signatures::Serialize as BlsSerialize;
use contribution_and_proof::crypto::SecretKey;
use sha2::Digest;
use contribution_and_proof::types::{
    ContributionAndProof, Fork, Hash256, Signature, SyncCommitteeContribution, SyncSelectionProof,
};

fn test_fork() -> Fork {
    Fork {
        previous_version: vec![0, 0, 0, 0],
        current_version: vec![1, 0, 0, 0],
        epoch: 5,
    }
}

fn test_root() -> Hash256 {
    Hash256 { bytes: vec![9u8; 32] }
}

fn test_contribution(slot: u64, subcommittee_index: u64) -> SyncCommitteeContribution {
    SyncCommitteeContribution {
        slot,
        subcommittee_index,
        aggregate: vec![1, 2, 3],
    }
}

#[test]
fn construction_is_deterministic() {
    let seed = vec![7u8; 32];
    let key1 = SecretKey::from_seed(&seed);
    let key2 = SecretKey::from_seed(&seed);
    let e1 = ContributionAndProof::from_aggregate(
        11,
        test_contribution(100, 3),
        None,
        &key1,
        &test_fork(),
        test_root(),
    );
    let e2 = ContributionAndProof::from_aggregate(
        11,
        test_contribution(100, 3),
        None,
        &key2,
        &test_fork(),
        test_root(),
    );
    assert_eq!(e1, e2);
    assert_eq!(e1.as_ssz_bytes(), e2.as_ssz_bytes());
}

#[test]
fn supplied_proof_is_used_exactly() {
    let seed = vec![7u8; 32];
    let key = SecretKey::from_seed(&seed);
    let supplied = SyncSelectionProof { bytes: vec![5u8; 96] };
    let envelope = ContributionAndProof::from_aggregate(
        11,
        test_contribution(100, 3),
        Some(supplied),
        &key,
        &test_fork(),
        test_root(),
    );
    assert_eq!(envelope.selection_proof.bytes, vec![5u8; 96]);
    let derived = ContributionAndProof::from_aggregate(
        11,
        test_contribution(100, 3),
        None,
        &key,
        &test_fork(),
        test_root(),
    );
    assert_ne!(envelope.selection_proof, derived.selection_proof);
}

#[test]
fn derived_proofs_differ_across_duties() {
    let seed = vec![7u8; 32];
    let key = SecretKey::from_seed(&seed);
    let fork = test_fork();
    let root = test_root();
    let p_base = SyncSelectionProof::new(100, 3, &key, &fork, &root);
    let p_slot = SyncSelectionProof::new(101, 3, &key, &fork, &root);
    let p_index = SyncSelectionProof::new(100, 4, &key, &fork, &root);
    assert_ne!(p_base.bytes, p_slot.bytes);
    assert_ne!(p_base.bytes, p_index.bytes);
    assert_ne!(p_slot.bytes, p_index.bytes);
}

#[test]
fn concrete_scenario_matches_provider_output() {
    let seed = vec![7u8; 32];
    let key = SecretKey::from_seed(&seed);
    let fork = test_fork();
    let envelope = ContributionAndProof::from_aggregate(
        42,
        test_contribution(100, 3),
        None,
        &key,
        &fork,
        test_root(),
    );
    assert_eq!(envelope.aggregator_index, 42);
    assert_eq!(envelope.contribution.slot(), 100);
    assert_eq!(envelope.contribution.subcommittee_index(), 3);
    let provider_output = SyncSelectionProof::new(100, 3, &key, &fork, &test_root());
    assert_eq!(envelope.selection_proof, Signature::from(provider_output));
    let again = ContributionAndProof::from_aggregate(
        42,
        test_contribution(100, 3),
        None,
        &key,
        &fork,
        test_root(),
    );
    assert_eq!(envelope.as_ssz_bytes(), again.as_ssz_bytes());
}

fn sha2_pair(a: &[u8], b: &[u8]) -> Vec<u8> {
    let mut input = a.to_vec();
    input.extend_from_slice(b);
    sha2::Sha256::digest(&input).to_vec()
}

fn u64_leaf(x: u64) -> Vec<u8> {
    let mut chunk = x.to_le_bytes().to_vec();
    chunk.resize(32, 0);
    chunk
}

#[test]
fn contribution_digest_matches_recomputation() {
    let contribution = test_contribution(100, 3);
    let mut aggregate_chunk = vec![1u8, 2, 3];
    aggregate_chunk.resize(32, 0);
    let aggregate_root = sha2_pair(&aggregate_chunk, &u64_leaf(3));
    let left = sha2_pair(&u64_leaf(100), &u64_leaf(3));
    let right = sha2_pair(&aggregate_root, &[0u8; 32]);
    let expected = sha2_pair(&left, &right);
    assert_eq!(contribution.tree_hash_root().bytes, expected);
}

#[test]
fn derived_proof_verifies_under_bls() {
    let seed = vec![7u8; 32];
    let key = SecretKey::from_seed(&seed);
    let fork = test_fork();
    let root = test_root();
    let proof = SyncSelectionProof::new(100, 3, &key, &fork, &root);

    // Recompute the signing root independently.
    let data_root = sha2_pair(&u64_leaf(100), &u64_leaf(3));
    let mut version_chunk = vec![1u8, 0, 0, 0];
    version_chunk.resize(32, 0);
    let fork_data_root = sha2_pair(&version_chunk, &[9u8; 32]);
    let mut domain = vec![7u8, 0, 0, 0];
    domain.extend_from_slice(&fork_data_root[0..28]);
    let signing_root = sha2_pair(&data_root, &domain);

    let bls_key = bls_signatures::PrivateKey::new(&seed);
    let signature = bls_signatures::Signature::from_bytes(&proof.bytes).unwrap();
    assert!(bls_key.public_key().verify(signature, &signing_root));
}
