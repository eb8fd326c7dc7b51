//! The cryptographic boundary: the SHA-256 digest used by merkleization,
//! and the BLS secret key and signing call used to derive selection
//! proofs. Only the calls themselves are trusted; everything built on them
//! is verified against the names given to their results here.

use vstd::prelude::*;

verus! {

use sha2::Digest;
use bls_signatures::Serialize;

/// The SHA-256 digest of a byte string. The digest is a pure function of
/// its input, so it gets a name; nothing else is assumed of it.
pub uninterp spec fn sha256_of(input: Seq<u8>) -> Seq<u8>;

/// Relies on sha2::Sha256::digest: the SHA-256 digest, 32 bytes, a
/// function of the input bytes alone.
#[verifier::external_body]
pub(crate) fn sha256(input: &[u8]) -> (r: Vec<u8>)
    ensures
        r@ == sha256_of(input@),
        r@.len() == 32,
{
    sha2::Sha256::digest(input).to_vec()
}

/// The BLS signature produced by the secret key generated from `seed`
/// over `message`. Signing is deterministic — the signature is a function
/// of the key and the message alone — so the result gets a name.
pub uninterp spec fn bls_signature_of(seed: Seq<u8>, message: Seq<u8>) -> Seq<u8>;

/// A BLS secret key, deterministically generated from seed material.
///
/// The view of a key is the seed it was generated from: the scalar inside
/// is a function of that seed, so every statement about what the key
/// signs can be made over the seed alone.
pub struct SecretKey {
    seed: Vec<u8>,
    key: bls_signatures::PrivateKey,
}

#[verifier::external_type_specification]
#[verifier::external_body]
pub struct ExPrivateKey(bls_signatures::PrivateKey);

impl View for SecretKey {
    type V = Seq<u8>;

    closed spec fn view(&self) -> Seq<u8> {
        self.seed@
    }
}

/// Relies on bls_signatures::PrivateKey::new: deterministic key
/// generation from seed material, which panics on fewer than 32 bytes —
/// excluded here by precondition.
#[verifier::external_body]
fn generate_key(seed: &Vec<u8>) -> (r: SecretKey)
    requires
        seed@.len() >= 32,
    ensures
        r@ == seed@,
{
    SecretKey { seed: seed.clone(), key: bls_signatures::PrivateKey::new(seed.as_slice()) }
}

/// Relies on bls_signatures::PrivateKey::sign and
/// bls_signatures::Serialize::as_bytes: deterministic BLS signing, with
/// the signature serialized as the 96-byte compressed form.
#[verifier::external_body]
pub(crate) fn bls_sign(key: &SecretKey, message: &Vec<u8>) -> (r: Vec<u8>)
    ensures
        r@ == bls_signature_of(key@, message@),
        r@.len() == 96,
{
    key.key.sign(message.as_slice()).as_bytes()
}

impl SecretKey {
    /// Generate a secret key from seed material of at least 32 bytes.
    /// Generation is deterministic: equal seeds give keys that sign
    /// identically.
    pub fn from_seed(seed: &Vec<u8>) -> (r: Self)
        requires
            seed@.len() >= 32,
        ensures
            r@ == seed@,
    {
        generate_key(seed)
    }
}

} // verus!
