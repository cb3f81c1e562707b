//! Ed25519 signatures. The arithmetic belongs to `ed25519_dalek`; keys and
//! signatures cross this boundary as bytes.

use vstd::prelude::*;

verus! {

/// The public key of the signing key with the given 32-byte seed.
pub uninterp spec fn ed25519_public_key(seed: Seq<u8>) -> Seq<u8>;

/// The signature that the signing key with the given seed makes over `data`.
pub uninterp spec fn ed25519_signature(seed: Seq<u8>, data: Seq<u8>) -> Seq<u8>;

/// Whether 32 bytes encode a public key.
pub uninterp spec fn ed25519_key_decodes(public_key: Seq<u8>) -> bool;

/// Whether the public key accepts the 64-byte signature over `data`.
pub uninterp spec fn ed25519_accepts(public_key: Seq<u8>, data: Seq<u8>, signature: Seq<u8>) -> bool;

/// Calls `SigningKey::generate` with the operating system's random numbers
/// and hands out the seed of the new key.
#[verifier::external_body]
pub(crate) fn ed25519_generate() -> (seed: [u8; 32]) {
    ed25519_dalek::SigningKey::generate(&mut rand::rngs::OsRng).to_bytes()
}

/// Calls `SigningKey::verifying_key` on the key of the seed. The public key
/// has 32 bytes, and `VerifyingKey::from_bytes` reads it back.
#[verifier::external_body]
pub(crate) fn ed25519_public(seed: &[u8; 32]) -> (public_key: Vec<u8>)
    ensures
        public_key@ == ed25519_public_key(seed@),
        public_key@.len() == 32,
        ed25519_key_decodes(public_key@),
{
    ed25519_dalek::SigningKey::from_bytes(seed).verifying_key().to_bytes().to_vec()
}

/// Calls `Signer::sign` on the key of the seed. The signature has 64 bytes,
/// and the key's own public key accepts it over the same data.
#[verifier::external_body]
pub(crate) fn ed25519_sign(seed: &[u8; 32], data: &[u8]) -> (signature: Vec<u8>)
    ensures
        signature@ == ed25519_signature(seed@, data@),
        signature@.len() == 64,
        ed25519_accepts(ed25519_public_key(seed@), data@, signature@),
{
    let key = ed25519_dalek::SigningKey::from_bytes(seed);
    ed25519_dalek::Signer::sign(&key, data).to_bytes().to_vec()
}

/// Calls `VerifyingKey::from_bytes`. An error comes back as its message.
#[verifier::external_body]
pub(crate) fn ed25519_check_key(public_key: &[u8]) -> (r: Result<(), String>)
    requires
        public_key@.len() == 32,
    ensures
        r is Ok == ed25519_key_decodes(public_key@),
{
    let bytes: &[u8; 32] = public_key.try_into().unwrap();
    ed25519_dalek::VerifyingKey::from_bytes(bytes).map(|_| ()).map_err(|e| e.to_string())
}

/// Calls `Verifier::verify` on the public key and says whether it accepted
/// the signature.
#[verifier::external_body]
pub(crate) fn ed25519_verify(public_key: &[u8], data: &[u8], signature: &[u8]) -> (accepted: bool)
    requires
        public_key@.len() == 32,
        ed25519_key_decodes(public_key@),
        signature@.len() == 64,
    ensures
        accepted == ed25519_accepts(public_key@, data@, signature@),
{
    let key = ed25519_dalek::VerifyingKey::from_bytes(public_key.try_into().unwrap()).unwrap();
    let signature = ed25519_dalek::Signature::from_bytes(signature.try_into().unwrap());
    ed25519_dalek::Verifier::verify(&key, data, &signature).is_ok()
}

} // verus!
