//! Content hashing (BLAKE3) and attestation signatures (Ed25519).
//!
//! Keys, signatures and digests are held as byte strings: a secret key and
//! a public key are 32 bytes, a signature 64 bytes, a digest 32 bytes.

use vstd::prelude::*;

verus! {

/// The 32-byte BLAKE3 digest of a byte string.
pub uninterp spec fn blake3_hash(data: Seq<u8>) -> Seq<u8>;

/// The 32-byte Ed25519 public key of a 32-byte secret key.
pub uninterp spec fn ed25519_public_key(secret: Seq<u8>) -> Seq<u8>;

/// The 64-byte Ed25519 signature (RFC 8032, deterministic) of a message
/// under a 32-byte secret key.
pub uninterp spec fn ed25519_signature(secret: Seq<u8>, message: Seq<u8>) -> Seq<u8>;

/// Whether 32 bytes are the compressed form of a curve point, that is,
/// whether they can be read as a public key.
pub uninterp spec fn ed25519_key_decodes(public: Seq<u8>) -> bool;

/// Whether a 64-byte signature verifies for a message under a public key.
pub uninterp spec fn ed25519_verifies(public: Seq<u8>, message: Seq<u8>, signature: Seq<u8>) -> bool;

/// `blake3::hash`, taken as its 32 raw bytes (`Hash::as_bytes`).
#[verifier::external_body]
pub(crate) fn blake3_digest(data: &[u8]) -> (r: Vec<u8>)
    ensures
        r@ == blake3_hash(data@),
        r@.len() == 32,
{
    blake3::hash(data).as_bytes().to_vec()
}

/// `ed25519_dalek::SigningKey::generate` with the operating system's random
/// source, taken as its 32 secret bytes (`SigningKey::to_bytes`). The bytes
/// are random: nothing is said of them but their number.
#[verifier::external_body]
pub(crate) fn generate_secret_key() -> (r: Vec<u8>)
    ensures
        r@.len() == 32,
{
    ed25519_dalek::SigningKey::generate(&mut rand::rngs::OsRng).to_bytes().to_vec()
}

/// `SigningKey::verifying_key` of the key built from `secret` by
/// `SigningKey::from_bytes`, as its 32 compressed bytes
/// (`VerifyingKey::to_bytes`). Those bytes are the compression of a curve
/// point, so `VerifyingKey::from_bytes` reads them back.
#[verifier::external_body]
pub(crate) fn public_key_of(secret: &[u8]) -> (r: Vec<u8>)
    requires
        secret@.len() == 32,
    ensures
        r@ == ed25519_public_key(secret@),
        r@.len() == 32,
        ed25519_key_decodes(r@),
{
    let secret: [u8; 32] = secret.try_into().expect("32 bytes");
    ed25519_dalek::SigningKey::from_bytes(&secret).verifying_key().to_bytes().to_vec()
}

/// `Signer::sign` of the key built from `secret`, as the 64 signature bytes
/// (`Signature::to_bytes`). Signing is deterministic, and the signature
/// verifies for the same message under the key's public key.
#[verifier::external_body]
pub(crate) fn sign_message(secret: &[u8], message: &[u8]) -> (r: Vec<u8>)
    requires
        secret@.len() == 32,
    ensures
        r@ == ed25519_signature(secret@, message@),
        r@.len() == 64,
        ed25519_verifies(ed25519_public_key(secret@), message@, r@),
{
    let secret: [u8; 32] = secret.try_into().expect("32 bytes");
    let key = ed25519_dalek::SigningKey::from_bytes(&secret);
    ed25519_dalek::Signer::sign(&key, message).to_bytes().to_vec()
}

/// The message of the error that `VerifyingKey::from_bytes` returns for
/// bytes that are not a curve point (`InternalError::PointDecompression`
/// wrapped as a `signature::Error`, with the `std` feature on).
pub open spec fn point_decompression_message() -> Seq<char> {
    "signature error: Cannot decompress Edwards point"@
}

/// `VerifyingKey::from_bytes`: `Ok` where the bytes read as a public key,
/// else the error's message; decompression is the only way it fails.
#[verifier::external_body]
pub(crate) fn decode_public_key(public: &[u8]) -> (r: Result<(), String>)
    requires
        public@.len() == 32,
    ensures
        r is Ok <==> ed25519_key_decodes(public@),
        r matches Err(m) ==> m@ == point_decompression_message(),
{
    let public: [u8; 32] = public.try_into().expect("32 bytes");
    match ed25519_dalek::VerifyingKey::from_bytes(&public) {
        Ok(_) => Ok(()),
        Err(e) => Err(e.to_string()),
    }
}

/// `Verifier::verify` of the public key read from `public` on the signature
/// read from `signature` (`Signature::from_bytes`), as whether it is `Ok`.
#[verifier::external_body]
pub(crate) fn verify_signature(public: &[u8], message: &[u8], signature: &[u8]) -> (r: bool)
    requires
        public@.len() == 32,
        signature@.len() == 64,
        ed25519_key_decodes(public@),
    ensures
        r == ed25519_verifies(public@, message@, signature@),
{
    let public: [u8; 32] = public.try_into().expect("32 bytes");
    let signature: [u8; 64] = signature.try_into().expect("64 bytes");
    let key = ed25519_dalek::VerifyingKey::from_bytes(&public).expect("decodable key");
    ed25519_dalek::Verifier::verify(&key, message, &ed25519_dalek::Signature::from_bytes(&signature)).is_ok()
}

} // verus!
