//! The outside cryptography the library calls: BLAKE3 (`blake3`) and
//! Ed25519 (`ed25519-dalek`). Keys, seeds and signatures cross as plain
//! byte arrays; what the algorithms compute is named, not restated.

use ed25519_dalek::{Signature, Signer, SigningKey, Verifier, VerifyingKey};
use vstd::prelude::*;

verus! {

/// The 32-byte BLAKE3 digest of `data`.
pub uninterp spec fn blake3_digest(data: Seq<u8>) -> Seq<u8>;

/// The compressed Ed25519 verifying key of the 32-byte secret seed.
pub uninterp spec fn ed25519_public_key(seed: Seq<u8>) -> Seq<u8>;

/// Whether 32 bytes decompress to an Edwards point (a usable verifying key).
pub uninterp spec fn ed25519_key_decodes(key: Seq<u8>) -> bool;

/// The 64-byte Ed25519 signature of `msg` under the secret seed.
pub uninterp spec fn ed25519_signature(seed: Seq<u8>, msg: Seq<u8>) -> Seq<u8>;

/// Whether `sig` verifies on `msg` under the key bytes (the standard check).
pub uninterp spec fn ed25519_accepts(key: Seq<u8>, msg: Seq<u8>, sig: Seq<u8>) -> bool;

/// Whether `sig` verifies on `msg` under the key bytes with the strict
/// check (small-order keys and small-order commitments refused).
pub uninterp spec fn ed25519_accepts_strict(key: Seq<u8>, msg: Seq<u8>, sig: Seq<u8>) -> bool;

/// `blake3::hash`: the digest of `data`, as its 32 bytes. Nothing is
/// claimed of the digest beyond its being the BLAKE3 hash of these bytes.
#[verifier::external_body]
pub fn blake3_hash(data: &[u8]) -> (digest: [u8; 32])
    ensures
        digest@ == blake3_digest(data@),
{
    *blake3::hash(data).as_bytes()
}

/// `SigningKey::from_bytes(seed).verifying_key().to_bytes()`: the public
/// half of a seed. Claims that it is the named key and that the bytes
/// decompress again (they are the compression of a valid point).
#[verifier::external_body]
pub fn ed25519_public(seed: &[u8; 32]) -> (key: [u8; 32])
    ensures
        key@ == ed25519_public_key(seed@),
        ed25519_key_decodes(key@),
{
    SigningKey::from_bytes(seed).verifying_key().to_bytes()
}

/// `VerifyingKey::from_bytes(key).is_ok()`: whether the bytes are a
/// usable verifying key.
#[verifier::external_body]
pub fn ed25519_key_valid(key: &[u8; 32]) -> (ok: bool)
    ensures
        ok == ed25519_key_decodes(key@),
{
    VerifyingKey::from_bytes(key).is_ok()
}

/// `SigningKey::from_bytes(seed).sign(msg).to_bytes()`: the deterministic
/// Ed25519 signature. Claims that it is the named signature and that the
/// standard verification accepts it under the seed's public key (Ed25519
/// correctness); nothing is claimed of the strict verification.
#[verifier::external_body]
pub fn ed25519_sign(seed: &[u8; 32], msg: &[u8]) -> (sig: [u8; 64])
    ensures
        sig@ == ed25519_signature(seed@, msg@),
        ed25519_accepts(ed25519_public_key(seed@), msg@, sig@),
{
    SigningKey::from_bytes(seed).sign(msg).to_bytes()
}

/// `VerifyingKey::from_bytes(key)` then `Verifier::verify(msg, sig)`:
/// whether the signature verifies; key bytes that do not decompress never
/// verify.
#[verifier::external_body]
pub fn ed25519_verify(key: &[u8; 32], msg: &[u8], sig: &[u8; 64]) -> (ok: bool)
    ensures
        ok == ed25519_accepts(key@, msg@, sig@),
        ok ==> ed25519_key_decodes(key@),
{
    match VerifyingKey::from_bytes(key) {
        Ok(k) => k.verify(msg, &Signature::from_bytes(sig)).is_ok(),
        Err(_) => false,
    }
}

/// `VerifyingKey::from_bytes(key)` then `verify_strict(msg, sig)`: whether
/// the signature passes the strict check; key bytes that do not decompress
/// never verify.
#[verifier::external_body]
pub fn ed25519_verify_strict(key: &[u8; 32], msg: &[u8], sig: &[u8; 64]) -> (ok: bool)
    ensures
        ok == ed25519_accepts_strict(key@, msg@, sig@),
        ok ==> ed25519_key_decodes(key@),
{
    match VerifyingKey::from_bytes(key) {
        Ok(k) => k.verify_strict(msg, &Signature::from_bytes(sig)).is_ok(),
        Err(_) => false,
    }
}

} // verus!
