//! The two cryptographic primitives the pipeline relies on: SHA-256
//! digests and ECDSA P-256 signature verification. Both are calls into
//! outside crates behind trusted contracts; everything downstream of
//! them is verified.

use vstd::prelude::*;
use sha2::Digest;

verus! {

/// The SHA-256 digest of a byte sequence.
pub uninterp spec fn sha256_of(data: Seq<u8>) -> Seq<u8>;

/// Relies on sha2's `Sha256::digest`: the digest depends on the input
/// bytes alone and is 32 bytes long.
#[verifier::external_body]
pub fn sha256(data: &[u8]) -> (r: Vec<u8>)
    ensures
        r@ == sha256_of(data@),
        r@.len() == 32,
{
    sha2::Sha256::digest(data).to_vec()
}

/// Whether `sig` is a valid ECDSA P-256 signature by the SEC1 key
/// `pubkey` over `msg` (SHA-256 prehash), with `pubkey` parsing as a
/// P-256 point and `sig` as a pair of scalars.
pub uninterp spec fn ecdsa_p256_ok(pubkey: Seq<u8>, msg: Seq<u8>, sig: Seq<u8>) -> bool;

/// Relies on p256's `VerifyingKey::from_sec1_bytes`,
/// `Signature::from_slice` and `Verifier::verify`: ECDSA verification
/// is deterministic in the key, message, and signature bytes.
#[verifier::external_body]
pub fn ecdsa_p256_verify(pubkey_sec1: &[u8], msg: &[u8], sig: &[u8]) -> (r: bool)
    ensures
        r == ecdsa_p256_ok(pubkey_sec1@, msg@, sig@),
{
    let key = match p256::ecdsa::VerifyingKey::from_sec1_bytes(pubkey_sec1) {
        Ok(k) => k,
        Err(_) => return false,
    };
    let parsed = match p256::ecdsa::Signature::from_slice(sig) {
        Ok(s) => s,
        Err(_) => return false,
    };
    p256::ecdsa::signature::Verifier::verify(&key, msg, &parsed).is_ok()
}

} // verus!
