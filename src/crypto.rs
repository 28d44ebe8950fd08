//! The two cryptographic primitives the adjudicator relies on: Keccak-256
//! for identifiers and ECDSA (secp256k1) signature checks.

use vstd::prelude::*;

verus! {

/// The Keccak-256 digest of a byte string.
pub uninterp spec fn keccak_256_of(data: Seq<u8>) -> Seq<u8>;

/// Whether `sig` is a valid ECDSA signature of `msg` by the holder of the
/// compressed public key `pk`.
pub uninterp spec fn ecdsa_verifies(sig: Seq<u8>, msg: Seq<u8>, pk: Seq<u8>) -> bool;

/// Relies on sp_core::KeccakHasher: the 32-byte Keccak-256 digest of `data`.
#[verifier::external_body]
pub(crate) fn keccak_256(data: &Vec<u8>) -> (r: [u8; 32])
    ensures
        r@ == keccak_256_of(data@),
{
    <sp_core::KeccakHasher as sp_core::Hasher>::hash(data).0
}

/// Relies on sp_core::ecdsa::Pair::verify: it recovers the signer of the
/// Blake2-256 digest of `msg` from the 65-byte recoverable signature and
/// compares the result with `pk`; a malformed signature yields false.
#[verifier::external_body]
pub(crate) fn ecdsa_verify(sig: &[u8; 65], msg: &Vec<u8>, pk: &[u8; 33]) -> (r: bool)
    ensures
        r == ecdsa_verifies(sig@, msg@, pk@),
{
    let sig = sp_core::ecdsa::Signature::from_raw(*sig);
    let pk = sp_core::ecdsa::Public::from_raw(*pk);
    <sp_core::ecdsa::Pair as sp_core::Pair>::verify(&sig, msg, &pk)
}

} // verus!
