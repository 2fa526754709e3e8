use vstd::prelude::*;

use crate::types::Hash256;

verus! {

/// The Keccak-256 digest of a byte string.
pub uninterp spec fn keccak256_of(data: Seq<u8>) -> Seq<u8>;

/// Whether `signature` is a valid ECDSA signature over the 32-byte `message` by `key`.
pub uninterp spec fn ecdsa_valid(message: Seq<u8>, signature: Seq<u8>, key: Seq<u8>) -> bool;

/// Relies on sha3's `Keccak256` (through `Digest::digest`): a 32-byte digest that
/// depends on the input bytes alone.
#[verifier::external_body]
pub(crate) fn keccak256(data: &[u8]) -> (r: Hash256)
    ensures
        r.hash@ == keccak256_of(data@),
{
    let out = <sha3::Keccak256 as sha3::Digest>::digest(data);
    Hash256 { hash: out.into() }
}

/// Relies on secp256k1's ECDSA verification: the message, the 64-byte compact
/// signature and the serialized public key are parsed, then `verify_ecdsa` decides.
/// An input that does not parse is not a valid signature. The verdict depends on the
/// bytes alone.
#[verifier::external_body]
pub(crate) fn verify_signature(message: &Hash256, signature: &[u8], key: &[u8]) -> (r: bool)
    ensures
        r == ecdsa_valid(message.hash@, signature@, key@),
{
    let msg = match secp256k1::Message::from_slice(&message.hash) {
        Ok(m) => m,
        Err(_) => return false,
    };
    let sig = match secp256k1::ecdsa::Signature::from_compact(signature) {
        Ok(s) => s,
        Err(_) => return false,
    };
    let pk = match secp256k1::PublicKey::from_slice(key) {
        Ok(p) => p,
        Err(_) => return false,
    };
    secp256k1::Secp256k1::verification_only().verify_ecdsa(&msg, &sig, &pk).is_ok()
}

} // verus!
