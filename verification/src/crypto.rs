//! Trusted boundary to the cryptographic primitives: SHA-256, RIPEMD-160,
//! bech32 address encoding and secp256k1 signature verification. Each result
//! is named by an uninterpreted function of the inputs; everything built on
//! top of these names is verified.

use sha2::Digest;
use vstd::prelude::*;

verus! {

/// The SHA-256 digest of `data`.
pub uninterp spec fn sha256_of(data: Seq<u8>) -> Seq<u8>;

/// Relies on `sha2::Sha256`: the digest is a function of the input bytes
/// alone and is 32 bytes long.
#[verifier::external_body]
pub fn sha256(data: &[u8]) -> (r: Vec<u8>)
    ensures
        r@ == sha256_of(data@),
        r@.len() == 32,
{
    let mut h = sha2::Sha256::new();
    h.update(data);
    h.finalize().to_vec()
}

/// The RIPEMD-160 digest of `data`.
pub uninterp spec fn ripemd160_of(data: Seq<u8>) -> Seq<u8>;

/// Relies on `ripemd::Ripemd160`: the digest is a function of the input
/// bytes alone and is 20 bytes long.
#[verifier::external_body]
pub fn ripemd160(data: &[u8]) -> (r: Vec<u8>)
    ensures
        r@ == ripemd160_of(data@),
        r@.len() == 20,
{
    let mut h = ripemd::Ripemd160::new();
    h.update(data);
    h.finalize().to_vec()
}

/// The bech32 string for `data` under the human-readable part `prefix`, or
/// `None` when the pair cannot be encoded.
pub uninterp spec fn bech32_of(prefix: Seq<char>, data: Seq<u8>) -> Option<Seq<char>>;

/// Relies on `bech32::Hrp::parse` and `bech32::encode` with the `Bech32`
/// checksum: the encoding is a function of prefix and data alone; it fails
/// exactly when the prefix is not a valid human-readable part or the encoded
/// string would exceed the checksum's code length.
#[verifier::external_body]
pub fn bech32_encode(prefix: &str, data: &[u8]) -> (r: Option<String>)
    ensures
        r is Some <==> bech32_of(prefix@, data@) is Some,
        r matches Some(s) ==> bech32_of(prefix@, data@) == Some(s@),
{
    let hrp = match bech32::Hrp::parse(prefix) {
        Ok(h) => h,
        Err(_) => return None,
    };
    bech32::encode::<bech32::Bech32>(hrp, data).ok()
}

/// Whether secp256k1 verification accepts `sig` over the 32-byte message
/// digest `hash` under the SEC 1 encoded public key `pk`.
pub uninterp spec fn secp256k1_accepts(hash: Seq<u8>, sig: Seq<u8>, pk: Seq<u8>) -> bool;

/// Relies on `cosmwasm_crypto::secp256k1_verify`: the outcome is a function
/// of digest, signature and key alone; true exactly when it returns
/// `Ok(true)`, while malformed inputs and cryptographically invalid
/// signatures both count as rejection.
#[verifier::external_body]
pub fn secp256k1_verify(hash: &[u8], sig: &[u8], pk: &[u8]) -> (r: bool)
    ensures
        r == secp256k1_accepts(hash@, sig@, pk@),
{
    matches!(cosmwasm_crypto::secp256k1_verify(hash, sig, pk), Ok(true))
}

} // verus!
