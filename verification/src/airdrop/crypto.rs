//! The three verifiers of the airdrop: source-address derivation from a
//! public key, signature verification over the canonical claim message, and
//! Merkle proof verification against the committed root.

use vstd::prelude::*;
use vstd::utf8::encode_utf8;
use crate::airdrop::types::AirdropError;
use crate::bytes::{bytes_concat, bytes_eq, bytes_lt, lex_lt};
use crate::crypto::{bech32_encode, bech32_of, ripemd160, ripemd160_of, secp256k1_accepts,
    secp256k1_verify, sha256, sha256_of};
use crate::hex::{hex_decode, spec_hex_decode};

verus! {

/// Whether `n` is the byte length of a SEC 1 encoded secp256k1 public key,
/// compressed or uncompressed.
pub open spec fn valid_pubkey_len(n: nat) -> bool {
    n == 33 || n == 65
}

/// The source-chain address owned by the key `pk_hex` under `prefix`:
/// bech32 of RIPEMD-160 of SHA-256 of the decoded key bytes. `None` when the
/// hex is malformed, the length fits no public key encoding, or the pair
/// cannot be bech32 encoded.
pub open spec fn spec_pubkey_to_addr(pk_hex: Seq<char>, prefix: Seq<char>) -> Option<Seq<char>> {
    match spec_hex_decode(pk_hex) {
        None => None,
        Some(pk) => if valid_pubkey_len(pk.len()) {
            bech32_of(prefix, ripemd160_of(sha256_of(pk)))
        } else {
            None
        },
    }
}

/// Derives the account address that owns `pubkey_hex` on the chain using
/// `prefix`; the caller never gets to supply the source address itself.
pub fn pubkey_to_addr(pubkey_hex: &str, prefix: &str) -> (r: Result<String, AirdropError>)
    ensures
        r matches Ok(addr) ==> spec_pubkey_to_addr(pubkey_hex@, prefix@) == Some(addr@),
        r is Err ==> r == Err::<String, AirdropError>(AirdropError::DecodeError)
            && spec_pubkey_to_addr(pubkey_hex@, prefix@) is None,
{
    let pk = match hex_decode(pubkey_hex) {
        Some(pk) => pk,
        None => {
            return Err(AirdropError::DecodeError);
        },
    };
    if !(pk.len() == 33 || pk.len() == 65) {
        return Err(AirdropError::DecodeError);
    }
    let digest = sha256(pk.as_slice());
    let id = ripemd160(digest.as_slice());
    match bech32_encode(prefix, id.as_slice()) {
        Some(addr) => Ok(addr),
        None => Err(AirdropError::DecodeError),
    }
}

/// Outcome of the signature check for a message and hex-encoded key and
/// signature: `None` when either hex is malformed or has a wrong byte
/// length, otherwise whether secp256k1 accepts the signature over the
/// SHA-256 digest of the message's UTF-8 bytes.
pub open spec fn spec_verify_signature(
    message: Seq<char>,
    pk_hex: Seq<char>,
    sig_hex: Seq<char>,
) -> Option<bool> {
    match (spec_hex_decode(pk_hex), spec_hex_decode(sig_hex)) {
        (Some(pk), Some(sig)) => if valid_pubkey_len(pk.len()) && sig.len() == 64 {
            Some(secp256k1_accepts(sha256_of(encode_utf8(message)), sig, pk))
        } else {
            None
        },
        _ => None,
    }
}

/// Checks that `signature_hex` was produced over exactly `message` by the
/// key behind `pubkey_hex`. A cryptographically invalid signature yields
/// `Ok(false)`, not an error.
pub fn verify_signature(message: &str, pubkey_hex: &str, signature_hex: &str) -> (r: Result<
    bool,
    AirdropError,
>)
    ensures
        r matches Ok(b) ==> spec_verify_signature(message@, pubkey_hex@, signature_hex@) == Some(b),
        r is Err ==> r == Err::<bool, AirdropError>(AirdropError::DecodeError)
            && spec_verify_signature(message@, pubkey_hex@, signature_hex@) is None,
{
    let pk = match hex_decode(pubkey_hex) {
        Some(pk) => pk,
        None => {
            return Err(AirdropError::DecodeError);
        },
    };
    let sig = match hex_decode(signature_hex) {
        Some(sig) => sig,
        None => {
            return Err(AirdropError::DecodeError);
        },
    };
    if !(pk.len() == 33 || pk.len() == 65) || sig.len() != 64 {
        return Err(AirdropError::DecodeError);
    }
    let hash = sha256(message.as_bytes());
    Ok(secp256k1_verify(hash.as_slice(), sig.as_slice(), pk.as_slice()))
}

/// Two sibling digests combined in ascending byte-lexicographic order; the
/// canonical choice that makes leaf order irrelevant to proof validity.
pub open spec fn spec_combine(a: Seq<u8>, b: Seq<u8>) -> Seq<u8> {
    if lex_lt(b, a) {
        b + a
    } else {
        a + b
    }
}

/// The running digest folded up the tree through `siblings`, in order.
pub open spec fn spec_fold(digest: Seq<u8>, siblings: Seq<Seq<u8>>) -> Seq<u8>
    decreases siblings.len(),
{
    if siblings.len() == 0 {
        digest
    } else {
        spec_fold(sha256_of(spec_combine(digest, siblings[0])), siblings.drop_first())
    }
}

/// Folding one more sibling hashes it onto the fold so far.
pub proof fn lemma_fold_push(digest: Seq<u8>, siblings: Seq<Seq<u8>>, sib: Seq<u8>)
    ensures
        spec_fold(digest, siblings.push(sib)) == sha256_of(
            spec_combine(spec_fold(digest, siblings), sib),
        ),
    decreases siblings.len(),
{
    if siblings.len() == 0 {
        let one = siblings.push(sib);
        assert(one.drop_first() =~= Seq::<Seq<u8>>::empty());
        assert(one[0] == sib);
        assert(spec_fold(digest, one) == spec_fold(
            sha256_of(spec_combine(digest, sib)),
            one.drop_first(),
        ));
        assert(spec_fold(sha256_of(spec_combine(digest, sib)), one.drop_first()) == sha256_of(
            spec_combine(digest, sib),
        ));
        assert(spec_fold(digest, siblings) == digest);
    } else {
        assert(siblings.push(sib)[0] == siblings[0]);
        assert(siblings.push(sib).drop_first() =~= siblings.drop_first().push(sib));
        lemma_fold_push(sha256_of(spec_combine(digest, siblings[0])), siblings.drop_first(), sib);
        assert(spec_fold(digest, siblings.push(sib)) == spec_fold(
            sha256_of(spec_combine(digest, siblings[0])),
            siblings.drop_first().push(sib),
        ));
    }
}

/// The character sequences of a vector of strings.
pub open spec fn str_views(p: Seq<String>) -> Seq<Seq<char>> {
    p.map(|i: int, s: String| s@)
}

/// Whether every proof element is valid hex of digest length.
pub open spec fn valid_sibs(proof: Seq<Seq<char>>) -> bool {
    forall|i: int|
        0 <= i < proof.len() ==> (#[trigger] spec_hex_decode(proof[i])) is Some && spec_hex_decode(
            proof[i],
        ).unwrap().len() == 32
}

/// The decoded bytes of each proof element; meaningful under `valid_sibs`.
pub open spec fn decoded_sibs(proof: Seq<Seq<char>>) -> Seq<Seq<u8>> {
    proof.map(|i: int, s: Seq<char>| spec_hex_decode(s).unwrap())
}

/// Outcome of the Merkle check: `None` when the root or a proof element is
/// not valid hex of digest length; otherwise whether the leaf's digest,
/// folded through the proof, reaches the root.
pub open spec fn spec_verify_proof(
    leaf: Seq<char>,
    root_hex: Seq<char>,
    proof: Seq<Seq<char>>,
) -> Option<bool> {
    match spec_hex_decode(root_hex) {
        None => None,
        Some(root) => if root.len() == 32 && valid_sibs(proof) {
            Some(spec_fold(sha256_of(encode_utf8(leaf)), decoded_sibs(proof)) == root)
        } else {
            None
        },
    }
}

/// Recombines `leaf`'s digest up the tree along `proof` and compares the
/// result against the committed root. An empty proof is valid exactly when
/// the leaf's digest itself is the root.
pub fn verify_proof(leaf: &str, root_hex: &str, proof: &Vec<String>) -> (r: Result<
    bool,
    AirdropError,
>)
    ensures
        r matches Ok(b) ==> spec_verify_proof(leaf@, root_hex@, str_views(proof@)) == Some(b),
        r is Err ==> r == Err::<bool, AirdropError>(AirdropError::DecodeError) && spec_verify_proof(
            leaf@,
            root_hex@,
            str_views(proof@),
        ) is None,
{
    let ghost pv = str_views(proof@);
    let root = match hex_decode(root_hex) {
        Some(root) => root,
        None => {
            return Err(AirdropError::DecodeError);
        },
    };
    if root.len() != 32 {
        return Err(AirdropError::DecodeError);
    }
    let mut digest = sha256(leaf.as_bytes());
    let n = proof.len();
    let mut i: usize = 0;
    while i < n
        invariant
            0 <= i <= n,
            n == proof@.len(),
            pv == str_views(proof@),
            pv.len() == proof@.len(),
            forall|j: int|
                0 <= j < i ==> (#[trigger] spec_hex_decode(pv[j])) is Some && spec_hex_decode(
                    pv[j],
                ).unwrap().len() == 32,
            digest@ == spec_fold(sha256_of(encode_utf8(leaf@)), decoded_sibs(pv.take(i as int))),
        decreases n - i,
    {
        proof {
            assert(pv[i as int] == proof@[i as int]@);
        }
        let sib = match hex_decode(proof[i].as_str()) {
            Some(sib) => sib,
            None => {
                return Err(AirdropError::DecodeError);
            },
        };
        if sib.len() != 32 {
            return Err(AirdropError::DecodeError);
        }
        let cat = if bytes_lt(sib.as_slice(), digest.as_slice()) {
            bytes_concat(sib.as_slice(), digest.as_slice())
        } else {
            bytes_concat(digest.as_slice(), sib.as_slice())
        };
        proof {
            assert(cat@ == spec_combine(digest@, sib@));
        }
        let next = sha256(cat.as_slice());
        proof {
            assert(decoded_sibs(pv.take(i + 1)) =~= decoded_sibs(pv.take(i as int)).push(sib@));
            lemma_fold_push(sha256_of(encode_utf8(leaf@)), decoded_sibs(pv.take(i as int)), sib@);
        }
        digest = next;
        i = i + 1;
    }
    proof {
        assert(pv.take(n as int) =~= pv);
        assert(valid_sibs(pv));
    }
    Ok(bytes_eq(digest.as_slice(), root.as_slice()))
}

/// Law (completeness): a genuine sibling path verifies. When the root is
/// the fold of the leaf's digest through well-formed proof elements, the
/// verifier answers yes.
pub proof fn lemma_proof_complete(leaf: Seq<char>, root_hex: Seq<char>, proof: Seq<Seq<char>>)
    requires
        spec_hex_decode(root_hex) is Some,
        spec_hex_decode(root_hex).unwrap().len() == 32,
        valid_sibs(proof),
        spec_hex_decode(root_hex).unwrap() == spec_fold(
            sha256_of(encode_utf8(leaf)),
            decoded_sibs(proof),
        ),
    ensures
        spec_verify_proof(leaf, root_hex, proof) == Some(true),
{
}

/// Acceptance means exactly that the leaf's digest folds to the committed
/// root; rejecting any leaf that does not is sound up to hash collisions.
pub proof fn lemma_proof_sound(leaf: Seq<char>, root_hex: Seq<char>, proof: Seq<Seq<char>>)
    requires
        spec_verify_proof(leaf, root_hex, proof) == Some(true),
    ensures
        spec_fold(sha256_of(encode_utf8(leaf)), decoded_sibs(proof)) == spec_hex_decode(
            root_hex,
        ).unwrap(),
{
}

} // verus!
