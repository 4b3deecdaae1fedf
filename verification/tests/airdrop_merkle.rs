//! Merkle proof verification against a genuine four-leaf tree built the
//! same way the allocation set is committed: leaves hashed with SHA-256,
//! siblings combined in ascending byte order.

use sha2::Digest;

use mars_periphery::airdrop::crypto::verify_proof;
use mars_periphery::airdrop::types::AirdropError;

fn sha256(data: &[u8]) -> Vec<u8> {
    let mut h = sha2::Sha256::new();
    h.update(data);
    h.finalize().to_vec()
}

fn to_hex(data: &[u8]) -> String {
    let mut s = String::new();
    for b in data {
        s.push_str(&format!("{:02x}", b));
    }
    s
}

fn combine(a: &[u8], b: &[u8]) -> Vec<u8> {
    let mut cat = Vec::new();
    if b < a {
        cat.extend_from_slice(b);
        cat.extend_from_slice(a);
    } else {
        cat.extend_from_slice(a);
        cat.extend_from_slice(b);
    }
    sha256(&cat)
}

struct Tree {
    root_hex: String,
    h: Vec<Vec<u8>>,
    n1: Vec<u8>,
    n2: Vec<u8>,
}

fn four_leaf_tree() -> Tree {
    let leaves = ["alice:1000", "bob:2000", "carol:3000", "dave:4000"];
    let h: Vec<Vec<u8>> = leaves.iter().map(|l| sha256(l.as_bytes())).collect();
    let n1 = combine(&h[0], &h[1]);
    let n2 = combine(&h[2], &h[3]);
    let root = combine(&n1, &n2);
    Tree { root_hex: to_hex(&root), h, n1, n2 }
}

#[test]
fn genuine_paths_verify() {
    let t = four_leaf_tree();
    // the sibling path of each leaf reaches the root
    let ok = verify_proof("alice:1000", &t.root_hex, &vec![to_hex(&t.h[1]), to_hex(&t.n2)])
        .unwrap();
    assert!(ok);
    let ok = verify_proof("bob:2000", &t.root_hex, &vec![to_hex(&t.h[0]), to_hex(&t.n2)])
        .unwrap();
    assert!(ok);
    let ok = verify_proof("carol:3000", &t.root_hex, &vec![to_hex(&t.h[3]), to_hex(&t.n1)])
        .unwrap();
    assert!(ok);
    let ok = verify_proof("dave:4000", &t.root_hex, &vec![to_hex(&t.h[2]), to_hex(&t.n1)])
        .unwrap();
    assert!(ok);
}

#[test]
fn absent_leaf_does_not_verify() {
    let t = four_leaf_tree();
    // a leaf not in the tree fails under its victim's path
    let ok = verify_proof("alice:1001", &t.root_hex, &vec![to_hex(&t.h[1]), to_hex(&t.n2)])
        .unwrap();
    assert!(!ok);
    let ok = verify_proof("mallory:1000", &t.root_hex, &vec![to_hex(&t.h[1]), to_hex(&t.n2)])
        .unwrap();
    assert!(!ok);
    // a genuine leaf with a truncated path fails too
    let ok = verify_proof("alice:1000", &t.root_hex, &vec![to_hex(&t.h[1])]).unwrap();
    assert!(!ok);
}

#[test]
fn tampered_sibling_does_not_verify() {
    let t = four_leaf_tree();
    let mut sibling = t.h[1].clone();
    sibling[0] ^= 1;
    let ok = verify_proof("alice:1000", &t.root_hex, &vec![to_hex(&sibling), to_hex(&t.n2)])
        .unwrap();
    assert!(!ok);
}

#[test]
fn empty_proof_is_the_single_leaf_tree() {
    let root_hex = to_hex(&sha256(b"alice:1000"));
    assert!(verify_proof("alice:1000", &root_hex, &vec![]).unwrap());
    assert!(!verify_proof("alice:1001", &root_hex, &vec![]).unwrap());
}

#[test]
fn malformed_inputs_are_decode_errors() {
    let t = four_leaf_tree();
    // root not hex
    let err = verify_proof("alice:1000", "zz", &vec![to_hex(&t.h[1])]).unwrap_err();
    assert_eq!(err, AirdropError::DecodeError);
    // root of the wrong length
    let err = verify_proof("alice:1000", "aabb", &vec![to_hex(&t.h[1])]).unwrap_err();
    assert_eq!(err, AirdropError::DecodeError);
    // proof element not hex
    let err = verify_proof("alice:1000", &t.root_hex, &vec!["nothex!!".to_string()])
        .unwrap_err();
    assert_eq!(err, AirdropError::DecodeError);
    // proof element of the wrong length
    let err = verify_proof("alice:1000", &t.root_hex, &vec!["aabbccdd".to_string()])
        .unwrap_err();
    assert_eq!(err, AirdropError::DecodeError);
    // odd-length hex
    let err = verify_proof("alice:1000", &t.root_hex, &vec!["abc".to_string()]).unwrap_err();
    assert_eq!(err, AirdropError::DecodeError);
}
