//! End-to-end airdrop scenario with real cryptography: a committed root,
//! a genuine signature, a successful claim, the replay rejection, and the
//! deadline-gated clawback.

use k256::ecdsa::signature::hazmat::PrehashSigner;
use k256::ecdsa::{Signature, SigningKey};
use sha2::Digest;

use mars_periphery::airdrop::contract::{
    claim, clawback, instantiate, query_claimed, query_config, query_verify_signature,
};
use mars_periphery::airdrop::msg::{leaf, msg, InstantiateMsg};
use mars_periphery::airdrop::types::{AirdropError, MarsMsg};
use mars_periphery::coin::Coin;

fn sha256(data: &[u8]) -> Vec<u8> {
    let mut h = sha2::Sha256::new();
    h.update(data);
    h.finalize().to_vec()
}

fn to_hex(data: &[u8]) -> String {
    let mut s = String::new();
    for b in data {
        s.push_str(&format!("{:02x}", b));
    }
    s
}

struct Claimer {
    pk_hex: String,
    terra_acct: String,
    sk: SigningKey,
}

fn claimer(seed: u8) -> Claimer {
    let sk = SigningKey::from_slice(&[seed; 32]).unwrap();
    let pk_hex = to_hex(&sk.verifying_key().to_sec1_bytes());
    let terra_acct =
        mars_periphery::airdrop::crypto::pubkey_to_addr(&pk_hex, "terra").unwrap();
    Claimer { pk_hex, terra_acct, sk }
}

fn sign(c: &Claimer, mars_acct: &str, amount: u128) -> String {
    let m = msg(&c.terra_acct, mars_acct, amount);
    let digest = sha256(m.as_bytes());
    let sig: Signature = c.sk.sign_prehash(&digest).unwrap();
    to_hex(&sig.to_bytes())
}

#[test]
fn claim_scenario() {
    let c = claimer(7);
    let mars_acct = "mars1destination";
    let amount: u128 = 1000;

    // single-leaf tree: the root is the hash of the claimer's own leaf
    let leaf_str = leaf(&c.terra_acct, amount);
    let root_hex = to_hex(&sha256(leaf_str.as_bytes()));

    let mut state =
        instantiate(InstantiateMsg { merkle_root: root_hex.clone(), claim_period: 10000 }, 0);
    let cfg = query_config(&state);
    assert_eq!(cfg.merkle_root, root_hex);
    assert_eq!(cfg.deadline, 10000);

    let sig_hex = sign(&c, mars_acct, amount);
    let out = claim(
        &mut state,
        c.pk_hex.clone(),
        mars_acct.to_string(),
        amount,
        vec![],
        sig_hex.clone(),
    )
    .unwrap();
    assert_eq!(out.terra_acct, c.terra_acct);
    assert_eq!(out.mars_acct, mars_acct);
    assert_eq!(out.amount, 1000);

    let rec = query_claimed(&state, c.terra_acct.clone());
    assert_eq!(rec.amount, 1000);

    // replaying the exact same valid call must fail
    let err = claim(&mut state, c.pk_hex.clone(), mars_acct.to_string(), amount, vec![], sig_hex)
        .unwrap_err();
    assert_eq!(err, AirdropError::AlreadyClaimed);

    // clawback is gated by the deadline
    let balance = vec![Coin { denom: "umars".to_string(), amount: 500 }];
    let err = clawback(&state, 9999, balance.clone()).unwrap_err();
    assert_eq!(err, AirdropError::DeadlineNotReached);
    let m = clawback(&state, 10000, balance).unwrap();
    let MarsMsg::FundCommunityPool { amount } = m;
    assert_eq!(amount.len(), 1);
    assert_eq!(amount[0].denom, "umars");
    assert_eq!(amount[0].amount, 500);
}

#[test]
fn claim_rejects_bad_signature_but_consumes_slot() {
    let c = claimer(9);
    let mars_acct = "mars1destination";
    let amount: u128 = 777;

    let leaf_str = leaf(&c.terra_acct, amount);
    let root_hex = to_hex(&sha256(leaf_str.as_bytes()));
    let mut state = instantiate(InstantiateMsg { merkle_root: root_hex, claim_period: 100 }, 0);

    // signature over a different amount does not verify
    let sig_hex = sign(&c, mars_acct, amount + 1);
    let err = claim(&mut state, c.pk_hex.clone(), mars_acct.to_string(), amount, vec![], sig_hex)
        .unwrap_err();
    assert_eq!(err, AirdropError::InvalidSignature);

    // the failed attempt still consumed the account's slot, by design
    let good = sign(&c, mars_acct, amount);
    let err = claim(&mut state, c.pk_hex.clone(), mars_acct.to_string(), amount, vec![], good)
        .unwrap_err();
    assert_eq!(err, AirdropError::AlreadyClaimed);
    assert_eq!(query_claimed(&state, c.terra_acct.clone()).amount, amount);
}

#[test]
fn claim_rejects_wrong_proof() {
    let c = claimer(11);
    let mars_acct = "mars1destination";
    let amount: u128 = 500;

    // root commits somebody else's leaf
    let root_hex = to_hex(&sha256(b"someone else:123"));
    let mut state = instantiate(InstantiateMsg { merkle_root: root_hex, claim_period: 100 }, 0);

    let sig_hex = sign(&c, mars_acct, amount);
    let err = claim(&mut state, c.pk_hex.clone(), mars_acct.to_string(), amount, vec![], sig_hex)
        .unwrap_err();
    assert_eq!(err, AirdropError::InvalidProof);
}

#[test]
fn claim_rejects_malformed_pubkey() {
    let root_hex = to_hex(&sha256(b"x"));
    let mut state =
        instantiate(InstantiateMsg { merkle_root: root_hex.clone(), claim_period: 100 }, 0);

    // not hex at all
    let err = claim(
        &mut state,
        "zz".to_string(),
        "mars1destination".to_string(),
        1,
        vec![],
        "00".repeat(64),
    )
    .unwrap_err();
    assert_eq!(err, AirdropError::DecodeError);

    // valid hex, wrong byte length for a public key
    let err = claim(
        &mut state,
        "aabb".to_string(),
        "mars1destination".to_string(),
        1,
        vec![],
        "00".repeat(64),
    )
    .unwrap_err();
    assert_eq!(err, AirdropError::DecodeError);

    // nothing was recorded for either attempt
    assert_eq!(query_claimed(&state, "zz".to_string()).amount, 0);
}

#[test]
fn signature_dry_run_pins_every_field() {
    let c = claimer(13);
    let mars_acct = "mars1destination";
    let amount: u128 = 42;
    let sig_hex = sign(&c, mars_acct, amount);

    // the genuine triple verifies
    let ok =
        query_verify_signature(c.pk_hex.clone(), mars_acct.to_string(), amount, sig_hex.clone())
            .unwrap();
    assert!(ok);

    // altering the amount invalidates the signature
    let ok = query_verify_signature(c.pk_hex.clone(), mars_acct.to_string(), 43, sig_hex.clone())
        .unwrap();
    assert!(!ok);

    // altering the destination invalidates the signature
    let ok = query_verify_signature(c.pk_hex.clone(), "mars1other".to_string(), amount, sig_hex)
        .unwrap();
    assert!(!ok);

    // a signature by a different key over the same message does not verify
    let other = claimer(14);
    let m = msg(&c.terra_acct, mars_acct, amount);
    let digest = sha256(m.as_bytes());
    let forged: Signature = other.sk.sign_prehash(&digest).unwrap();
    let ok = query_verify_signature(
        c.pk_hex.clone(),
        mars_acct.to_string(),
        amount,
        to_hex(&forged.to_bytes()),
    )
    .unwrap();
    assert!(!ok);

    // malformed signature hex is a decode error, not a false
    let err = query_verify_signature(c.pk_hex.clone(), mars_acct.to_string(), amount, "zz".into())
        .unwrap_err();
    assert_eq!(err, AirdropError::DecodeError);

    // a 63-byte signature is a decode error
    let err = query_verify_signature(
        c.pk_hex.clone(),
        mars_acct.to_string(),
        amount,
        "00".repeat(63),
    )
    .unwrap_err();
    assert_eq!(err, AirdropError::DecodeError);
}

#[test]
fn claim_message_has_canonical_form() {
    let m = msg("terra1source", "mars1dest", 1000);
    assert_eq!(m, "airdrop for terra1source of 1000 umars shall be released to mars1dest");
    let l = leaf("alice", 1000);
    assert_eq!(l, "alice:1000");
    let l = leaf("bob", 0);
    assert_eq!(l, "bob:0");
    let l = leaf("carol", 340282366920938463463374607431768211455);
    assert_eq!(l, "carol:340282366920938463463374607431768211455");
}
