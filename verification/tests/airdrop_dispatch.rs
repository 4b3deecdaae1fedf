//! The airdrop's boundary dispatch: each message routes to its operation
//! and comes back as the matching response.

use sha2::Digest;

use mars_periphery::airdrop::contract::{execute, instantiate, query, sudo, QueryResponse};
use mars_periphery::airdrop::msg::{ExecuteMsg, InstantiateMsg, QueryMsg, SudoMsg};
use mars_periphery::airdrop::types::{AirdropError, MarsMsg};
use mars_periphery::coin::Coin;

fn sha256(data: &[u8]) -> Vec<u8> {
    let mut h = sha2::Sha256::new();
    h.update(data);
    h.finalize().to_vec()
}

fn to_hex(data: &[u8]) -> String {
    let mut s = String::new();
    for b in data {
        s.push_str(&format!("{:02x}", b));
    }
    s
}

#[test]
fn messages_route_to_their_operations() {
    let root_hex = to_hex(&sha256(b"alice:1000"));
    let mut state =
        instantiate(InstantiateMsg { merkle_root: root_hex.clone(), claim_period: 10000 }, 0);

    // a claim with a malformed key is rejected through the dispatcher
    let err = execute(
        &mut state,
        ExecuteMsg::Claim {
            terra_acct_pk: "zz".to_string(),
            mars_acct: "mars1dest".to_string(),
            amount: 1,
            proof: vec![],
            signature: "00".repeat(64),
        },
    )
    .unwrap_err();
    assert_eq!(err, AirdropError::DecodeError);

    // clawback through sudo honours the deadline
    let balance = vec![Coin { denom: "umars".to_string(), amount: 9 }];
    let err = sudo(&state, SudoMsg::Clawback {}, 9999, balance.clone()).unwrap_err();
    assert_eq!(err, AirdropError::DeadlineNotReached);
    let m = sudo(&state, SudoMsg::Clawback {}, 10000, balance).unwrap();
    let MarsMsg::FundCommunityPool { amount } = m;
    assert_eq!(amount[0].amount, 9);

    // queries come back in the matching response arm
    match query(&state, QueryMsg::Config {}).unwrap() {
        QueryResponse::Config(c) => {
            assert_eq!(c.merkle_root, root_hex);
            assert_eq!(c.deadline, 10000);
        },
        _ => panic!("expected a config response"),
    }
    match query(&state, QueryMsg::Claimed { terra_acct: "alice".to_string() }).unwrap() {
        QueryResponse::Claimed(c) => assert_eq!(c.amount, 0),
        _ => panic!("expected a claimed response"),
    }
    match query(&state, QueryMsg::AllClaimed { start_after: None, limit: None }).unwrap() {
        QueryResponse::AllClaimed(v) => assert!(v.is_empty()),
        _ => panic!("expected an enumeration response"),
    }
    match query(
        &state,
        QueryMsg::VerifyProof { terra_acct: "alice".to_string(), amount: 1000, proof: vec![] },
    )
    .unwrap()
    {
        QueryResponse::VerifyProof(ok) => assert!(ok),
        _ => panic!("expected a proof response"),
    }
    match query(
        &state,
        QueryMsg::VerifyProof { terra_acct: "alice".to_string(), amount: 1001, proof: vec![] },
    )
    .unwrap()
    {
        QueryResponse::VerifyProof(ok) => assert!(!ok),
        _ => panic!("expected a proof response"),
    }
    // a malformed dry-run signature is a decode error through the dispatcher
    let err = query(
        &state,
        QueryMsg::VerifySignature {
            terra_acct_pk: "zz".to_string(),
            mars_acct: "mars1dest".to_string(),
            amount: 1,
            signature: "00".repeat(64),
        },
    )
    .unwrap_err();
    assert_eq!(err, AirdropError::DecodeError);
}
