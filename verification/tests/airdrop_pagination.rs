//! Enumeration of claim records: ascending order, default and maximum
//! limits, and cursor paging that reconstructs the whole set with no gaps
//! and no duplicates.

use mars_periphery::airdrop::contract::{query_all_claimed, query_claimed};
use mars_periphery::airdrop::state::AirdropState;
use mars_periphery::table::StrTable;

fn state_with(keys: &[(&str, u128)]) -> AirdropState {
    let mut claimed: StrTable<u128> = StrTable::new();
    for (k, v) in keys {
        assert!(claimed.try_insert(k, *v));
    }
    AirdropState { merkle_root: "00".to_string(), deadline: 0, claimed }
}

#[test]
fn records_come_back_sorted() {
    let state = state_with(&[("carol", 3), ("alice", 1), ("bob", 2)]);
    let all = query_all_claimed(&state, None, None);
    let got: Vec<(String, u128)> =
        all.iter().map(|r| (r.terra_acct.clone(), r.amount)).collect();
    assert_eq!(
        got,
        vec![("alice".to_string(), 1), ("bob".to_string(), 2), ("carol".to_string(), 3)]
    );
}

#[test]
fn duplicate_insert_is_refused() {
    let mut claimed: StrTable<u128> = StrTable::new();
    assert!(claimed.try_insert("alice", 1));
    assert!(!claimed.try_insert("alice", 99));
    assert_eq!(claimed.get("alice"), Some(1));
    assert_eq!(claimed.get("bob"), None);
}

#[test]
fn absent_account_reads_as_zero() {
    let state = state_with(&[("alice", 5)]);
    assert_eq!(query_claimed(&state, "alice".to_string()).amount, 5);
    assert_eq!(query_claimed(&state, "nobody".to_string()).amount, 0);
}

#[test]
fn default_limit_is_ten() {
    let keys: Vec<String> = (0..12).map(|i| format!("acct{:02}", i)).collect();
    let pairs: Vec<(&str, u128)> = keys.iter().map(|k| (k.as_str(), 1u128)).collect();
    let state = state_with(&pairs);
    let page = query_all_claimed(&state, None, None);
    assert_eq!(page.len(), 10);
    assert_eq!(page[0].terra_acct, "acct00");
    assert_eq!(page[9].terra_acct, "acct09");
}

#[test]
fn limit_is_capped_at_thirty() {
    let keys: Vec<String> = (0..35).map(|i| format!("acct{:02}", i)).collect();
    let pairs: Vec<(&str, u128)> = keys.iter().map(|k| (k.as_str(), 1u128)).collect();
    let state = state_with(&pairs);
    let page = query_all_claimed(&state, None, Some(50));
    assert_eq!(page.len(), 30);
    let page = query_all_claimed(&state, None, Some(3));
    assert_eq!(page.len(), 3);
}

#[test]
fn cursor_paging_reconstructs_the_set() {
    let keys: Vec<String> = (0..25).map(|i| format!("acct{:02}", i)).collect();
    let pairs: Vec<(&str, u128)> = keys.iter().map(|k| (k.as_str(), (k.len()) as u128)).collect();
    let state = state_with(&pairs);

    let mut collected: Vec<String> = Vec::new();
    let mut cursor: Option<String> = None;
    loop {
        let page = query_all_claimed(&state, cursor.clone(), Some(7));
        for r in &page {
            collected.push(r.terra_acct.clone());
        }
        if page.len() < 7 {
            break;
        }
        cursor = Some(page[page.len() - 1].terra_acct.clone());
    }
    assert_eq!(collected.len(), 25);
    assert_eq!(collected, keys);
    // strictly ascending, hence free of duplicates
    for w in collected.windows(2) {
        assert!(w[0] < w[1]);
    }
    // paging past the end yields nothing
    let tail = query_all_claimed(&state, Some("acct24".to_string()), Some(7));
    assert_eq!(tail.len(), 0);
}

#[test]
fn cursor_excludes_the_start_key() {
    let state = state_with(&[("alice", 1), ("bob", 2), ("carol", 3)]);
    let page = query_all_claimed(&state, Some("bob".to_string()), None);
    assert_eq!(page.len(), 1);
    assert_eq!(page[0].terra_acct, "carol");
    // a cursor between keys also works
    let page = query_all_claimed(&state, Some("b".to_string()), None);
    assert_eq!(page.len(), 2);
    assert_eq!(page[0].terra_acct, "bob");
}
