//! The delegator's even split, the unbonding time gate, and the refund.

use mars_periphery::coin::Coin;
use mars_periphery::delegator::error::ContractError;
use mars_periphery::delegator::execute::{
    bond, force_unbond, get_delegation_msgs, init, query_config, refund, unbond,
};
use mars_periphery::delegator::msg::Config;
use mars_periphery::delegator::types::{Delegation, MarsMsg, StakingMsg};

fn delegated_amounts(msgs: &[StakingMsg]) -> Vec<(String, u128)> {
    msgs.iter()
        .map(|m| match m {
            StakingMsg::Delegate { validator, amount } => (validator.clone(), amount.amount),
            _ => panic!("expected a delegate message"),
        })
        .collect()
}

#[test]
fn bonding_splits_evenly_with_remainder_up_front() {
    // 25000000000000 over three validators leaves a remainder of one
    let validators =
        vec!["larry".to_string(), "jake".to_string(), "pumpkin".to_string()];
    let msgs = get_delegation_msgs(&validators, 25000000000000, "umars");
    assert_eq!(
        delegated_amounts(&msgs),
        vec![
            ("larry".to_string(), 8333333333334),
            ("jake".to_string(), 8333333333333),
            ("pumpkin".to_string(), 8333333333333)
        ]
    );
    // the parts add up to exactly the balance
    let sum: u128 = msgs
        .iter()
        .map(|m| match m {
            StakingMsg::Delegate { amount, .. } => amount.amount,
            _ => 0,
        })
        .sum();
    assert_eq!(sum, 25000000000000);

    // 10000 over three validators leaves a remainder of one
    let msgs = get_delegation_msgs(&validators, 10000, "umars");
    assert_eq!(
        delegated_amounts(&msgs),
        vec![
            ("larry".to_string(), 3334),
            ("jake".to_string(), 3333),
            ("pumpkin".to_string(), 3333)
        ]
    );
}

#[test]
fn bonding_nothing_is_an_error() {
    let state = init(Config { bond_denom: "umars".to_string(), ending_time: 10000 });
    let validators = vec!["larry".to_string()];
    let err = bond(&state, 0, &validators).unwrap_err();
    assert_eq!(err, ContractError::NothingToBond);
    let msgs = bond(&state, 7, &validators).unwrap();
    assert_eq!(delegated_amounts(&msgs), vec![("larry".to_string(), 7)]);
}

#[test]
fn unbonding_is_gated_by_the_ending_time() {
    let state = init(Config { bond_denom: "umars".to_string(), ending_time: 10000 });
    let delegations = vec![
        Delegation {
            validator: "larry".to_string(),
            amount: Coin { denom: "umars".to_string(), amount: 3334 },
        },
        Delegation {
            validator: "jake".to_string(),
            amount: Coin { denom: "umars".to_string(), amount: 3333 },
        },
    ];

    let err = unbond(&state, 9999, &delegations).unwrap_err();
    assert_eq!(
        err,
        ContractError::EndingTimeNotReached { ending_time: 10000, current_time: 9999 }
    );

    let msgs = unbond(&state, 10000, &delegations).unwrap();
    assert_eq!(msgs.len(), 2);
    match &msgs[0] {
        StakingMsg::Undelegate { validator, amount } => {
            assert_eq!(validator, "larry");
            assert_eq!(amount.amount, 3334);
        },
        _ => panic!("expected an undelegate message"),
    }

    // governance can force-unbond regardless of the time
    let msgs = force_unbond(&delegations);
    assert_eq!(msgs.len(), 2);
}

#[test]
fn refunding_moves_the_whole_balance() {
    let err = refund(vec![]).unwrap_err();
    assert_eq!(err, ContractError::NothingToRefund);

    let balance = vec![Coin { denom: "umars".to_string(), amount: 10000 }];
    let MarsMsg::FundCommunityPool { amount } = refund(balance).unwrap();
    assert_eq!(amount.len(), 1);
    assert_eq!(amount[0].amount, 10000);
}

#[test]
fn error_constructors_carry_their_fields() {
    assert_eq!(
        ContractError::ending_time_not_reached(10000, 9999),
        ContractError::EndingTimeNotReached { ending_time: 10000, current_time: 9999 }
    );
    assert_eq!(
        ContractError::incorrect_contract("a".to_string(), "b".to_string()),
        ContractError::IncorrectContract { expect: "a".to_string(), found: "b".to_string() }
    );
    assert_eq!(
        ContractError::incorrect_version("1.0.0".to_string(), "0.9.0".to_string()),
        ContractError::IncorrectVersion {
            expect: "1.0.0".to_string(),
            found: "0.9.0".to_string()
        }
    );
}

#[test]
fn config_query_reports_the_ending_time() {
    let state = init(Config { bond_denom: "umars".to_string(), ending_time: 10000 });
    let resp = query_config(&state);
    assert_eq!(resp.bond_denom, "umars");
    assert_eq!(resp.ending_time, Some(10000));
}
