//! The liquidation filterer's funds check: a batch fails on the first
//! missing or short denomination, and a covered batch yields one red-bank
//! call per liquidation plus a refund of the remainder.

use mars_periphery::coin::Coin;
use mars_periphery::liquidation::contract::{
    execute_liquidate, execute_refund, execute_update_config, instantiate, reply,
};
use mars_periphery::liquidation::error::ContractError;
use mars_periphery::liquidation::msg::InstantiateMsg;
use mars_periphery::liquidation::types::Liquidate;

fn setup() -> mars_periphery::liquidation::state::LiquidationState {
    instantiate(InstantiateMsg {
        owner: "owner".to_string(),
        address_provider: "address_provider".to_string(),
    })
}

fn liq(collateral: &str, debt: &str, user: &str, amount: u128) -> Liquidate {
    Liquidate {
        collateral_denom: collateral.to_string(),
        debt_denom: debt.to_string(),
        user_address: user.to_string(),
        amount,
    }
}

fn coin(amount: u128, denom: &str) -> Coin {
    Coin { denom: denom.to_string(), amount }
}

#[test]
fn test_liquidate_many_accounts_if_missing_debt_coin() {
    let funds = vec![coin(1234, "uosmo")];
    let liquidations = vec![
        liq("uosmo", "uosmo", "user_address_1", 10),
        liq("uatom", "umars", "user_address_2", 10),
    ];
    let err = execute_liquidate("bot", "red_bank", funds, &liquidations).unwrap_err();
    assert_eq!(err, ContractError::InvalidFunds { reason: "missing umars".to_string() });
}

#[test]
fn test_liquidate_many_accounts_if_not_enough_debt_coin() {
    let funds = vec![coin(20, "umars")];
    let liquidations = vec![
        liq("uosmo", "umars", "user_address_1", 10),
        liq("uatom", "umars", "user_address_2", 11),
    ];
    let err = execute_liquidate("bot", "red_bank", funds, &liquidations).unwrap_err();
    assert_eq!(err, ContractError::InvalidFunds { reason: "not enough umars".to_string() });
}

#[test]
fn test_liquidate_many_accounts() {
    let funds = vec![coin(1234, "uosmo"), coin(2345, "umars"), coin(7891, "uaxelar")];
    let liquidations = vec![
        liq("uosmo", "uosmo", "user_address_1", 345),
        liq("uatom", "umars", "user_address_2", 234),
        liq("uatom", "uaxelar", "user_address_3", 891),
        liq("umars", "uaxelar", "user_address_3", 7000),
    ];
    let (instrs, refund_to) =
        execute_liquidate("bot", "red_bank", funds, &liquidations).unwrap();
    assert_eq!(refund_to, "bot");
    assert_eq!(instrs.len(), 4);
    for (i, instr) in instrs.iter().enumerate() {
        assert_eq!(instr.red_bank, "red_bank");
        assert_eq!(instr.recipient, "bot");
        assert_eq!(instr.reply_id, i as u64);
        assert_eq!(instr.collateral_denom, liquidations[i].collateral_denom);
        assert_eq!(instr.debt_denom, liquidations[i].debt_denom);
        assert_eq!(instr.user_address, liquidations[i].user_address);
        assert_eq!(instr.amount, liquidations[i].amount);
    }
}

#[test]
fn duplicated_fund_denoms_keep_the_last() {
    // funds are pooled into one amount per denomination, a duplicate
    // replacing the earlier amount
    let funds = vec![coin(5, "umars"), coin(100, "umars")];
    let liquidations = vec![liq("uosmo", "umars", "user_address_1", 50)];
    assert!(execute_liquidate("bot", "red_bank", funds, &liquidations).is_ok());

    let funds = vec![coin(100, "umars"), coin(5, "umars")];
    let liquidations = vec![liq("uosmo", "umars", "user_address_1", 50)];
    let err = execute_liquidate("bot", "red_bank", funds, &liquidations).unwrap_err();
    assert_eq!(err, ContractError::InvalidFunds { reason: "not enough umars".to_string() });
}

#[test]
fn test_refund_if_no_coins() {
    let state = setup();
    let r = execute_refund(&state, "contract", "contract", "bot", vec![]).unwrap();
    assert!(r.is_none());
}

#[test]
fn test_refund() {
    let state = setup();
    let balance = vec![coin(1234, "uosmo"), coin(2345, "umars")];
    let send = execute_refund(&state, "contract", "contract", "bot", balance).unwrap().unwrap();
    assert_eq!(send.to_address, "bot");
    assert_eq!(send.amount.len(), 2);
    assert_eq!(send.amount[0].amount, 1234);

    // neither owner nor the contract itself: refused
    let err =
        execute_refund(&state, "mallory", "contract", "mallory", vec![coin(1, "umars")])
            .unwrap_err();
    assert_eq!(err, ContractError::Unauthorized);
}

#[test]
fn liquidation_update_config_is_owner_only() {
    let mut state = setup();
    let err = execute_update_config(&mut state, "mallory", Some("mallory".to_string()), None)
        .unwrap_err();
    assert_eq!(err, ContractError::Unauthorized);
    execute_update_config(&mut state, "owner", Some("new_owner".to_string()), None).unwrap();
    assert_eq!(state.config.owner, "new_owner");
    assert_eq!(state.config.address_provider, "address_provider");
}

#[test]
fn reply_records_failures() {
    let out = reply(3, Ok(()));
    assert_eq!(out.id, 3);
    assert!(out.success);
    assert!(out.error.is_none());
    let out = reply(4, Err("borrower is healthy".to_string()));
    assert_eq!(out.id, 4);
    assert!(!out.success);
    assert_eq!(out.error, Some("borrower is healthy".to_string()));
}
