//! The delegator's operations. The heart is the even split of a balance
//! across the validator set: each validator gets the quotient, and the
//! first `remainder` validators one token more, so the parts add up to
//! exactly the balance — proved below.

use vstd::prelude::*;
use vstd::arithmetic::div_mod::lemma_fundamental_div_mod;
use crate::coin::Coin;
use crate::delegator::error::ContractError;
use crate::delegator::msg::{Config, ConfigResponse};
use crate::delegator::state::DelegatorState;
use crate::delegator::types::{Delegation, MarsMsg, StakingMsg};

verus! {

/// Creates the state with the given configuration.
pub fn init(cfg: Config) -> (r: DelegatorState)
    ensures
        r.config == cfg,
{
    DelegatorState { config: cfg }
}

/// The tokens validator `i` of `n` receives out of `amount`: the quotient,
/// plus one for the first `amount % n` validators.
pub open spec fn spec_split(amount: u128, n: int, i: int) -> int {
    amount as int / n + if i + 1 <= amount as int % n {
        1int
    } else {
        0int
    }
}

/// The total handed to the first `k` of `n` validators.
pub open spec fn spec_split_sum(amount: u128, n: int, k: int) -> int
    decreases k,
{
    if k <= 0 {
        0
    } else {
        spec_split_sum(amount, n, k - 1) + spec_split(amount, n, k - 1)
    }
}

proof fn lemma_split_sum_closed(amount: u128, n: int, k: int)
    requires
        1 <= n,
        0 <= k <= n,
    ensures
        spec_split_sum(amount, n, k) == k * (amount as int / n) + (if k <= amount as int % n {
            k
        } else {
            amount as int % n
        }),
    decreases k,
{
    if k == 0 {
        assert(k * (amount as int / n) == 0) by (nonlinear_arith)
            requires
                k == 0,
        ;
    } else {
        lemma_split_sum_closed(amount, n, k - 1);
        let q = amount as int / n;
        let rem = amount as int % n;
        assert(spec_split_sum(amount, n, k) == spec_split_sum(amount, n, k - 1) + spec_split(
            amount,
            n,
            k - 1,
        ));
        assert(k * q == (k - 1) * q + q) by (nonlinear_arith);
        if k <= rem {
            assert(spec_split(amount, n, k - 1) == q + 1);
            assert(spec_split_sum(amount, n, k) == ((k - 1) * q + (k - 1)) + (q + 1));
        } else {
            assert(spec_split(amount, n, k - 1) == q);
            if k - 1 <= rem {
                assert(spec_split_sum(amount, n, k) == ((k - 1) * q + (k - 1)) + q);
                assert(rem == k - 1);
            } else {
                assert(spec_split_sum(amount, n, k) == ((k - 1) * q + rem) + q);
            }
        }
    }
}

/// Law (conservation): the split hands out exactly the balance — no token
/// is lost or minted by the rounding.
pub proof fn lemma_split_total(amount: u128, n: int)
    requires
        1 <= n,
    ensures
        spec_split_sum(amount, n, n) == amount,
{
    lemma_split_sum_closed(amount, n, n);
    lemma_fundamental_div_mod(amount as int, n);
    assert(n * (amount as int / n) == (amount as int / n) * n) by (nonlinear_arith);
}

/// Builds one delegation message per validator, splitting `amount` evenly
/// with the remainder going one token apiece to the earliest validators.
pub fn get_delegation_msgs(validators: &Vec<String>, amount: u128, denom: &str) -> (r: Vec<
    StakingMsg,
>)
    requires
        validators@.len() > 0,
    ensures
        r@.len() == validators@.len(),
        forall|i: int|
            0 <= i < r@.len() ==> (#[trigger] r@[i] matches StakingMsg::Delegate {
                validator,
                amount: c,
            } && validator@ == validators@[i]@ && c.denom@ == denom@ && c.amount as int
                == spec_split(amount, validators@.len() as int, i)),
{
    let n = validators.len();
    let ghost nn = n as int;
    let tokens_per_validator: u128 = amount / (n as u128);
    let remainder: u128 = amount % (n as u128);
    proof {
        lemma_fundamental_div_mod(amount as int, nn);
        if remainder > 0 {
            assert(nn >= 2) by {
                if nn == 1 {
                    assert(amount as int % 1 == 0) by (nonlinear_arith);
                }
            }
            assert(tokens_per_validator < u128::MAX) by (nonlinear_arith)
                requires
                    amount == nn * tokens_per_validator + remainder,
                    nn >= 2,
                    tokens_per_validator >= 0,
                    remainder >= 0,
                    amount <= u128::MAX,
            ;
        }
    }
    let mut r: Vec<StakingMsg> = Vec::new();
    let mut i: usize = 0;
    while i < n
        invariant
            0 <= i <= n,
            n == validators@.len(),
            nn == n as int,
            tokens_per_validator == amount / (n as u128),
            remainder == amount % (n as u128),
            remainder > 0 ==> tokens_per_validator < u128::MAX,
            r@.len() == i,
            forall|j: int|
                0 <= j < i ==> (#[trigger] r@[j] matches StakingMsg::Delegate {
                    validator,
                    amount: c,
                } && validator@ == validators@[j]@ && c.denom@ == denom@ && c.amount as int
                    == spec_split(amount, nn, j)),
        decreases n - i,
    {
        let extra: u128 = if (i as u128) + 1 <= remainder {
            1
        } else {
            0
        };
        let tokens_for_validator = tokens_per_validator + extra;
        r.push(
            StakingMsg::Delegate {
                validator: clone_string(&validators[i]),
                amount: Coin { denom: denom.to_owned(), amount: tokens_for_validator },
            },
        );
        i = i + 1;
    }
    r
}

/// Builds one undelegate message per current delegation.
pub fn get_undelegate_msgs(delegations: &Vec<Delegation>) -> (r: Vec<StakingMsg>)
    ensures
        r@.len() == delegations@.len(),
        forall|i: int|
            0 <= i < r@.len() ==> (#[trigger] r@[i] matches StakingMsg::Undelegate {
                validator,
                amount: c,
            } && validator@ == delegations@[i].validator@ && c.denom@
                == delegations@[i].amount.denom@ && c.amount == delegations@[i].amount.amount),
{
    let n = delegations.len();
    let mut r: Vec<StakingMsg> = Vec::new();
    let mut i: usize = 0;
    while i < n
        invariant
            0 <= i <= n,
            n == delegations@.len(),
            r@.len() == i,
            forall|j: int|
                0 <= j < i ==> (#[trigger] r@[j] matches StakingMsg::Undelegate {
                    validator,
                    amount: c,
                } && validator@ == delegations@[j].validator@ && c.denom@
                    == delegations@[j].amount.denom@ && c.amount == delegations@[j].amount.amount),
        decreases n - i,
    {
        r.push(
            StakingMsg::Undelegate {
                validator: clone_string(&delegations[i].validator),
                amount: Coin {
                    denom: clone_string(&delegations[i].amount.denom),
                    amount: delegations[i].amount.amount,
                },
            },
        );
        i = i + 1;
    }
    r
}

/// Delegates the contract's balance of the bond denomination evenly to the
/// validator set; nothing to bond is an error.
pub fn bond(state: &DelegatorState, amount: u128, validators: &Vec<String>) -> (r: Result<
    Vec<StakingMsg>,
    ContractError,
>)
    requires
        validators@.len() > 0,
    ensures
        amount == 0 <==> r == Err::<Vec<StakingMsg>, ContractError>(ContractError::NothingToBond),
        amount > 0 ==> (r matches Ok(msgs) && msgs@.len() == validators@.len() && forall|i: int|
            0 <= i < validators@.len() ==> (#[trigger] msgs@[i] matches StakingMsg::Delegate {
                validator,
                amount: c,
            } && validator@ == validators@[i]@ && c.denom@ == state.config.bond_denom@
                && c.amount as int == spec_split(amount, validators@.len() as int, i))),
{
    if amount == 0 {
        return Err(ContractError::NothingToBond);
    }
    Ok(get_delegation_msgs(validators, amount, state.config.bond_denom.as_str()))
}

/// Unbonds all delegations regardless of the ending time; for governance.
pub fn force_unbond(delegations: &Vec<Delegation>) -> (r: Vec<StakingMsg>)
    ensures
        r@.len() == delegations@.len(),
        forall|i: int|
            0 <= i < r@.len() ==> (#[trigger] r@[i] matches StakingMsg::Undelegate {
                validator,
                amount: c,
            } && validator@ == delegations@[i].validator@ && c.denom@
                == delegations@[i].amount.denom@ && c.amount == delegations@[i].amount.amount),
{
    get_undelegate_msgs(delegations)
}

/// Unbonds all delegations, open to anyone once the ending time is
/// reached.
pub fn unbond(state: &DelegatorState, current_time: u64, delegations: &Vec<Delegation>) -> (r:
    Result<Vec<StakingMsg>, ContractError>)
    ensures
        current_time < state.config.ending_time ==> (r matches Err(e) && e matches
            ContractError::EndingTimeNotReached { ending_time, current_time: c } && ending_time
            == state.config.ending_time && c == current_time),
        current_time >= state.config.ending_time ==> (r matches Ok(msgs) && msgs@.len()
            == delegations@.len() && forall|i: int|
            0 <= i < msgs@.len() ==> (#[trigger] msgs@[i] matches StakingMsg::Undelegate {
                validator,
                amount: c,
            } && validator@ == delegations@[i].validator@ && c.denom@
                == delegations@[i].amount.denom@ && c.amount == delegations@[i].amount.amount)),
{
    if current_time < state.config.ending_time {
        return Err(
            ContractError::ending_time_not_reached(state.config.ending_time, current_time),
        );
    }
    Ok(get_undelegate_msgs(delegations))
}

/// Donates every coin the contract holds to the community pool; an empty
/// balance is an error.
pub fn refund(balance: Vec<Coin>) -> (r: Result<MarsMsg, ContractError>)
    ensures
        balance@.len() == 0 <==> r == Err::<MarsMsg, ContractError>(ContractError::NothingToRefund),
        balance@.len() > 0 ==> (r matches Ok(m) && m matches MarsMsg::FundCommunityPool { amount }
            && amount == balance),
{
    if balance.len() == 0 {
        return Err(ContractError::NothingToRefund);
    }
    Ok(MarsMsg::FundCommunityPool { amount: balance })
}

/// The contract configuration, with the ending time it was created with.
pub fn query_config(state: &DelegatorState) -> (r: ConfigResponse)
    ensures
        r.bond_denom == state.config.bond_denom,
        r.ending_time == Some(state.config.ending_time),
{
    ConfigResponse {
        bond_denom: clone_string(&state.config.bond_denom),
        ending_time: Some(state.config.ending_time),
    }
}

fn clone_string(s: &String) -> (r: String)
    ensures
        r == s,
{
    s.clone()
}

} // verus!
