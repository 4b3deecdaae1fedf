//! The liquidation filterer's operations. The heart is the funds check of
//! a batch: the coins sent in are pooled by denomination, a later coin of
//! a denomination replacing an earlier one, and each liquidation in order
//! draws its repayment from the pool, failing on the first denomination
//! that is absent or short.

use vstd::prelude::*;
use vstd::string::StringExecFns;
use crate::coin::Coin;
use crate::liquidation::error::ContractError;
use crate::liquidation::msg::InstantiateMsg;
use crate::liquidation::state::LiquidationState;
use crate::liquidation::types::{BankSend, Config, Liquidate, LiquidateInstruction};
use crate::table::{spec_lookup, spec_upsert, str_eq, StrTable};

verus! {

/// Creates the state with the given owner and address provider.
pub fn instantiate(msg: InstantiateMsg) -> (r: LiquidationState)
    ensures
        r.config.owner == msg.owner,
        r.config.address_provider == msg.address_provider,
{
    LiquidationState {
        config: Config { owner: msg.owner, address_provider: msg.address_provider },
    }
}

/// Replaces whichever configuration fields are given. Owner only.
pub fn execute_update_config(
    state: &mut LiquidationState,
    sender: &str,
    owner: Option<String>,
    address_provider: Option<String>,
) -> (r: Result<(), ContractError>)
    ensures
        sender@ != old(state).config.owner@ ==> r == Err::<(), ContractError>(
            ContractError::Unauthorized,
        ) && final(state).config == old(state).config,
        sender@ == old(state).config.owner@ ==> (r == Ok::<(), ContractError>(())
            && final(state).config.owner == match owner {
            Some(o) => o,
            None => old(state).config.owner,
        } && final(state).config.address_provider == match address_provider {
            Some(a) => a,
            None => old(state).config.address_provider,
        }),
{
    if !str_eq(sender, state.config.owner.as_str()) {
        return Err(ContractError::Unauthorized);
    }
    match owner {
        Some(o) => {
            state.config.owner = o;
        },
        None => {},
    }
    match address_provider {
        Some(a) => {
            state.config.address_provider = a;
        },
        None => {},
    }
    Ok(())
}

/// The funds pooled by denomination, a later coin of the same denomination
/// replacing an earlier one.
pub open spec fn spec_funds_map(funds: Seq<Coin>) -> Seq<(Seq<char>, u128)>
    decreases funds.len(),
{
    if funds.len() == 0 {
        Seq::empty()
    } else {
        spec_upsert(spec_funds_map(funds.drop_last()), funds.last().denom@, funds.last().amount)
    }
}

/// Draws each liquidation's repayment from the pool in order: the pool
/// after all draws, or the reason the first failing draw gives.
pub open spec fn spec_deduct(table: Seq<(Seq<char>, u128)>, liqs: Seq<Liquidate>) -> Result<
    Seq<(Seq<char>, u128)>,
    Seq<char>,
>
    decreases liqs.len(),
{
    if liqs.len() == 0 {
        Ok(table)
    } else {
        let l = liqs[0];
        match spec_lookup(table, l.debt_denom@) {
            None => Err("missing "@ + l.debt_denom@),
            Some(avail) => if avail >= l.amount {
                spec_deduct(
                    spec_upsert(table, l.debt_denom@, (avail - l.amount) as u128),
                    liqs.drop_first(),
                )
            } else {
                Err("not enough "@ + l.debt_denom@)
            },
        }
    }
}

/// Checks that `funds` cover the whole batch and builds one red-bank call
/// per liquidation, the collateral going to `sender`; on success the
/// leftover funds are refunded to `sender` as well.
pub fn execute_liquidate(
    sender: &str,
    red_bank_addr: &str,
    funds: Vec<Coin>,
    liquidations: &Vec<Liquidate>,
) -> (r: Result<(Vec<LiquidateInstruction>, String), ContractError>)
    ensures
        match spec_deduct(spec_funds_map(funds@), liquidations@) {
            Ok(_) => (r matches Ok((instrs, refund_to)) && refund_to@ == sender@ && instrs@.len()
                == liquidations@.len() && forall|i: int|
                0 <= i < instrs@.len() ==> {
                    let instr = #[trigger] instrs@[i];
                    instr.red_bank@ == red_bank_addr@ && instr.collateral_denom@
                        == liquidations@[i].collateral_denom@ && instr.user_address@
                        == liquidations@[i].user_address@ && instr.recipient@ == sender@
                        && instr.debt_denom@ == liquidations@[i].debt_denom@ && instr.amount
                        == liquidations@[i].amount && instr.reply_id == i
                }),
            Err(reason) => (r matches Err(e) && e matches ContractError::InvalidFunds {
                reason: s,
            } && s@ == reason),
        },
{
    let mut pool: StrTable<u128> = StrTable::new();
    let n_funds = funds.len();
    let mut f: usize = 0;
    while f < n_funds
        invariant
            0 <= f <= n_funds,
            n_funds == funds@.len(),
            pool.wf(),
            pool@ == spec_funds_map(funds@.take(f as int)),
        decreases n_funds - f,
    {
        pool.set(funds[f].denom.as_str(), funds[f].amount);
        proof {
            assert(funds@.take(f + 1).drop_last() =~= funds@.take(f as int));
            assert(funds@.take(f + 1).last() == funds@[f as int]);
        }
        f = f + 1;
    }
    proof {
        assert(funds@.take(n_funds as int) =~= funds@);
        assert(liquidations@.skip(0) =~= liquidations@);
    }
    let n = liquidations.len();
    let mut instrs: Vec<LiquidateInstruction> = Vec::new();
    let mut i: usize = 0;
    while i < n
        invariant
            0 <= i <= n,
            n == liquidations@.len(),
            pool.wf(),
            spec_deduct(spec_funds_map(funds@), liquidations@) == spec_deduct(
                pool@,
                liquidations@.skip(i as int),
            ),
            instrs@.len() == i,
            forall|j: int|
                0 <= j < i ==> {
                    let instr = #[trigger] instrs@[j];
                    instr.red_bank@ == red_bank_addr@ && instr.collateral_denom@
                        == liquidations@[j].collateral_denom@ && instr.user_address@
                        == liquidations@[j].user_address@ && instr.recipient@ == sender@
                        && instr.debt_denom@ == liquidations@[j].debt_denom@ && instr.amount
                        == liquidations@[j].amount && instr.reply_id == j
                },
        decreases n - i,
    {
        proof {
            assert(liquidations@.skip(i as int)[0] == liquidations@[i as int]);
            assert(liquidations@.skip(i as int).drop_first() =~= liquidations@.skip(i + 1));
        }
        let liq = &liquidations[i];
        let avail = match pool.get(liq.debt_denom.as_str()) {
            Some(a) => a,
            None => {
                let mut reason = String::new();
                reason.append("missing ");
                reason.append(liq.debt_denom.as_str());
                return Err(ContractError::InvalidFunds { reason });
            },
        };
        if avail < liq.amount {
            let mut reason = String::new();
            reason.append("not enough ");
            reason.append(liq.debt_denom.as_str());
            return Err(ContractError::InvalidFunds { reason });
        }
        pool.set(liq.debt_denom.as_str(), avail - liq.amount);
        instrs.push(
            LiquidateInstruction {
                red_bank: red_bank_addr.to_owned(),
                collateral_denom: clone_string(&liq.collateral_denom),
                user_address: clone_string(&liq.user_address),
                recipient: sender.to_owned(),
                debt_denom: clone_string(&liq.debt_denom),
                amount: liq.amount,
                reply_id: i as u64,
            },
        );
        i = i + 1;
    }
    proof {
        assert(liquidations@.skip(n as int) =~= Seq::<Liquidate>::empty());
    }
    Ok((instrs, sender.to_owned()))
}

/// Sends every coin the contract holds to `recipient`; only the owner or
/// the contract itself may trigger it, and an empty balance is a no-op.
pub fn execute_refund(
    state: &LiquidationState,
    sender: &str,
    contract: &str,
    recipient: &str,
    balance: Vec<Coin>,
) -> (r: Result<Option<BankSend>, ContractError>)
    ensures
        sender@ != state.config.owner@ && sender@ != contract@ ==> r == Err::<
            Option<BankSend>,
            ContractError,
        >(ContractError::Unauthorized),
        (sender@ == state.config.owner@ || sender@ == contract@) && balance@.len() == 0 ==> (
        r matches Ok(o) && o is None),
        (sender@ == state.config.owner@ || sender@ == contract@) && balance@.len() > 0 ==> (
        r matches Ok(o) && o matches Some(send) && send.to_address@ == recipient@ && send.amount
            == balance),
{
    if !str_eq(sender, state.config.owner.as_str()) && !str_eq(sender, contract) {
        return Err(ContractError::Unauthorized);
    }
    if balance.len() == 0 {
        return Ok(None);
    }
    Ok(Some(BankSend { to_address: recipient.to_owned(), amount: balance }))
}

/// What the handler of a liquidation reply reports back: the reply's id,
/// whether it succeeded, and the error text of a failed one.
pub struct ReplyOutcome {
    pub id: u64,
    pub success: bool,
    pub error: Option<String>,
}

/// Records the outcome of one liquidation submessage; an error is attached
/// exactly when the submessage failed.
pub fn reply(id: u64, result: Result<(), String>) -> (r: ReplyOutcome)
    ensures
        r.id == id,
        r.success == (result is Ok),
        result matches Err(e) ==> (r.error matches Some(s) && s == e),
        result is Ok ==> r.error is None,
{
    match result {
        Ok(()) => ReplyOutcome { id, success: true, error: None },
        Err(e) => ReplyOutcome { id, success: false, error: Some(e) },
    }
}

pub fn query_config(state: &LiquidationState) -> (r: &Config)
    ensures
        r == state.config,
{
    &state.config
}

fn clone_string(s: &String) -> (r: String)
    ensures
        r == s,
{
    s.clone()
}

} // verus!
