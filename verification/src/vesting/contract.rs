//! The vesting contract's operations: configuration, position creation
//! funded by an attached payment, termination, withdrawal, and the queries.

use vstd::prelude::*;
use crate::coin::Coin;
use crate::table::{lemma_insert_entries, lemma_lookup_entry, lemma_upsert_entries, pairs_view,
    spec_contains, spec_insert, spec_lookup, spec_page, spec_upsert, start_view, StrTable};
use crate::vesting::helpers::{compute_position_response, compute_withdrawable,
    lemma_vested_le_total, spec_vested, spec_withdrawable};
use crate::vesting::msg::{Config, Error, PaymentError, Position, PositionResponse, Schedule,
    VotingPowerResponse};
use crate::vesting::state::VestingState;

verus! {

const MAX_LIMIT: u32 = 30;

const DEFAULT_LIMIT: u32 = 10;

/// The page size a query asks for: `limit` capped at 30, or 10 when absent.
pub open spec fn spec_limit(limit: Option<u32>) -> nat {
    match limit {
        None => 10,
        Some(l) => if l <= 30 {
            l as nat
        } else {
            30
        },
    }
}

/// The ghost cursor of an optional owned string.
pub open spec fn opt_chars(o: Option<String>) -> Option<Seq<char>> {
    match o {
        None => None,
        Some(s) => Some(s@),
    }
}

/// Creates the state with the given configuration and no positions.
pub fn instantiate(cfg: Config) -> (r: VestingState)
    ensures
        r.wf(),
        r.config == cfg,
        r.positions@ == Seq::<(Seq<char>, Position)>::empty(),
{
    VestingState { config: cfg, positions: StrTable::new() }
}

/// The single coin paid in `funds` under `denom`: exactly one coin must be
/// attached, of that denomination and of nonzero amount.
pub fn must_pay(funds: &Vec<Coin>, denom: &str) -> (r: Result<u128, PaymentError>)
    ensures
        funds@.len() == 0 ==> r == Err::<u128, PaymentError>(PaymentError::NoFunds),
        funds@.len() > 1 ==> r == Err::<u128, PaymentError>(PaymentError::MultipleDenoms),
        funds@.len() == 1 && funds@[0].amount == 0 ==> r == Err::<u128, PaymentError>(
            PaymentError::NoFunds,
        ),
        funds@.len() == 1 && funds@[0].amount > 0 && funds@[0].denom@ != denom@ ==> (r matches
            Err(e) && e matches PaymentError::MissingDenom(d) && d@ == denom@),
        funds@.len() == 1 && funds@[0].amount > 0 && funds@[0].denom@ == denom@ ==> r == Ok::<
            u128,
            PaymentError,
        >(funds@[0].amount),
{
    if funds.len() == 0 {
        return Err(PaymentError::NoFunds);
    }
    if funds.len() > 1 {
        return Err(PaymentError::MultipleDenoms);
    }
    if funds[0].amount == 0 {
        return Err(PaymentError::NoFunds);
    }
    if !crate::table::str_eq(funds[0].denom.as_str(), denom) {
        return Err(PaymentError::MissingDenom(denom.to_owned()));
    }
    Ok(funds[0].amount)
}

/// Replaces the configuration. Owner only.
pub fn update_config(state: &mut VestingState, sender: &str, new_cfg: Config) -> (r: Result<
    (),
    Error,
>)
    requires
        old(state).wf(),
    ensures
        final(state).wf(),
        final(state).positions@ == old(state).positions@,
        sender@ != old(state).config.owner@ ==> r == Err::<(), Error>(Error::NotOwner)
            && final(state).config == old(state).config,
        sender@ == old(state).config.owner@ ==> r == Ok::<(), Error>(()) && final(state).config
            == new_cfg,
{
    if !crate::table::str_eq(sender, state.config.owner.as_str()) {
        return Err(Error::NotOwner);
    }
    state.config = new_cfg;
    Ok(())
}

/// Creates a vesting position for `user`, funded by the payment attached in
/// `funds`. Owner only; at most one position per user, ever.
pub fn create_position(
    state: &mut VestingState,
    sender: &str,
    funds: &Vec<Coin>,
    user: String,
    vest_schedule: Schedule,
) -> (r: Result<u128, Error>)
    requires
        old(state).wf(),
    ensures
        final(state).wf(),
        final(state).config == old(state).config,
        sender@ != old(state).config.owner@ ==> r == Err::<u128, Error>(Error::NotOwner)
            && final(state).positions@ == old(state).positions@,
        sender@ == old(state).config.owner@ ==> match must_pay_outcome(
            funds@,
            old(state).config.denom@,
        ) {
            Err(pe) => (r matches Err(e) && e matches Error::Payment(p) && payment_matches(
                p,
                pe,
                old(state).config.denom@,
            ) && final(state).positions@ == old(state).positions@),
            Ok(total) => if spec_contains(old(state).positions@, user@) {
                r == Err::<u128, Error>(Error::PositionExists) && final(state).positions@ == old(
                    state,
                ).positions@
            } else {
                r == Ok::<u128, Error>(total) && final(state).positions@ == spec_insert(
                    old(state).positions@,
                    user@,
                    Position { total, withdrawn: 0, vest_schedule },
                )
            },
        },
{
    if !crate::table::str_eq(sender, state.config.owner.as_str()) {
        return Err(Error::NotOwner);
    }
    let total = match must_pay(funds, state.config.denom.as_str()) {
        Ok(t) => t,
        Err(e) => {
            return Err(Error::Payment(e));
        },
    };
    let position = Position { total, withdrawn: 0, vest_schedule };
    if !state.positions.try_insert(user.as_str(), position) {
        return Err(Error::PositionExists);
    }
    proof {
        lemma_insert_entries(old(state).positions@, user@, position);
    }
    Ok(total)
}

/// The abstract outcome of `must_pay`, with the missing-denom reason
/// erased.
pub open spec fn must_pay_outcome(funds: Seq<Coin>, denom: Seq<char>) -> Result<u128, ()> {
    if funds.len() == 1 && funds[0].amount > 0 && funds[0].denom@ == denom {
        Ok(funds[0].amount)
    } else {
        Err(())
    }
}

/// Which payment error the erased outcome stands for.
pub open spec fn payment_matches(p: PaymentError, pe: (), denom: Seq<char>) -> bool {
    p matches PaymentError::NoFunds || p matches PaymentError::MultipleDenoms || (p matches
        PaymentError::MissingDenom(d) && d@ == denom)
}

/// Terminates `user`'s position: the unvested remainder is reclaimed by the
/// owner, the position's total becomes what has vested, and its schedule
/// ends now. Owner only.
pub fn terminate_position(state: &mut VestingState, sender: &str, time: u64, user: &str) -> (r:
    Result<(u128, u128), Error>)
    requires
        old(state).wf(),
        match spec_lookup(old(state).positions@, user@) {
            Some(p) => time >= p.vest_schedule.start_time && p.withdrawn <= spec_vested(
                time,
                p.total,
                p.vest_schedule,
            ),
            None => true,
        },
    ensures
        final(state).wf(),
        final(state).config == old(state).config,
        sender@ != old(state).config.owner@ ==> r == Err::<(u128, u128), Error>(Error::NotOwner)
            && final(state).positions@ == old(state).positions@,
        sender@ == old(state).config.owner@ ==> match spec_lookup(old(state).positions@, user@) {
            None => r == Err::<(u128, u128), Error>(Error::PositionNotFound)
                && final(state).positions@ == old(state).positions@,
            Some(p) => {
                let vested = spec_vested(time, p.total, p.vest_schedule);
                r == Ok::<(u128, u128), Error>((vested as u128, (p.total - vested) as u128))
                    && final(state).positions@ == spec_upsert(
                    old(state).positions@,
                    user@,
                    Position {
                        total: vested as u128,
                        withdrawn: p.withdrawn,
                        vest_schedule: Schedule {
                            start_time: p.vest_schedule.start_time,
                            cliff: p.vest_schedule.cliff,
                            duration: (time - p.vest_schedule.start_time) as u64,
                        },
                    },
                )
            },
        },
{
    if !crate::table::str_eq(sender, state.config.owner.as_str()) {
        return Err(Error::NotOwner);
    }
    let position = match state.positions.get(user) {
        Some(p) => p,
        None => {
            return Err(Error::PositionNotFound);
        },
    };
    let (vested, _, _) = compute_withdrawable(
        time,
        position.total,
        position.withdrawn,
        &position.vest_schedule,
        &state.config.unlock_schedule,
    );
    proof {
        lemma_vested_le_total(time, position.total, position.vest_schedule);
    }
    let reclaim = position.total - vested;
    let updated = Position {
        total: vested,
        withdrawn: position.withdrawn,
        vest_schedule: Schedule {
            start_time: position.vest_schedule.start_time,
            cliff: position.vest_schedule.cliff,
            duration: time - position.vest_schedule.start_time,
        },
    };
    state.positions.set(user, updated);
    proof {
        lemma_upsert_entries(old(state).positions@, user@, updated);
    }
    Ok((vested, reclaim))
}

/// Withdraws the caller's vested and unlocked tokens; fails when nothing is
/// withdrawable.
pub fn withdraw(state: &mut VestingState, time: u64, sender: &str) -> (r: Result<u128, Error>)
    requires
        old(state).wf(),
    ensures
        final(state).wf(),
        final(state).config == old(state).config,
        match spec_lookup(old(state).positions@, sender@) {
            None => r == Err::<u128, Error>(Error::PositionNotFound) && final(state).positions@
                == old(state).positions@,
            Some(p) => {
                let w = spec_withdrawable(
                    time,
                    p.total,
                    p.withdrawn,
                    p.vest_schedule,
                    old(state).config.unlock_schedule,
                );
                if w == 0 {
                    r == Err::<u128, Error>(Error::ZeroWithdrawable) && final(state).positions@
                        == old(state).positions@
                } else {
                    r == Ok::<u128, Error>(w as u128) && final(state).positions@ == spec_upsert(
                        old(state).positions@,
                        sender@,
                        Position {
                            total: p.total,
                            withdrawn: (p.withdrawn + w) as u128,
                            vest_schedule: p.vest_schedule,
                        },
                    )
                }
            },
        },
{
    let position = match state.positions.get(sender) {
        Some(p) => p,
        None => {
            return Err(Error::PositionNotFound);
        },
    };
    let (_, _, withdrawable) = compute_withdrawable(
        time,
        position.total,
        position.withdrawn,
        &position.vest_schedule,
        &state.config.unlock_schedule,
    );
    if withdrawable == 0 {
        return Err(Error::ZeroWithdrawable);
    }
    proof {
        lemma_vested_le_total(time, position.total, position.vest_schedule);
        lemma_vested_le_total(time, position.total, state.config.unlock_schedule);
    }
    let updated = Position {
        total: position.total,
        withdrawn: position.withdrawn + withdrawable,
        vest_schedule: position.vest_schedule,
    };
    state.positions.set(sender, updated);
    proof {
        lemma_upsert_entries(old(state).positions@, sender@, updated);
        lemma_vested_le_total(time, position.total, position.vest_schedule);
    }
    Ok(withdrawable)
}

pub fn query_config(state: &VestingState) -> (r: &Config)
    ensures
        r == state.config,
{
    &state.config
}

/// Tokens still locked for `user`: allocated and not yet withdrawn; zero
/// for a user with no position.
pub fn query_voting_power(state: &VestingState, user: String) -> (r: VotingPowerResponse)
    requires
        state.wf(),
    ensures
        r.user == user,
        r.voting_power as int == match spec_lookup(state.positions@, user@) {
            Some(p) => p.total - p.withdrawn,
            None => 0,
        },
{
    let voting_power = match state.positions.get(user.as_str()) {
        Some(p) => {
            proof {
                lemma_lookup_entry(state.positions@, user@);
                let i = choose|i: int|
                    0 <= i < state.positions@.len() && state.positions@[i] == (user@, p);
                assert(state.positions@[i].1 == p);
            }
            p.total - p.withdrawn
        },
        None => 0,
    };
    VotingPowerResponse { user, voting_power }
}

/// The details of `user`'s position at `time`.
pub fn query_position(state: &VestingState, time: u64, user: String) -> (r: Result<
    PositionResponse,
    Error,
>)
    requires
        state.wf(),
    ensures
        match spec_lookup(state.positions@, user@) {
            None => r == Err::<PositionResponse, Error>(Error::PositionNotFound),
            Some(p) => r matches Ok(resp) && resp.user == user && resp.total == p.total
                && resp.withdrawn == p.withdrawn && resp.vest_schedule == p.vest_schedule
                && resp.vested as int == spec_vested(time, p.total, p.vest_schedule)
                && resp.unlocked as int == spec_vested(time, p.total, state.config.unlock_schedule)
                && resp.withdrawable as int == spec_withdrawable(
                time,
                p.total,
                p.withdrawn,
                p.vest_schedule,
                state.config.unlock_schedule,
            ),
        },
{
    let position = match state.positions.get(user.as_str()) {
        Some(p) => p,
        None => {
            return Err(Error::PositionNotFound);
        },
    };
    Ok(compute_position_response(time, user, &position, &state.config.unlock_schedule))
}

/// Enumerates recipients with their locked tokens, in ascending key order,
/// strictly after `start_after` when given.
pub fn query_voting_powers(
    state: &VestingState,
    start_after: Option<String>,
    limit: Option<u32>,
) -> (r: Vec<VotingPowerResponse>)
    requires
        state.wf(),
    ensures
        ({
            let page = spec_page(state.positions@, opt_chars(start_after), spec_limit(limit));
            r@.len() == page.len() && forall|i: int|
                0 <= i < page.len() ==> (#[trigger] r@[i]).user@ == page[i].0
                    && r@[i].voting_power as int == page[i].1.total - page[i].1.withdrawn
        }),
{
    let pairs = page_positions(state, start_after, limit);
    let n = pairs.len();
    let mut r: Vec<VotingPowerResponse> = Vec::new();
    let mut i: usize = 0;
    while i < n
        invariant
            0 <= i <= n,
            n == pairs@.len(),
            r@.len() == i,
            forall|j: int|
                0 <= j < pairs@.len() ==> (#[trigger] pairs@[j].1).withdrawn <= pairs@[j].1.total,
            forall|j: int|
                0 <= j < i ==> (#[trigger] r@[j]).user@ == pairs@[j].0@ && r@[j].voting_power as int
                    == pairs@[j].1.total - pairs@[j].1.withdrawn,
        decreases n - i,
    {
        let user = clone_string(&pairs[i].0);
        let p = pairs[i].1;
        r.push(VotingPowerResponse { user, voting_power: p.total - p.withdrawn });
        i = i + 1;
    }
    r
}

/// Enumerates positions with their details at `time`, in ascending key
/// order, strictly after `start_after` when given.
pub fn query_positions(
    state: &VestingState,
    time: u64,
    start_after: Option<String>,
    limit: Option<u32>,
) -> (r: Vec<PositionResponse>)
    requires
        state.wf(),
    ensures
        ({
            let page = spec_page(state.positions@, opt_chars(start_after), spec_limit(limit));
            r@.len() == page.len() && forall|i: int|
                0 <= i < page.len() ==> (#[trigger] r@[i]).user@ == page[i].0 && r@[i].total
                    == page[i].1.total && r@[i].withdrawn == page[i].1.withdrawn
                    && r@[i].vested as int == spec_vested(time, page[i].1.total, page[i].1.vest_schedule)
                    && r@[i].unlocked as int == spec_vested(
                    time,
                    page[i].1.total,
                    state.config.unlock_schedule,
                ) && r@[i].withdrawable as int == spec_withdrawable(
                    time,
                    page[i].1.total,
                    page[i].1.withdrawn,
                    page[i].1.vest_schedule,
                    state.config.unlock_schedule,
                )
        }),
{
    let pairs = page_positions(state, start_after, limit);
    let n = pairs.len();
    let mut r: Vec<PositionResponse> = Vec::new();
    let mut i: usize = 0;
    while i < n
        invariant
            0 <= i <= n,
            n == pairs@.len(),
            r@.len() == i,
            forall|j: int|
                0 <= j < i ==> (#[trigger] r@[j]).user@ == pairs@[j].0@ && r@[j].total
                    == pairs@[j].1.total && r@[j].withdrawn == pairs@[j].1.withdrawn
                    && r@[j].vested as int == spec_vested(
                    time,
                    pairs@[j].1.total,
                    pairs@[j].1.vest_schedule,
                ) && r@[j].unlocked as int == spec_vested(
                    time,
                    pairs@[j].1.total,
                    state.config.unlock_schedule,
                ) && r@[j].withdrawable as int == spec_withdrawable(
                    time,
                    pairs@[j].1.total,
                    pairs@[j].1.withdrawn,
                    pairs@[j].1.vest_schedule,
                    state.config.unlock_schedule,
                ),
        decreases n - i,
    {
        let user = clone_string(&pairs[i].0);
        let p = pairs[i].1;
        r.push(compute_position_response(time, user, &p, &state.config.unlock_schedule));
        i = i + 1;
    }
    r
}

/// One page of raw position pairs, with the well-formedness of each entry
/// carried over from the state.
fn page_positions(state: &VestingState, start_after: Option<String>, limit: Option<u32>) -> (r: Vec<
    (String, Position),
>)
    requires
        state.wf(),
    ensures
        pairs_view(r@) == spec_page(state.positions@, opt_chars(start_after), spec_limit(limit)),
        forall|j: int| 0 <= j < r@.len() ==> (#[trigger] r@[j].1).withdrawn <= r@[j].1.total,
        forall|j: int| 0 <= j < r@.len() ==> #[trigger] r@[j].0@ == pairs_view(r@)[j].0,
{
    let lim: u32 = match limit {
        None => DEFAULT_LIMIT,
        Some(l) => if l <= MAX_LIMIT {
            l
        } else {
            MAX_LIMIT
        },
    };
    let cursor: Option<&str> = match &start_after {
        None => None,
        Some(s) => Some(s.as_str()),
    };
    proof {
        assert(start_view(cursor) == opt_chars(start_after));
    }
    let pairs = state.positions.page(cursor, lim as usize);
    proof {
        let m = state.positions@;
        let start = opt_chars(start_after);
        assert(lim as nat == spec_limit(limit));
        let b = crate::table::spec_skip_count(m, start);
        crate::table::lemma_skip_count_bounds(m, start);
        let pg = spec_page(m, start, spec_limit(limit));
        assert(pg == pairs_view(pairs@));
        assert(pairs_view(pairs@).len() == pairs@.len());
        assert forall|j: int| 0 <= j < pairs@.len() implies (#[trigger] pairs@[j].1).withdrawn
            <= pairs@[j].1.total by {
            assert(pairs_view(pairs@)[j] == (pairs@[j].0@, pairs@[j].1));
            assert(b + pg.len() <= m.len());
            assert(pg[j] == m[b + j]);
            assert(pairs@[j].1 == m[b + j].1);
        }
        assert forall|j: int| 0 <= j < pairs@.len() implies #[trigger] pairs@[j].0@ == pairs_view(
            pairs@,
        )[j].0 by {
            assert(pairs_view(pairs@)[j] == (pairs@[j].0@, pairs@[j].1));
        }
    }
    pairs
}

fn clone_string(s: &String) -> (r: String)
    ensures
        r == s,
{
    s.clone()
}

} // verus!
