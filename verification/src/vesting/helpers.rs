//! The vesting arithmetic: the amount vested or unlocked under a schedule
//! at a point in time, and the amount withdrawable given both schedules,
//! proved exact against the integer formulas.

use vstd::prelude::*;
use vstd::arithmetic::div_mod::{lemma_div_is_ordered, lemma_div_by_multiple,
    lemma_fundamental_div_mod, lemma_fundamental_div_mod_converse};
use crate::vesting::msg::{Position, PositionResponse, Schedule};

verus! {

/// Amount vested (or unlocked) at `time` under `s`: nothing before the end
/// of the cliff, everything from `start_time + duration` on, and a linear
/// share in between.
pub open spec fn spec_vested(time: u64, total: u128, s: Schedule) -> int {
    if time < s.start_time + s.cliff {
        0
    } else if time < s.start_time + s.duration {
        (total * (time - s.start_time)) / (s.duration as int)
    } else {
        total as int
    }
}

/// The smaller of vested and unlocked, less what was already withdrawn;
/// zero when that would be negative.
pub open spec fn spec_withdrawable(
    time: u64,
    total: u128,
    withdrawn: u128,
    vest: Schedule,
    unlock: Schedule,
) -> int {
    let vested = spec_vested(time, total, vest);
    let unlocked = spec_vested(time, total, unlock);
    let cap = if vested <= unlocked {
        vested
    } else {
        unlocked
    };
    if cap >= withdrawn {
        cap - withdrawn
    } else {
        0
    }
}

/// Nothing vests beyond the total.
pub proof fn lemma_vested_le_total(time: u64, total: u128, s: Schedule)
    ensures
        0 <= spec_vested(time, total, s) <= total,
{
    if !(time < s.start_time + s.cliff) && time < s.start_time + s.duration {
        let e = time - s.start_time;
        let d = s.duration as int;
        assert(0 <= e < d);
        assert(total * e <= total * d) by (nonlinear_arith)
            requires
                0 <= e <= d,
                total >= 0,
        ;
        assert(total * e >= 0) by (nonlinear_arith)
            requires
                e >= 0,
                total >= 0,
        ;
        lemma_div_is_ordered(total * e, total * d, d);
        lemma_div_by_multiple(total as int, d);
        assert((total * d) / d == total as int);
        assert((total * e) / d >= 0) by {
            lemma_fundamental_div_mod(total * e, d);
            assert(total * e == d * ((total * e) / d) + (total * e) % d);
            assert((total * e) % d < d);
            if (total * e) / d < 0 {
                assert(d * ((total * e) / d) <= d * -1) by (nonlinear_arith)
                    requires
                        d > 0,
                        (total * e) / d <= -1,
                ;
            }
        }
    }
}

/// `total * num / den`, exact, for `num <= den`; the quotient never
/// overflows because it is at most `total`.
fn multiply_ratio(total: u128, num: u64, den: u64) -> (r: u128)
    requires
        0 < den,
        num <= den,
    ensures
        r as int == (total * num) / (den as int),
{
    let d: u128 = den as u128;
    let e: u128 = num as u128;
    let q: u128 = total / d;
    let rem: u128 = total % d;
    proof {
        lemma_fundamental_div_mod(total as int, d as int);
        assert(total == d * q + rem);
        assert(rem * e < 0x10000000000000000 * 0x10000000000000000) by (nonlinear_arith)
            requires
                0 <= rem < 0x10000000000000000,
                0 <= e < 0x10000000000000000,
        ;
        assert(q * e <= q * d) by (nonlinear_arith)
            requires
                q >= 0,
                0 <= e <= d,
        ;
        assert(q * d <= d * q + rem) by (nonlinear_arith)
            requires
                rem >= 0,
        ;
    }
    let low: u128 = (rem * e) / d;
    proof {
        assert(rem * e <= rem * d) by (nonlinear_arith)
            requires
                rem >= 0,
                0 <= e <= d,
        ;
        lemma_div_is_ordered((rem * e) as int, (rem * d) as int, d as int);
        lemma_div_by_multiple(rem as int, d as int);
        assert(low <= rem);
    }
    let r = q * e + low;
    proof {
        lemma_fundamental_div_mod((rem * e) as int, d as int);
        let b = (rem * e) as int / d as int;
        let r2 = (rem * e) as int % d as int;
        assert(total * e == d * (q * e + b) + r2) by (nonlinear_arith)
            requires
                total == d * q + rem,
                rem * e == d * b + r2,
        ;
        lemma_fundamental_div_mod_converse((total * e) as int, d as int, q * e + b, r2);
    }
    r
}

/// Computes the amount vested (or unlocked) at `time` under `schedule`.
pub fn compute_vested_or_unlocked_amount(time: u64, total: u128, schedule: &Schedule) -> (r: u128)
    ensures
        r as int == spec_vested(time, total, *schedule),
{
    let start = schedule.start_time;
    if (time as u128) < start as u128 + schedule.cliff as u128 {
        0
    } else if (time as u128) < start as u128 + schedule.duration as u128 {
        multiply_ratio(total, time - start, schedule.duration)
    } else {
        total
    }
}

/// Computes vested, unlocked, and withdrawable amounts of a position at
/// `time`.
pub fn compute_withdrawable(
    time: u64,
    total: u128,
    withdrawn: u128,
    vest_schedule: &Schedule,
    unlock_schedule: &Schedule,
) -> (r: (u128, u128, u128))
    ensures
        r.0 as int == spec_vested(time, total, *vest_schedule),
        r.1 as int == spec_vested(time, total, *unlock_schedule),
        r.2 as int == spec_withdrawable(time, total, withdrawn, *vest_schedule, *unlock_schedule),
{
    let vested = compute_vested_or_unlocked_amount(time, total, vest_schedule);
    let unlocked = compute_vested_or_unlocked_amount(time, total, unlock_schedule);
    let cap = if vested <= unlocked {
        vested
    } else {
        unlocked
    };
    let withdrawable = if cap >= withdrawn {
        cap - withdrawn
    } else {
        0
    };
    (vested, unlocked, withdrawable)
}

/// Assembles the response for one position at `time`.
pub fn compute_position_response(
    time: u64,
    user: String,
    position: &Position,
    unlock_schedule: &Schedule,
) -> (r: PositionResponse)
    ensures
        r.user == user,
        r.total == position.total,
        r.vested as int == spec_vested(time, position.total, position.vest_schedule),
        r.unlocked as int == spec_vested(time, position.total, *unlock_schedule),
        r.withdrawn == position.withdrawn,
        r.withdrawable as int == spec_withdrawable(
            time,
            position.total,
            position.withdrawn,
            position.vest_schedule,
            *unlock_schedule,
        ),
        r.vest_schedule == position.vest_schedule,
{
    let (vested, unlocked, withdrawable) = compute_withdrawable(
        time,
        position.total,
        position.withdrawn,
        &position.vest_schedule,
        unlock_schedule,
    );
    PositionResponse {
        user,
        total: position.total,
        vested,
        unlocked,
        withdrawn: position.withdrawn,
        withdrawable,
        vest_schedule: position.vest_schedule,
    }
}

} // verus!
