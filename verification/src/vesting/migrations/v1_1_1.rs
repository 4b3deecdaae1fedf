//! Second layout change: position totals are corrected downwards, entry by
//! entry, and the freed tokens are reclaimed by the owner in one transfer.
//! The whole batch applies atomically: a failing alteration leaves every
//! position untouched.

use vstd::prelude::*;
use crate::table::{lemma_upsert_entries, spec_lookup, spec_upsert};
use crate::version::{assert_contract_version, ContractVersion};
use crate::vesting::msg::{Error, Position, PositionAlteration, V1_1_1Updates};
use crate::vesting::state::VestingState;

verus! {

/// Whether the stored record is the one this migration transforms.
pub open spec fn spec_version_ok(stored: &ContractVersion) -> bool {
    stored.contract@ == "crates.io:mars-vesting"@ && stored.version@ == "1.1.0"@
}

/// The alterations applied in order to the position table, with the
/// reclaimed amounts accumulated: the final table and sum, the error a
/// failing step reports, or `Err(None)` for a step whose stored position
/// does not look as the alteration expects — the case the code refuses to
/// run into.
pub open spec fn spec_apply(
    m: Seq<(Seq<char>, Position)>,
    alts: Seq<PositionAlteration>,
    sum: int,
) -> Result<(Seq<(Seq<char>, Position)>, int), Option<Error>>
    decreases alts.len(),
{
    if alts.len() == 0 {
        Ok((m, sum))
    } else {
        let a = alts[0];
        match spec_lookup(m, a.addr@) {
            None => Err(Some(Error::PositionNotFound)),
            Some(p) => if a.total_new > p.total {
                Err(Some(Error::Overflow))
            } else if sum + (p.total - a.total_new) > u128::MAX {
                Err(Some(Error::Overflow))
            } else if !(p.total == a.total_old && p.withdrawn == 0 && a.reclaim == p.total
                - a.total_new) {
                Err(None)
            } else {
                spec_apply(
                    spec_upsert(
                        m,
                        a.addr@,
                        Position {
                            total: a.total_new,
                            withdrawn: p.withdrawn,
                            vest_schedule: p.vest_schedule,
                        },
                    ),
                    alts.drop_first(),
                    sum + a.reclaim,
                )
            },
        }
    }
}

/// Applies the corrections. Requires that no stored position contradicts
/// its alteration and that the accumulated reclaim matches the expected
/// total: corrections are prepared off-system against a known snapshot,
/// and a batch that disagrees with the store must not run at all.
pub fn migrate(state: &mut VestingState, stored: &ContractVersion, updates: &V1_1_1Updates) -> (r:
    Result<u128, Error>)
    requires
        old(state).wf(),
        !(spec_apply(old(state).positions@, updates.position_alterations@, 0) matches Err(e) && e
            is None),
        spec_apply(old(state).positions@, updates.position_alterations@, 0) matches Ok((m2, sum))
            ==> sum == updates.total_reclaim,
    ensures
        final(state).wf(),
        final(state).config == old(state).config,
        !spec_version_ok(stored) ==> (r matches Err(e) && e matches Error::Version(_)
            && final(state).positions@ == old(state).positions@),
        spec_version_ok(stored) ==> match spec_apply(
            old(state).positions@,
            updates.position_alterations@,
            0,
        ) {
            Ok((m2, sum)) => r == Ok::<u128, Error>(sum as u128) && final(state).positions@ == m2,
            Err(e) => r == Err::<u128, Error>(e.unwrap()) && final(state).positions@ == old(
                state,
            ).positions@,
        },
{
    match assert_contract_version(stored, "crates.io:mars-vesting", "1.1.0") {
        Ok(()) => {},
        Err(e) => {
            return Err(Error::Version(e));
        },
    }
    let mut work = state.positions.duplicate();
    let mut total_reclaim: u128 = 0;
    let n = updates.position_alterations.len();
    let mut i: usize = 0;
    proof {
        assert(updates.position_alterations@.skip(0) =~= updates.position_alterations@);
    }
    while i < n
        invariant
            0 <= i <= n,
            n == updates.position_alterations@.len(),
            spec_version_ok(stored),
            *state == *old(state),
            state.wf(),
            work.wf(),
            forall|j: int|
                0 <= j < work@.len() ==> (#[trigger] work@[j].1).withdrawn <= work@[j].1.total,
            spec_apply(old(state).positions@, updates.position_alterations@, 0) == spec_apply(
                work@,
                updates.position_alterations@.skip(i as int),
                total_reclaim as int,
            ),
            !(spec_apply(old(state).positions@, updates.position_alterations@, 0) matches Err(e)
                && e is None),
        decreases n - i,
    {
        proof {
            assert(updates.position_alterations@.skip(i as int)[0]
                == updates.position_alterations@[i as int]);
            assert(updates.position_alterations@.skip(i as int).drop_first()
                =~= updates.position_alterations@.skip(i + 1));
        }
        let alteration = &updates.position_alterations[i];
        let position = match work.get(alteration.addr.as_str()) {
            Some(p) => p,
            None => {
                return Err(Error::PositionNotFound);
            },
        };
        if alteration.total_new > position.total {
            return Err(Error::Overflow);
        }
        let reclaim = position.total - alteration.total_new;
        if total_reclaim > u128::MAX - reclaim {
            return Err(Error::Overflow);
        }
        total_reclaim = total_reclaim + reclaim;
        let updated = Position {
            total: alteration.total_new,
            withdrawn: position.withdrawn,
            vest_schedule: position.vest_schedule,
        };
        let ghost pre = work@;
        work.set(alteration.addr.as_str(), updated);
        proof {
            lemma_upsert_entries(pre, alteration.addr@, updated);
        }
        i = i + 1;
    }
    proof {
        assert(updates.position_alterations@.skip(n as int) =~= Seq::<PositionAlteration>::empty());
    }
    state.positions = work;
    Ok(total_reclaim)
}

} // verus!
