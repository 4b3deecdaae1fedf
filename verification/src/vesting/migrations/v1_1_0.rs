//! First layout change: the owner, the fixed vest denomination and the
//! unlock schedule, kept separately before, become one configuration
//! record.

use vstd::prelude::*;
use vstd::string::StringExecFns;
use crate::version::{assert_contract_version, ContractVersion};
use crate::vesting::msg::{Config, Error, Schedule};

verus! {

/// Whether the stored record is the one this migration transforms.
pub open spec fn spec_version_ok(stored: &ContractVersion) -> bool {
    stored.contract@ == "crates.io:mars-vesting"@ && stored.version@ == "1.0.0"@
}

/// Assembles the configuration record from the prior layout's fields; the
/// vest denomination was fixed.
pub fn migrate(stored: &ContractVersion, owner: String, unlock_schedule: Schedule) -> (r: Result<
    Config,
    Error,
>)
    ensures
        spec_version_ok(stored) ==> (r matches Ok(cfg) && cfg.owner == owner && cfg.denom@
            == "umars"@ && cfg.unlock_schedule == unlock_schedule),
        !spec_version_ok(stored) ==> (r matches Err(e) && e matches Error::Version(_)),
{
    match assert_contract_version(stored, "crates.io:mars-vesting", "1.0.0") {
        Ok(()) => {},
        Err(e) => {
            return Err(Error::Version(e));
        },
    }
    let mut denom = String::new();
    denom.append("umars");
    Ok(Config { owner, denom, unlock_schedule })
}

} // verus!
