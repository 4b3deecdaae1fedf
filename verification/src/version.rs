//! The stored contract-version record and the guard every migration runs
//! first: a migration may only transform the exact contract and version it
//! was written for.

use vstd::prelude::*;
use crate::table::str_eq;

verus! {

/// The version record a contract keeps about itself.
pub struct ContractVersion {
    /// The globally unique contract name.
    pub contract: String,
    /// The version the storage is laid out for.
    pub version: String,
}

#[derive(Debug, PartialEq, Eq)]
pub enum VersionError {
    /// The stored record belongs to a different contract.
    WrongContract { expect: String, found: String },
    /// The stored record is of a different version.
    WrongVersion { expect: String, found: String },
}

/// Passes only when the stored record names exactly the expected contract
/// and version; the error carries both sides.
pub fn assert_contract_version(
    stored: &ContractVersion,
    expect_contract: &str,
    expect_version: &str,
) -> (r: Result<(), VersionError>)
    ensures
        stored.contract@ != expect_contract@ ==> (r matches Err(e) && e matches
            VersionError::WrongContract { expect, found } && expect@ == expect_contract@ && found
            == stored.contract),
        stored.contract@ == expect_contract@ && stored.version@ != expect_version@ ==> (r matches
            Err(e) && e matches VersionError::WrongVersion { expect, found } && expect@
            == expect_version@ && found == stored.version),
        stored.contract@ == expect_contract@ && stored.version@ == expect_version@ ==> r == Ok::<
            (),
            VersionError,
        >(()),
{
    if !str_eq(stored.contract.as_str(), expect_contract) {
        return Err(
            VersionError::WrongContract {
                expect: expect_contract.to_owned(),
                found: clone_string(&stored.contract),
            },
        );
    }
    if !str_eq(stored.version.as_str(), expect_version) {
        return Err(
            VersionError::WrongVersion {
                expect: expect_version.to_owned(),
                found: clone_string(&stored.version),
            },
        );
    }
    Ok(())
}

fn clone_string(s: &String) -> (r: String)
    ensures
        r == s,
{
    s.clone()
}

} // verus!
