//! The vesting migrations: the version guard, the configuration assembly
//! of the first step, and the atomic position corrections of the second.

use mars_periphery::coin::Coin;
use mars_periphery::version::{ContractVersion, VersionError};
use mars_periphery::vesting::contract::{create_position, instantiate, query_voting_power};
use mars_periphery::vesting::migrations::{v1_1_0, v1_1_1};
use mars_periphery::vesting::msg::{Config, Error, PositionAlteration, Schedule, V1_1_1Updates};
use mars_periphery::vesting::state::VestingState;

fn schedule() -> Schedule {
    Schedule { start_time: 1614600000, cliff: 31536000, duration: 126144000 }
}

fn setup_test() -> VestingState {
    instantiate(Config {
        owner: "owner".to_string(),
        denom: "umars".to_string(),
        unlock_schedule: Schedule { start_time: 1662033600, cliff: 0, duration: 63072000 },
    })
}

fn version(contract: &str, version: &str) -> ContractVersion {
    ContractVersion { contract: contract.to_string(), version: version.to_string() }
}

fn coins(amount: u128, denom: &str) -> Vec<Coin> {
    vec![Coin { denom: denom.to_string(), amount }]
}

#[test]
fn invalid_contract_version() {
    let mut state = setup_test();
    let updates = V1_1_1Updates { position_alterations: vec![], total_reclaim: 0 };

    let err = v1_1_1::migrate(&mut state, &version("crates.io:mars-vesting", "1.0.0"), &updates)
        .unwrap_err();
    assert_eq!(
        err,
        Error::Version(VersionError::WrongVersion {
            expect: "1.1.0".to_string(),
            found: "1.0.0".to_string()
        })
    );

    let err = v1_1_1::migrate(&mut state, &version("crates.io:other", "1.1.0"), &updates)
        .unwrap_err();
    assert_eq!(
        err,
        Error::Version(VersionError::WrongContract {
            expect: "crates.io:mars-vesting".to_string(),
            found: "crates.io:other".to_string()
        })
    );
}

#[test]
fn proper_migration() {
    let mut state = setup_test();
    create_position(&mut state, "owner", &coins(456, "umars"), "larry".to_string(), schedule())
        .unwrap();
    create_position(&mut state, "owner", &coins(789, "umars"), "piotr".to_string(), schedule())
        .unwrap();

    let updates = V1_1_1Updates {
        position_alterations: vec![
            PositionAlteration {
                addr: "larry".to_string(),
                total_old: 456,
                total_new: 123,
                reclaim: 333,
            },
            PositionAlteration {
                addr: "piotr".to_string(),
                total_old: 789,
                total_new: 666,
                reclaim: 123,
            },
        ],
        total_reclaim: 456,
    };
    let reclaimed =
        v1_1_1::migrate(&mut state, &version("crates.io:mars-vesting", "1.1.0"), &updates)
            .unwrap();
    assert_eq!(reclaimed, 456);
    assert_eq!(query_voting_power(&state, "larry".to_string()).voting_power, 123);
    assert_eq!(query_voting_power(&state, "piotr".to_string()).voting_power, 666);
}

#[test]
fn migration_with_unknown_position_changes_nothing() {
    let mut state = setup_test();
    create_position(&mut state, "owner", &coins(456, "umars"), "larry".to_string(), schedule())
        .unwrap();
    let updates = V1_1_1Updates {
        position_alterations: vec![
            PositionAlteration {
                addr: "larry".to_string(),
                total_old: 456,
                total_new: 400,
                reclaim: 56,
            },
            PositionAlteration {
                addr: "nobody".to_string(),
                total_old: 1,
                total_new: 0,
                reclaim: 1,
            },
        ],
        total_reclaim: 57,
    };
    let err = v1_1_1::migrate(&mut state, &version("crates.io:mars-vesting", "1.1.0"), &updates)
        .unwrap_err();
    assert_eq!(err, Error::PositionNotFound);
    // the first alteration was not applied either: the batch is atomic
    assert_eq!(query_voting_power(&state, "larry".to_string()).voting_power, 456);
}

#[test]
fn migration_raising_a_total_overflows() {
    let mut state = setup_test();
    create_position(&mut state, "owner", &coins(456, "umars"), "larry".to_string(), schedule())
        .unwrap();
    // a "correction" that raises the total would make the reclaim negative
    let updates = V1_1_1Updates {
        position_alterations: vec![PositionAlteration {
            addr: "larry".to_string(),
            total_old: 456,
            total_new: 500,
            reclaim: 0,
        }],
        total_reclaim: 0,
    };
    let err = v1_1_1::migrate(&mut state, &version("crates.io:mars-vesting", "1.1.0"), &updates)
        .unwrap_err();
    assert_eq!(err, Error::Overflow);
    assert_eq!(query_voting_power(&state, "larry".to_string()).voting_power, 456);
}

#[test]
fn config_assembly_from_first_layout() {
    let cfg = v1_1_0::migrate(
        &version("crates.io:mars-vesting", "1.0.0"),
        "owner".to_string(),
        schedule(),
    )
    .unwrap();
    assert_eq!(cfg.owner, "owner");
    assert_eq!(cfg.denom, "umars");
    assert_eq!(cfg.unlock_schedule, schedule());

    let err = v1_1_0::migrate(
        &version("crates.io:mars-vesting", "1.1.0"),
        "owner".to_string(),
        schedule(),
    )
    .unwrap_err();
    assert!(matches!(err, Error::Version(_)));
}
