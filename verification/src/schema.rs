//! The store's schema version and the startup check against it.
//!
//! The schema carries a monotonic version; pending upgrades apply in
//! order, and a store from a newer engine halts startup — there is no
//! downgrade path.

use vstd::prelude::*;

use crate::errors::LifecycleError;

verus! {

/// The newest schema version this engine knows how to produce.
pub const NEWEST_DB_VERSION: u64 = 1;

/// Accepts a store at or below the engine's version and says how many
/// upgrades are pending; rejects a store from a newer engine.
pub fn check_schema_version(db_version: u64) -> (r: Result<u64, LifecycleError>)
    ensures
        match r {
            Result::Ok(pending) => db_version <= NEWEST_DB_VERSION && pending == NEWEST_DB_VERSION
                - db_version,
            Result::Err(e) => db_version > NEWEST_DB_VERSION && e == LifecycleError::SchemaTooNew,
        },
{
    if db_version > NEWEST_DB_VERSION {
        Result::Err(LifecycleError::SchemaTooNew)
    } else {
        Result::Ok(NEWEST_DB_VERSION - db_version)
    }
}

} // verus!
