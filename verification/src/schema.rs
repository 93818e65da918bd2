//! Schema versions of the controller's and the agents' databases.

use vstd::prelude::*;
use vstd::string::StringExecFns;
use crate::num::{dec, parse_u32, parse_u32_str, u32_to_dec};

verus! {

/// The schema version this build writes.
pub const SCHEMA_VERSION: u32 = 1;

/// The schema version a stored value names; the error quotes the value.
pub fn parse_schema_version(val: &str) -> (r: Result<u32, String>)
    ensures
        match r {
            Ok(v) => parse_u32(val@) == Some(v),
            Err(m) => parse_u32(val@) is None && m@ == "invalid schema_version: "@ + val@,
        },
{
    match parse_u32_str(val) {
        Some(v) => Ok(v),
        None => Err(String::from_str("invalid schema_version: ").concat(val)),
    }
}

/// What opening a database at a stored schema version must do.
pub struct Migration {
    /// Create the version 1 tables.
    pub create_v1: bool,
    /// Report that the database was migrated.
    pub announce: bool,
}

/// The message refusing a database written by a newer build; `what`
/// names the database.
pub open spec fn newer_schema_msg(what: Seq<char>, current: u32) -> Seq<char> {
    what + " schema v"@ + dec(current as nat) + " is newer than this binary (v1); upgrade TTstack first"@
}

/// The migration from the stored version `current` (0 for a fresh
/// database) to this build's version; a newer version is refused.
pub fn plan_migration(current: u32, what: &str) -> (r: Result<Migration, String>)
    ensures
        match r {
            Ok(m) => current <= SCHEMA_VERSION && m.create_v1 == (current < 1) && m.announce == (
            current < SCHEMA_VERSION),
            Err(msg) => current > SCHEMA_VERSION && msg@ == newer_schema_msg(what@, current),
        },
{
    if current > SCHEMA_VERSION {
        return Err(
            String::from_str(what).concat(" schema v").concat(u32_to_dec(current).as_str()).concat(
                " is newer than this binary (v1); upgrade TTstack first",
            ),
        );
    }
    Ok(Migration { create_v1: current < 1, announce: current < SCHEMA_VERSION })
}

} // verus!
