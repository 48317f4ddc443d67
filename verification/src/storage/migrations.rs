//! The version of the voting schema, and how it is brought up to date.
//!
//! The version is tracked in a table of its own, so that the voting schema can
//! share a database with a host wallet without claiming its version pragma.
//! The schema is applied additively and nothing is ever dropped.

use vstd::prelude::*;

use crate::text::decimal;
use crate::types::{Fault, Message, VotingError};

verus! {

/// Current version of the voting schema.
pub const CURRENT_VERSION: u32 = 13;

/// What brings a database up to date.
#[derive(Clone, Copy, Debug, PartialEq, Eq, Structural)]
pub enum Migration {
    /// The schema is created, and its version is recorded.
    Create,
    /// The schema is applied again, and its version is raised.
    Upgrade,
    /// The schema is current.
    Nothing,
}

/// The version of a database after a migration.
pub open spec fn migrated_version(version: Option<i64>, migration: Migration) -> Option<i64> {
    match migration {
        Migration::Create | Migration::Upgrade => Some(CURRENT_VERSION as i64),
        Migration::Nothing => version,
    }
}

/// The migration of a database with a version, if it has one. A version is
/// compared by its low 32 bits.
pub open spec fn migration_outcome(version: Option<i64>) -> Result<Migration, Fault> {
    match version {
        None => Ok(Migration::Create),
        Some(v) => if v as u32 > CURRENT_VERSION {
            Err(
                Fault::Internal(
                    "unsupported newer voting schema version: expected at most "@ + decimal(
                        CURRENT_VERSION as int,
                    ) + ", got "@ + decimal(v as int),
                ),
            )
        } else if (v as u32) < CURRENT_VERSION {
            Ok(Migration::Upgrade)
        } else {
            Ok(Migration::Nothing)
        },
    }
}

/// Chooses the migration of a database by its version.
pub fn migrate(version: Option<i64>) -> (r: Result<Migration, VotingError>)
    ensures
        match migration_outcome(version) {
            Ok(migration) => r matches Ok(chosen) && chosen == migration,
            Err(fault) => r matches Err(error) && error@ == fault,
        },
{
    match version {
        None => Ok(Migration::Create),
        Some(v) => {
            let stored: u32 = v as u32;
            if stored > CURRENT_VERSION {
                Err(
                    Message::new(
                        "unsupported newer voting schema version: expected at most ",
                    ).number(CURRENT_VERSION as i128).text(", got ").number(v as i128).internal(),
                )
            } else if stored < CURRENT_VERSION {
                Ok(Migration::Upgrade)
            } else {
                Ok(Migration::Nothing)
            }
        },
    }
}

/// The statement that records the version after a migration.
pub fn version_statement(migration: Migration) -> (statement: Option<String>)
    ensures
        match migration {
            Migration::Create => statement matches Some(sql) && sql@
                == "INSERT INTO voting_schema_version (version) VALUES ("@ + decimal(
                CURRENT_VERSION as int,
            ) + ")"@,
            Migration::Upgrade => statement matches Some(sql) && sql@
                == "UPDATE voting_schema_version SET version = "@ + decimal(CURRENT_VERSION as int),
            Migration::Nothing => statement is None,
        },
{
    match migration {
        Migration::Create => Some(
            Message::new("INSERT INTO voting_schema_version (version) VALUES (").number(
                CURRENT_VERSION as i128,
            ).text(")").into_text(),
        ),
        Migration::Upgrade => Some(
            Message::new("UPDATE voting_schema_version SET version = ").number(
                CURRENT_VERSION as i128,
            ).into_text(),
        ),
        Migration::Nothing => None,
    }
}

/// A database without a version is created, one with an older version is
/// brought up to date, a current one is left alone, and a newer one is refused;
/// what was migrated is current.
pub proof fn law_versions_are_compared(v: u32)
    ensures
        migration_outcome(None) == Ok::<Migration, Fault>(Migration::Create),
        v < 13 ==> migration_outcome(Some(v as i64)) == Ok::<Migration, Fault>(Migration::Upgrade),
        v == 13 ==> migration_outcome(Some(v as i64)) == Ok::<Migration, Fault>(
            Migration::Nothing,
        ),
        v > 13 ==> (migration_outcome(Some(v as i64)) matches Err(Fault::Internal(_))),
        migrated_version(None, Migration::Create) == Some(13i64),
        migrated_version(Some(v as i64), Migration::Upgrade) == Some(13i64),
        migrated_version(Some(v as i64), Migration::Nothing) == Some(v as i64),
{
}

/// Versions that agree in their low 32 bits are treated alike.
pub proof fn law_low_bits_decide(a: i64, b: i64)
    requires
        a as u32 == b as u32,
    ensures
        migration_outcome(Some(a)) is Ok <==> migration_outcome(Some(b)) is Ok,
        migration_outcome(Some(a)) is Ok ==> migration_outcome(Some(a)) == migration_outcome(
            Some(b),
        ),
{
}

/// A database that was migrated needs no further migration.
pub proof fn law_migrated_is_current(version: Option<i64>)
    requires
        migration_outcome(version) is Ok,
    ensures
        migration_outcome(migrated_version(version, migration_outcome(version)->Ok_0)) == Ok::<
            Migration,
            Fault,
        >(Migration::Nothing),
{
}

} // verus!
