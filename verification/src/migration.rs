//! The ClickHouse migration that adds the `canonical_hash` column to
//! `ConfigSnapshot`. The checks and the statement run against the database
//! elsewhere; the decisions and the statements' text are here.

use vstd::prelude::*;

verus! {

/// The error a migration reports when it cannot run.
#[derive(Debug, PartialEq, Eq)]
pub struct ClickHouseMigrationError {
    pub id: String,
    pub message: String,
}

/// Adds a `canonical_hash UInt256 DEFAULT 0` column to `ConfigSnapshot`.
/// Existing rows get `0`, the "needs backfill" sentinel; the legacy `hash`
/// column is left as it is.
pub struct Migration0054 {
    /// The `ON CLUSTER ...` clause of the connection, empty when there is none.
    pub on_cluster_name: String,
}

impl Migration0054 {
    /// Whether the migration should run, given whether the column exists.
    pub open spec fn spec_should_apply(has_canonical_hash_column: bool) -> bool {
        !has_canonical_hash_column
    }

    /// Whether the migration has succeeded, given what `should_apply` says now.
    pub open spec fn spec_has_succeeded(should_apply: bool) -> bool {
        !should_apply
    }

    /// The migration's id.
    pub fn migration_id(&self) -> (id: &'static str)
        ensures
            id@ == "0054"@,
    {
        "0054"
    }

    /// The table that the migration changes.
    pub fn table_name(&self) -> (name: &'static str)
        ensures
            name@ == "ConfigSnapshot"@,
    {
        "ConfigSnapshot"
    }

    /// The column that the migration adds.
    pub fn column_name(&self) -> (name: &'static str)
        ensures
            name@ == "canonical_hash"@,
    {
        "canonical_hash"
    }

    /// The migration can run only where the `ConfigSnapshot` table exists.
    pub fn can_apply(&self, config_snapshot_table_exists: bool) -> (res: Result<(), ClickHouseMigrationError>)
        ensures
            res is Ok <==> config_snapshot_table_exists,
            res matches Err(e) ==> e.id@ == "0054"@ && e.message@
                == "`ConfigSnapshot` table does not exist"@,
    {
        if !config_snapshot_table_exists {
            return Err(
                ClickHouseMigrationError {
                    id: String::from_str("0054"),
                    message: String::from_str("`ConfigSnapshot` table does not exist"),
                },
            );
        }
        Ok(())
    }

    /// The migration should run while the `canonical_hash` column is missing.
    pub fn should_apply(&self, has_canonical_hash_column: bool) -> (b: bool)
        ensures
            b == Self::spec_should_apply(has_canonical_hash_column),
    {
        !has_canonical_hash_column
    }

    /// The statement that adds the column.
    pub fn apply_query(&self) -> (q: String)
        ensures
            q@ == "ALTER TABLE ConfigSnapshot"@ + self.on_cluster_name@
                + " ADD COLUMN IF NOT EXISTS canonical_hash UInt256 DEFAULT 0"@,
    {
        let mut q = String::from_str("ALTER TABLE ConfigSnapshot");
        q.append(self.on_cluster_name.as_str());
        q.append(" ADD COLUMN IF NOT EXISTS canonical_hash UInt256 DEFAULT 0");
        q
    }

    /// How to undo the migration by hand.
    pub fn rollback_instructions(&self) -> (s: String)
        ensures
            s@ == "/* drop the canonical_hash column added by migration 0054 */\nALTER TABLE ConfigSnapshot DROP COLUMN IF EXISTS canonical_hash;"@,
    {
        String::from_str(
            "/* drop the canonical_hash column added by migration 0054 */\nALTER TABLE ConfigSnapshot DROP COLUMN IF EXISTS canonical_hash;",
        )
    }

    /// The migration has succeeded when it should no longer run, that is when
    /// the column exists.
    pub fn has_succeeded(&self, should_apply: bool) -> (b: bool)
        ensures
            b == Self::spec_has_succeeded(should_apply),
    {
        !should_apply
    }
}

/// The migration counts as succeeded exactly when the column exists.
pub proof fn law_migration_succeeded_iff_column_exists(has_canonical_hash_column: bool)
    ensures
        Migration0054::spec_has_succeeded(Migration0054::spec_should_apply(has_canonical_hash_column))
            == has_canonical_hash_column,
{
}

} // verus!
