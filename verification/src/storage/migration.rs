//! Rows of the migration ledger.

use vstd::prelude::*;

verus! {

/// Version of the storage migration.
pub const STORAGE_MIGRATION_VERSION: i64 = 1;

/// Checksum recorded with the storage migration.
pub const STORAGE_MIGRATION_CHECKSUM: &'static str = "storage-v1-r1-ledger";

/// A migration ledger row, without sensitive data.
#[derive(Debug)]
pub struct MigrationRecord {
    pub module: String,
    pub version: i64,
    pub checksum: String,
    pub status: String,
    pub applied_at: Option<String>,
    pub error: Option<String>,
}

} // verus!
