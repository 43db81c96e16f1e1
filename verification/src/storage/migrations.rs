//! Schema migrations: an ordered, append-only list. `PRAGMA user_version`
//! records how many have been applied, so a database runs only the
//! migrations added after it was created, each together with the version
//! bump that records it.

use vstd::prelude::*;
use crate::text::{decimal, push_decimal, push_str};

verus! {

/// The first migration: the tables of projects, screenshots, specification
/// versions and drafts, provider configurations and exports.
pub const INITIAL_MIGRATION: &'static str = r#"
CREATE TABLE IF NOT EXISTS projects (
  id TEXT PRIMARY KEY,
  name TEXT NOT NULL,
  platform TEXT NOT NULL,
  archived_at TEXT,
  created_at TEXT NOT NULL,
  updated_at TEXT NOT NULL
);

CREATE TABLE IF NOT EXISTS screenshots (
  id TEXT PRIMARY KEY,
  project_id TEXT NOT NULL REFERENCES projects(id) ON DELETE CASCADE,
  relative_path TEXT NOT NULL,
  sha256 TEXT NOT NULL,
  media_type TEXT NOT NULL,
  width INTEGER NOT NULL,
  height INTEGER NOT NULL,
  page_name TEXT NOT NULL,
  scene TEXT NOT NULL,
  sort_order INTEGER NOT NULL,
  created_at TEXT NOT NULL
);

CREATE UNIQUE INDEX IF NOT EXISTS idx_screenshots_project_sha256
ON screenshots(project_id, sha256);

CREATE TABLE IF NOT EXISTS design_spec_versions (
  id TEXT PRIMARY KEY,
  project_id TEXT NOT NULL REFERENCES projects(id) ON DELETE CASCADE,
  spec_json TEXT NOT NULL,
  provider_id TEXT NOT NULL,
  model TEXT NOT NULL,
  created_at TEXT NOT NULL
);

CREATE TABLE IF NOT EXISTS design_spec_drafts (
  project_id TEXT PRIMARY KEY REFERENCES projects(id) ON DELETE CASCADE,
  base_version_id TEXT NOT NULL REFERENCES design_spec_versions(id),
  spec_json TEXT NOT NULL,
  updated_at TEXT NOT NULL
);

CREATE TABLE IF NOT EXISTS provider_configs (
  id TEXT PRIMARY KEY,
  name TEXT NOT NULL,
  kind TEXT NOT NULL,
  base_url TEXT NOT NULL,
  model TEXT NOT NULL,
  credential_ref TEXT NOT NULL,
  capabilities_json TEXT,
  created_at TEXT NOT NULL,
  updated_at TEXT NOT NULL
);

CREATE TABLE IF NOT EXISTS export_versions (
  id TEXT PRIMARY KEY,
  project_id TEXT NOT NULL REFERENCES projects(id) ON DELETE CASCADE,
  spec_version_id TEXT NOT NULL,
  relative_path TEXT NOT NULL,
  created_at TEXT NOT NULL
);
"#;

/// The ordered, append-only list of the schema's migrations. An entry that
/// has shipped is never edited; a change adds a new one.
pub fn schema_migrations() -> (m: Vec<String>)
    ensures
        m@.len() == 1,
        m@[0]@ == INITIAL_MIGRATION@,
{
    let mut m: Vec<String> = Vec::new();
    m.push(INITIAL_MIGRATION.to_owned());
    m
}

/// The batch that applies one migration and records the new version.
pub open spec fn migration_batch(migration: Seq<char>, version: nat) -> Seq<char> {
    "BEGIN IMMEDIATE;\n"@ + migration + "\nPRAGMA user_version = "@ + decimal(version)
        + ";\nCOMMIT;"@
}

/// How many migrations count as applied for a recorded version: a version
/// that is not a valid count counts as none.
pub open spec fn applied_count(recorded: i64) -> int {
    if 0 <= recorded && recorded <= usize::MAX {
        recorded as int
    } else {
        0
    }
}

/// The batches still to run, in order: one per migration after the applied
/// ones, each recording its position (counting from 1) as the new version.
pub fn pending_migration_batches(recorded: i64, migrations: &Vec<String>) -> (batches: Vec<String>)
    ensures
        batches@.len() == if applied_count(recorded) < migrations@.len() {
            migrations@.len() - applied_count(recorded)
        } else {
            0
        },
        forall|i: int|
            0 <= i < batches@.len() ==> (#[trigger] batches@[i])@ == migration_batch(
                migrations@[applied_count(recorded) + i]@,
                (applied_count(recorded) + i + 1) as nat,
            ),
{
    let start: usize = if 0 <= recorded && recorded as u64 <= usize::MAX as u64 {
        recorded as usize
    } else {
        0
    };
    assert(start == applied_count(recorded));
    let mut batches: Vec<String> = Vec::new();
    let mut i: usize = start;
    while i < migrations.len()
        invariant
            start == applied_count(recorded),
            i >= start,
            i == start || i <= migrations@.len(),
            batches@.len() == i - start,
            forall|k: int|
                0 <= k < batches@.len() ==> (#[trigger] batches@[k])@ == migration_batch(
                    migrations@[start + k]@,
                    (start + k + 1) as nat,
                ),
        decreases migrations@.len() - i,
    {
        let mut batch = "BEGIN IMMEDIATE;\n".to_owned();
        push_str(&mut batch, migrations[i].as_str());
        push_str(&mut batch, "\nPRAGMA user_version = ");
        push_decimal(&mut batch, (i as u64) + 1);
        push_str(&mut batch, ";\nCOMMIT;");
        assert(batch@ =~= migration_batch(migrations@[i as int]@, (i + 1) as nat));
        batches.push(batch);
        i = i + 1;
    }
    batches
}

} // verus!
