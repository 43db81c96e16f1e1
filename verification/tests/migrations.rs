//! The migration batches run against an in-memory SQLite database.

use design_extractor::storage::migrations::{pending_migration_batches, schema_migrations, INITIAL_MIGRATION};
use rusqlite::Connection;

fn user_version(connection: &Connection) -> i64 {
    connection.query_row("PRAGMA user_version", [], |row| row.get(0)).unwrap()
}

fn run_migrations(connection: &Connection, migrations: &[&str]) -> rusqlite::Result<()> {
    let migrations: Vec<String> = migrations.iter().map(|m| (*m).to_owned()).collect();
    for batch in pending_migration_batches(user_version(connection), &migrations) {
        connection.execute_batch(&batch)?;
    }
    Ok(())
}

fn run(connection: &Connection) -> rusqlite::Result<()> {
    let migrations = schema_migrations();
    let refs: Vec<&str> = migrations.iter().map(|m| m.as_str()).collect();
    run_migrations(connection, &refs)
}

#[test]
fn fresh_database_reaches_latest_version() {
    let connection = Connection::open_in_memory().unwrap();

    run(&connection).unwrap();

    assert_eq!(user_version(&connection), schema_migrations().len() as i64);
    let tables: i64 = connection
        .query_row(
            "SELECT COUNT(*) FROM sqlite_master WHERE type = 'table' AND name = 'projects'",
            [],
            |row| row.get(0),
        )
        .unwrap();
    assert_eq!(tables, 1);
}

#[test]
fn run_is_idempotent() {
    let connection = Connection::open_in_memory().unwrap();

    run(&connection).unwrap();
    run(&connection).unwrap();

    assert_eq!(user_version(&connection), schema_migrations().len() as i64);
}

#[test]
fn pre_versioning_database_upgrades_in_place() {
    let connection = Connection::open_in_memory().unwrap();
    // Databases created before versioning have the schema but user_version 0.
    connection.execute_batch(INITIAL_MIGRATION).unwrap();
    assert_eq!(user_version(&connection), 0);

    run(&connection).unwrap();

    assert_eq!(user_version(&connection), schema_migrations().len() as i64);
}

#[test]
fn later_migrations_apply_exactly_once() {
    let connection = Connection::open_in_memory().unwrap();
    let migrations = ["CREATE TABLE items (id INTEGER PRIMARY KEY);", "INSERT INTO items (id) VALUES (1);"];

    run_migrations(&connection, &migrations).unwrap();
    run_migrations(&connection, &migrations).unwrap();

    assert_eq!(user_version(&connection), 2);
    let rows: i64 = connection.query_row("SELECT COUNT(*) FROM items", [], |row| row.get(0)).unwrap();
    assert_eq!(rows, 1);
}

#[test]
fn failed_migration_leaves_version_untouched() {
    let connection = Connection::open_in_memory().unwrap();
    let migrations = ["CREATE TABLE items (id INTEGER PRIMARY KEY);", "THIS IS NOT SQL;"];

    let error = run_migrations(&connection, &migrations);

    assert!(error.is_err());
    assert_eq!(user_version(&connection), 1);
}

#[test]
fn batches_record_their_position_and_skip_applied_migrations() {
    let migrations = vec!["A;".to_owned(), "B;".to_owned(), "C;".to_owned()];

    assert_eq!(
        pending_migration_batches(1, &migrations),
        vec![
            "BEGIN IMMEDIATE;\nB;\nPRAGMA user_version = 2;\nCOMMIT;".to_owned(),
            "BEGIN IMMEDIATE;\nC;\nPRAGMA user_version = 3;\nCOMMIT;".to_owned(),
        ]
    );
    assert_eq!(pending_migration_batches(3, &migrations).len(), 0);
    assert_eq!(pending_migration_batches(7, &migrations).len(), 0);
    assert_eq!(pending_migration_batches(-1, &migrations).len(), 3);
}
