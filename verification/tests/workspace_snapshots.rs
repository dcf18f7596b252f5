use nimora_core::error::SqlitePersistenceError;
use nimora_core::workspace_snapshots::{
    append_snapshot, create_snapshot, latest_index, latest_snapshot, validate_record,
    StoredWorkspaceSnapshot, WorkspaceSnapshotRow, DUPLICATE_FINGERPRINT,
    STORED_WORKSPACE_SNAPSHOT_SPEC,
};

fn snapshot(
    session_id: u128,
    root: &str,
    revision: u64,
    parent: Option<String>,
    contents: &str,
) -> StoredWorkspaceSnapshot {
    StoredWorkspaceSnapshot::new(
        session_id,
        root,
        revision,
        parent,
        format!("{}:{}", revision, contents),
        revision,
    )
    .expect("snapshot")
}

#[test]
fn persists_monotonic_snapshot_chain_and_rejects_stale_append() {
    let mut rows: Vec<WorkspaceSnapshotRow> = Vec::new();
    let session_id = 0x0190_0000_0000_7000_8000_0000_0000_0001_u128;
    let root = "a".repeat(64);
    let first = snapshot(session_id, &root, 1, None, "one");
    create_snapshot(&mut rows, first.clone()).expect("create");
    let second = snapshot(session_id, &root, 2, Some(first.fingerprint.clone()), "two");
    append_snapshot(&mut rows, second.clone(), 1, &first.fingerprint).expect("append");
    assert_eq!(latest_snapshot(&rows, session_id).expect("latest"), Some(second.clone()));
    assert!(matches!(
        append_snapshot(&mut rows, second.clone(), 1, &first.fingerprint),
        Err(SqlitePersistenceError::WorkspaceSnapshotConflict | SqlitePersistenceError::Sqlite(_))
    ));
}

#[test]
fn root_fingerprints_are_sixty_four_hex_digits() {
    assert!(StoredWorkspaceSnapshot::new(1, &"A0".repeat(32), 1, None, "f".to_owned(), 1).is_ok());
    assert_eq!(
        StoredWorkspaceSnapshot::new(1, &"a".repeat(63), 1, None, "f".to_owned(), 1),
        Err(SqlitePersistenceError::InvalidWorkspaceSnapshot)
    );
    assert_eq!(
        StoredWorkspaceSnapshot::new(1, &"g".repeat(64), 1, None, "f".to_owned(), 1),
        Err(SqlitePersistenceError::InvalidWorkspaceSnapshot)
    );
    let mut record = snapshot(1, &"b".repeat(64), 1, None, "x");
    assert_eq!(record.spec, STORED_WORKSPACE_SNAPSHOT_SPEC);
    assert_eq!(validate_record(&record), Ok(()));
    record.spec = "nimora.stored-workspace-snapshot/2".to_owned();
    assert_eq!(validate_record(&record), Err(SqlitePersistenceError::InvalidWorkspaceSnapshot));
}

#[test]
fn create_accepts_only_a_first_revision_once() {
    let root = "c".repeat(64);
    let mut rows: Vec<WorkspaceSnapshotRow> = Vec::new();
    let second = snapshot(7, &root, 2, None, "two");
    assert_eq!(
        create_snapshot(&mut rows, second),
        Err(SqlitePersistenceError::InvalidWorkspaceSnapshot)
    );
    let with_parent = snapshot(7, &root, 1, Some("p".to_owned()), "one");
    assert_eq!(
        create_snapshot(&mut rows, with_parent),
        Err(SqlitePersistenceError::InvalidWorkspaceSnapshot)
    );
    let first = snapshot(7, &root, 1, None, "one");
    assert_eq!(create_snapshot(&mut rows, first.clone()), Ok(()));
    assert_eq!(rows.len(), 1);
    assert_eq!(rows[0].revision, 1);
    assert_eq!(rows[0].schema_version, 1);
    let again = snapshot(7, &root, 1, None, "other");
    assert_eq!(
        create_snapshot(&mut rows, again),
        Err(SqlitePersistenceError::WorkspaceSnapshotConflict)
    );
    let same_fingerprint = StoredWorkspaceSnapshot::new(8, &root, 1, None, first.fingerprint.clone(), 1)
        .expect("record");
    assert_eq!(
        create_snapshot(&mut rows, same_fingerprint),
        Err(SqlitePersistenceError::WorkspaceSnapshotConflict)
    );
    assert_eq!(rows.len(), 1);
}

#[test]
fn append_checks_the_chain_and_the_root() {
    let root = "d".repeat(64);
    let mut rows: Vec<WorkspaceSnapshotRow> = Vec::new();
    let first = snapshot(9, &root, 1, None, "one");
    let second = snapshot(9, &root, 2, Some(first.fingerprint.clone()), "two");
    assert_eq!(
        append_snapshot(&mut rows, second.clone(), 1, &first.fingerprint),
        Err(SqlitePersistenceError::WorkspaceSnapshotConflict)
    );
    create_snapshot(&mut rows, first.clone()).expect("create");
    assert_eq!(
        append_snapshot(&mut rows, second.clone(), 2, &first.fingerprint),
        Err(SqlitePersistenceError::InvalidWorkspaceSnapshot)
    );
    assert_eq!(
        append_snapshot(&mut rows, second.clone(), 1, "elsewhere"),
        Err(SqlitePersistenceError::InvalidWorkspaceSnapshot)
    );
    let moved = snapshot(9, &"e".repeat(64), 2, Some(first.fingerprint.clone()), "two");
    assert_eq!(
        append_snapshot(&mut rows, moved, 1, &first.fingerprint),
        Err(SqlitePersistenceError::WorkspaceSnapshotConflict)
    );
    let reused = StoredWorkspaceSnapshot::new(
        9,
        &root,
        2,
        Some(first.fingerprint.clone()),
        first.fingerprint.clone(),
        2,
    )
    .expect("record");
    match append_snapshot(&mut rows, reused, 1, &first.fingerprint) {
        Err(SqlitePersistenceError::Sqlite(message)) => assert_eq!(message, DUPLICATE_FINGERPRINT),
        other => panic!("unexpected {:?}", other),
    }
    assert_eq!(rows.len(), 1);
    append_snapshot(&mut rows, second, 1, &first.fingerprint).expect("append");
    assert_eq!(rows.len(), 2);
    assert_eq!(latest_index(&rows, 9), Some(1));
    assert_eq!(latest_index(&rows, 10), None);
}

#[test]
fn latest_revalidates_stored_columns() {
    let root = "f".repeat(64);
    let mut rows: Vec<WorkspaceSnapshotRow> = Vec::new();
    assert_eq!(latest_snapshot(&rows, 3), Ok(None));
    create_snapshot(&mut rows, snapshot(3, &root, 1, None, "one")).expect("create");
    rows[0].schema_version = 2;
    assert_eq!(
        latest_snapshot(&rows, 3),
        Err(SqlitePersistenceError::UnsupportedWorkspaceSnapshotVersion(2))
    );
    rows[0].schema_version = 1;
    rows[0].snapshot_fingerprint = "tampered".to_owned();
    assert_eq!(latest_snapshot(&rows, 3), Err(SqlitePersistenceError::InvalidWorkspaceSnapshot));
}
