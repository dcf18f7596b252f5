use nimora_core::error::SqlitePersistenceError;
use nimora_core::outbox::{OutboxEntry, OutboxStatus};
use nimora_core::singletons::{
    check_payload_version, load_snapshot, save_snapshot, SingletonSnapshot, SnapshotKind,
    DUPLICATE_EVENT, SNAPSHOT_VERSION,
};

#[test]
fn round_trips_a_versioned_pet_snapshot() {
    let mut slot: Option<SingletonSnapshot> = None;
    let mut outbox: Vec<OutboxEntry> = Vec::new();
    let payload = "{\"schemaVersion\":1,\"pet\":{\"name\":\"Aster\",\"state\":\"sleeping\"}}".to_owned();
    save_snapshot(&mut slot, &mut outbox, payload.clone(), None, "2024-05-01 12:00:00").expect("save");
    let restored = load_snapshot(&slot, SnapshotKind::Pet).expect("load").expect("snapshot");
    assert_eq!(restored, payload);
    assert_eq!(check_payload_version(SNAPSHOT_VERSION, 1), Ok(()));
    assert!(outbox.is_empty());
}

#[test]
fn rejects_future_snapshot_versions() {
    let slot = Some(SingletonSnapshot { schema_version: 99, payload: "{}".to_owned() });
    assert!(matches!(
        load_snapshot(&slot, SnapshotKind::Pet),
        Err(SqlitePersistenceError::UnsupportedPetSnapshotVersion(99))
    ));
    assert_eq!(
        load_snapshot(&slot, SnapshotKind::Profile),
        Err(SqlitePersistenceError::UnsupportedProfileSnapshotVersion(99))
    );
    assert_eq!(
        check_payload_version(1, 2),
        Err(SqlitePersistenceError::SnapshotVersionMismatch)
    );
    assert_eq!(load_snapshot(&None, SnapshotKind::Pet), Ok(None));
}

#[test]
fn duplicate_event_rolls_back_snapshot_update() {
    let mut slot: Option<SingletonSnapshot> = None;
    let mut outbox: Vec<OutboxEntry> = Vec::new();
    let event = "0190f0c4-0000-7000-8000-000000000001";
    save_snapshot(&mut slot, &mut outbox, "{\"state\":\"idle\"}".to_owned(), Some(event), "2024-05-01 12:00:00")
        .expect("initial save");
    assert_eq!(outbox.len(), 1);
    assert_eq!(outbox[0].status, OutboxStatus::Pending);
    assert_eq!(outbox[0].delivery_attempts, 0);
    assert_eq!(outbox[0].created_at, "2024-05-01 12:00:00");
    match save_snapshot(&mut slot, &mut outbox, "{\"state\":\"sleeping\"}".to_owned(), Some(event), "2024-05-01 12:00:00") {
        Err(SqlitePersistenceError::Sqlite(message)) => assert_eq!(message, DUPLICATE_EVENT),
        other => panic!("unexpected {:?}", other),
    }
    assert_eq!(
        load_snapshot(&slot, SnapshotKind::Pet).expect("load").expect("snapshot"),
        "{\"state\":\"idle\"}"
    );
    assert_eq!(outbox.len(), 1);
}
