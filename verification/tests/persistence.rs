use nimora_core::backup::{
    backup_id_for, backup_records, is_backup_due, next_backup_id, is_backup_id, order_newest_first, parse_backup_id, prune_backups,
    validate_restore_request, BackupCoordinator, BackupPolicy, BackupRecord, ListedFile,
    PendingRestore, RESTORE_REQUEST_SPEC,
};
use nimora_core::error::SqlitePersistenceError;
use nimora_core::hex::{decode_hex_bytes, encode_hex};
use nimora_core::journals::{
    automation_agent_status_name, parse_automation_agent_status, parse_cost_status,
    parse_reconciliation_reason, reconciliation_reason_name, valid_transition,
    AutomationAgentJournalStatus, AutomationCostReconciliationReason, AutomationCostStatus,
};
use nimora_core::records::{
    ensure_version, from_i64, parse_u64_text, to_i64, validate_automation_id, validate_consumer,
    validate_skill_identity, version_tuple, ContextCachePolicy,
};

fn record(id: &str, created: u64) -> BackupRecord {
    BackupRecord { id: id.into(), created_at_ms: created, bytes: 10 }
}

#[test]
fn restore_rejects_unknown_and_traversal_identifiers() {
    for id in ["../runtime.sqlite3", "runtime-invalid.sqlite3"] {
        let request = PendingRestore { spec: RESTORE_REQUEST_SPEC.into(), backup_id: id.into() };
        assert!(matches!(
            validate_restore_request(&request),
            Err(SqlitePersistenceError::InvalidBackupRequest)
        ));
    }
    let ok = PendingRestore { spec: RESTORE_REQUEST_SPEC.into(), backup_id: "runtime-42.sqlite3".into() };
    assert_eq!(validate_restore_request(&ok), Ok(()));
    let wrong_spec = PendingRestore { spec: "nimora.restore-request/2".into(), backup_id: "runtime-42.sqlite3".into() };
    assert_eq!(validate_restore_request(&wrong_spec), Err(SqlitePersistenceError::InvalidBackupRequest));
}

#[test]
fn backup_ids_round_trip() {
    assert_eq!(backup_id_for(1_700_000_000_000), "runtime-1700000000000.sqlite3");
    assert_eq!(parse_backup_id("runtime-1700000000000.sqlite3"), Some(1_700_000_000_000));
    assert_eq!(parse_backup_id(&backup_id_for(0)), Some(0));
    assert_eq!(parse_backup_id(&backup_id_for(u64::MAX)), Some(u64::MAX));
    assert_eq!(parse_backup_id("runtime-+7.sqlite3"), Some(7));
    assert_eq!(parse_backup_id("runtime-.sqlite3"), None);
    assert_eq!(parse_backup_id("runtime-18446744073709551616.sqlite3"), None);
    assert!(!is_backup_id("runtime-1.sqlite"));
    assert!(is_backup_id("runtime-1.sqlite3"));
}

#[test]
fn backups_are_due_after_the_interval() {
    assert!(is_backup_due(None, 0, 10));
    assert!(!is_backup_due(Some(100), 109, 10));
    assert!(is_backup_due(Some(100), 110, 10));
    assert!(!is_backup_due(Some(100), 50, 10));
    assert_eq!(BackupPolicy::default().interval_ms, 21_600_000);
    assert_eq!(BackupPolicy::default().retain, 12);
}

#[test]
fn retention_keeps_newest_and_pending() {
    let newest = order_newest_first(vec![
        record("b", 2),
        record("a", 1),
        record("d", 4),
        record("c", 3),
        record("c2", 3),
    ]);
    let ids: Vec<&str> = newest.iter().map(|r| r.id.as_str()).collect();
    assert_eq!(ids, vec!["d", "c", "c2", "b", "a"]);
    assert_eq!(prune_backups(&newest, 2, None), vec!["c2".to_owned(), "b".into(), "a".into()]);
    assert_eq!(prune_backups(&newest, 2, Some("b")), vec!["c2".to_owned(), "a".into()]);
    assert_eq!(prune_backups(&newest, 0, None).len(), 4);
}

#[test]
fn coordinator_health_orders_and_schedules() {
    let coordinator = BackupCoordinator::new(
        "runtime.sqlite3".into(),
        "backups".into(),
        BackupPolicy { interval_ms: 100, retain: 1 },
    );
    let health = coordinator.health(vec![record("a", 10), record("b", 50)], None, 120);
    assert_eq!(health.latest, Some(record("b", 50)));
    assert!(!health.due);
    assert!(!coordinator.create_if_due(&health));
    let later = coordinator.health(vec![record("a", 10), record("b", 50)], Some("a".into()), 150);
    assert!(later.due);
    assert!(coordinator.prune_plan(&later.available, Some("a")).is_empty());
    assert_eq!(coordinator.prune_plan(&later.available, None), vec!["a".to_owned()]);
}

fn listed(name: &str, is_file: bool, bytes: u64) -> ListedFile {
    ListedFile { name: name.into(), is_file, bytes }
}

#[test]
fn backup_listing_keeps_only_backup_files() {
    let files = vec![
        listed("runtime-10.sqlite3", true, 5),
        listed("notes.txt", true, 1),
        listed("runtime-20.sqlite3", false, 0),
        listed(".runtime-30.sqlite3.partial", true, 3),
        listed("runtime-40.sqlite3", true, 7),
        listed("restore-pending.json", true, 2),
    ];
    let records = backup_records(&files);
    assert_eq!(
        records,
        vec![
            BackupRecord { id: "runtime-10.sqlite3".into(), created_at_ms: 10, bytes: 5 },
            BackupRecord { id: "runtime-40.sqlite3".into(), created_at_ms: 40, bytes: 7 },
        ]
    );
    let coordinator = BackupCoordinator::new("db".into(), "backups".into(), BackupPolicy::default());
    let health = coordinator.health(records, None, 41);
    assert_eq!(health.latest.map(|r| r.id), Some("runtime-40.sqlite3".to_owned()));
    assert_eq!(health.available.len(), 2);
    assert!(!health.due);
    assert!(backup_records(&Vec::new()).is_empty());
    let listed = coordinator.health_of_listing(&files, Some("runtime-10.sqlite3".into()), 21_600_040);
    assert_eq!(listed.latest.map(|r| r.created_at_ms), Some(40));
    assert!(listed.due);
    assert_eq!(listed.pending_restore.as_deref(), Some("runtime-10.sqlite3"));
}

#[test]
fn new_backups_skip_names_already_taken() {
    let taken = vec!["runtime-100.sqlite3".to_owned(), "runtime-101.sqlite3".to_owned(), "notes".to_owned()];
    assert_eq!(next_backup_id(100, &taken), (102, "runtime-102.sqlite3".to_owned()));
    assert_eq!(next_backup_id(99, &taken), (99, "runtime-99.sqlite3".to_owned()));
    assert_eq!(next_backup_id(101, &taken), (102, "runtime-102.sqlite3".to_owned()));
    assert_eq!(next_backup_id(7, &Vec::new()), (7, "runtime-7.sqlite3".to_owned()));
}

#[test]
fn retention_keeps_exactly_the_newest_and_the_pending_backup() {
    let newest = vec![record("d", 40), record("c", 30), record("b", 20), record("a", 10)];
    assert_eq!(prune_backups(&newest, 2, None), vec!["b".to_owned(), "a".to_owned()]);
    assert_eq!(prune_backups(&newest, 2, Some("a")), vec!["b".to_owned()]);
    assert_eq!(prune_backups(&newest, 0, None), vec!["c".to_owned(), "b".to_owned(), "a".to_owned()]);
}

#[test]
fn integer_conversions_are_checked() {
    assert_eq!(to_i64(5, SqlitePersistenceError::InvalidAgentHistory), Ok(5));
    assert_eq!(to_i64(u64::MAX, SqlitePersistenceError::InvalidAgentHistory), Err(SqlitePersistenceError::InvalidAgentHistory));
    assert_eq!(from_i64(-1, SqlitePersistenceError::InvalidAgentHistory), Err(SqlitePersistenceError::InvalidAgentHistory));
    assert_eq!(from_i64(i64::MAX, SqlitePersistenceError::InvalidAgentHistory), Ok(i64::MAX as u64));
    assert_eq!(ensure_version(1), Ok(()));
    assert_eq!(ensure_version(2), Err(SqlitePersistenceError::UnsupportedAgentGoalVersion(2)));
}

#[test]
fn identifiers_and_policies_are_bounded() {
    assert!(validate_consumer("host.ui-1").is_ok());
    assert_eq!(validate_consumer("host ui"), Err(SqlitePersistenceError::InvalidOutboxRequest));
    assert_eq!(validate_consumer(""), Err(SqlitePersistenceError::InvalidOutboxRequest));
    assert!(validate_skill_identity("skill_notes.v2").is_ok());
    assert_eq!(validate_skill_identity(&"s".repeat(129)), Err(SqlitePersistenceError::InvalidSkillState));
    assert!(validate_automation_id("automation focus").is_ok());
    assert!(validate_automation_id("automation\nfocus").is_err());
    assert!(ContextCachePolicy::new(1, 1_024).is_ok());
    assert!(ContextCachePolicy::new(0, 1_024).is_err());
    assert!(ContextCachePolicy::new(4_097, 1_024).is_err());
    assert!(ContextCachePolicy::new(10, 1_023).is_err());
    assert!(ContextCachePolicy::new(10, 268_435_457).is_err());
}

#[test]
fn versions_compare_numerically() {
    assert_eq!(version_tuple("1.10.3"), (1, 10, 3));
    assert!(version_tuple("1.10.0") > version_tuple("1.9.9"));
    assert_eq!(version_tuple("2.x"), (2, u64::MAX, u64::MAX));
    assert_eq!(parse_u64_text(b"+12"), Some(12));
    assert_eq!(parse_u64_text(b"-1"), None);
    assert_eq!(parse_u64_text(b""), None);
}

#[test]
fn status_names_round_trip() {
    for status in [
        AutomationAgentJournalStatus::Submitted,
        AutomationAgentJournalStatus::WaitingForConfirmation,
        AutomationAgentJournalStatus::Completed,
        AutomationAgentJournalStatus::Failed,
        AutomationAgentJournalStatus::Cancelled,
        AutomationAgentJournalStatus::Interrupted,
    ] {
        assert_eq!(parse_automation_agent_status(automation_agent_status_name(status)), Some(status));
    }
    assert_eq!(parse_cost_status("settled"), Some(AutomationCostStatus::Settled));
    assert_eq!(parse_cost_status("Settled"), None);
    assert_eq!(
        reconciliation_reason_name(AutomationCostReconciliationReason::OperatorConservativeEstimate),
        "operator_conservative_estimate"
    );
    assert_eq!(parse_reconciliation_reason("billing_export"), Some(AutomationCostReconciliationReason::BillingExport));
}

#[test]
fn terminal_agent_states_are_final() {
    let all = [
        AutomationAgentJournalStatus::Submitted,
        AutomationAgentJournalStatus::WaitingForConfirmation,
        AutomationAgentJournalStatus::Completed,
        AutomationAgentJournalStatus::Failed,
        AutomationAgentJournalStatus::Cancelled,
        AutomationAgentJournalStatus::Interrupted,
    ];
    assert!(valid_transition(all[0], all[1]));
    assert!(!valid_transition(all[0], all[0]));
    assert!(!valid_transition(all[1], all[1]));
    for terminal in &all[2..] {
        let terminal = *terminal;
        for next in all {
            assert!(!valid_transition(terminal, next));
        }
    }
}

#[test]
fn hex_round_trips_lowercase_only() {
    let bytes = [0u8, 1, 0x7f, 0x80, 0xab, 0xff];
    let text = encode_hex(&bytes);
    assert_eq!(text, "00017f80abff");
    assert_eq!(decode_hex_bytes(&text), Ok(bytes.to_vec()));
    assert_eq!(decode_hex_bytes("0"), Err(SqlitePersistenceError::AuthorizationGrantEncryption));
    assert_eq!(decode_hex_bytes("AB"), Err(SqlitePersistenceError::AuthorizationGrantEncryption));
    assert_eq!(decode_hex_bytes(""), Ok(Vec::new()));
}

#[test]
fn creates_verified_backups_and_enforces_retention() {
    let coordinator = BackupCoordinator::new("db".into(), "backups".into(), BackupPolicy { interval_ms: 0, retain: 2 });
    let mut files: Vec<ListedFile> = Vec::new();
    let first = coordinator.create_backup(&mut files, None, 1_000, 64);
    assert_eq!(first.id, "runtime-1000.sqlite3");
    coordinator.create_backup(&mut files, None, 1_000, 64);
    coordinator.create_backup(&mut files, None, 1_000, 64);
    let health = coordinator.health_of_listing(&files, None, 1_002);
    assert_eq!(health.available.len(), 2);
    assert_eq!(health.latest.map(|r| r.id), Some("runtime-1002.sqlite3".to_owned()));
    assert!(health.due);
    assert!(files.iter().all(|f| f.name != "runtime-1000.sqlite3"));
}

#[test]
fn newly_created_backup_is_not_due_again() {
    let coordinator = BackupCoordinator::new("db".into(), "backups".into(), BackupPolicy::default());
    let mut files: Vec<ListedFile> = Vec::new();
    coordinator.create_backup(&mut files, None, 5_000, 64);
    let before = files.clone();
    assert_eq!(coordinator.create_backup_if_due(&mut files, None, 5_001, 64), None);
    assert_eq!(files, before);
    assert!(coordinator.create_backup_if_due(&mut files, None, 5_000 + 21_600_000, 64).is_some());
    assert_eq!(files.len(), 2);
}

#[test]
fn retention_preserves_backup_selected_for_restore() {
    let coordinator = BackupCoordinator::new("db".into(), "backups".into(), BackupPolicy { interval_ms: 0, retain: 1 });
    let mut files: Vec<ListedFile> = Vec::new();
    let selected = coordinator.create_backup(&mut files, None, 2_000, 64);
    files.push(ListedFile { name: "restore-pending.json".into(), is_file: true, bytes: 80 });
    coordinator.create_backup(&mut files, Some(&selected.id), 2_000, 64);
    coordinator.create_backup(&mut files, Some(&selected.id), 2_000, 64);
    let health = coordinator.health_of_listing(&files, Some(selected.id.clone()), 2_003);
    assert_eq!(health.pending_restore, Some(selected.id.clone()));
    assert!(health.available.iter().any(|record| record.id == selected.id));
    assert_eq!(health.available.len(), 2);
    assert!(files.iter().any(|f| f.name == "restore-pending.json"));
}
