use nimora_core::error::SqlitePersistenceError;
use nimora_core::execution_history::{
    delete_all_executions, delete_execution, list_executions, save_execution,
    ExecutionHistoryRow, MAX_EXECUTION_PAGE,
};
use nimora_core::journal_entries::SkillExecutionHistoryRecord;
use nimora_core::journals::SkillExecutionHistoryStatus;

fn record(id: u128, at: u64) -> SkillExecutionHistoryRecord {
    SkillExecutionHistoryRecord::new(
        id,
        "studio.example.focus",
        SkillExecutionHistoryStatus::WaitingForApproval,
        2,
        1,
        at,
        at,
        None,
    )
    .unwrap()
}

#[test]
fn status_converges_once_and_history_is_privacy_deletable() {
    let mut history: Vec<ExecutionHistoryRow> = Vec::new();
    let id = 0x0190_0000_0000_7000_8000_0000_0000_0101_u128;
    save_execution(&mut history, &record(id, 100)).unwrap();
    let completed = SkillExecutionHistoryRecord::new(
        id,
        "studio.example.focus",
        SkillExecutionHistoryStatus::Completed,
        2,
        1,
        100,
        200,
        None,
    )
    .unwrap();
    save_execution(&mut history, &completed).unwrap();
    save_execution(
        &mut history,
        &SkillExecutionHistoryRecord {
            status: SkillExecutionHistoryStatus::Rejected,
            updated_at_ms: 300,
            ..completed.clone()
        },
    )
    .unwrap();
    assert_eq!(list_executions(&history, None, 10).unwrap(), [completed]);
    assert!(delete_execution(&mut history, id));
    assert!(list_executions(&history, None, 10).unwrap().is_empty());
}

#[test]
fn pagination_uses_stable_timestamp_and_execution_cursor() {
    let mut history: Vec<ExecutionHistoryRow> = Vec::new();
    let oldest = 0x0190_0000_0000_7000_8000_0000_0000_0201_u128;
    let newest = 0x0190_0000_0000_7000_8000_0000_0000_0202_u128;
    save_execution(&mut history, &record(oldest, 100)).unwrap();
    save_execution(&mut history, &record(newest, 200)).unwrap();
    assert_eq!(list_executions(&history, None, 1).unwrap()[0].execution_id, newest);
    assert_eq!(list_executions(&history, Some((200, newest)), 1).unwrap()[0].execution_id, oldest);
}

#[test]
fn cancelled_status_cannot_be_overwritten_by_completion() {
    let mut history: Vec<ExecutionHistoryRow> = Vec::new();
    let id = 0x0190_0000_0000_7000_8000_0000_0000_0301_u128;
    let cancelled = SkillExecutionHistoryRecord::new(
        id,
        "studio.example.focus",
        SkillExecutionHistoryStatus::Cancelled,
        1,
        1,
        100,
        200,
        None,
    )
    .unwrap();
    save_execution(&mut history, &cancelled).unwrap();
    save_execution(
        &mut history,
        &SkillExecutionHistoryRecord::new(
            id,
            "studio.example.focus",
            SkillExecutionHistoryStatus::Completed,
            1,
            1,
            100,
            300,
            None,
        )
        .unwrap(),
    )
    .unwrap();
    assert_eq!(list_executions(&history, None, 10).unwrap(), [cancelled]);
}

#[test]
fn execution_pages_and_records_are_checked() {
    let mut history: Vec<ExecutionHistoryRow> = Vec::new();
    assert_eq!(
        list_executions(&history, None, 0),
        Err(SqlitePersistenceError::InvalidSkillExecutionHistory)
    );
    assert_eq!(
        list_executions(&history, None, MAX_EXECUTION_PAGE + 1),
        Err(SqlitePersistenceError::InvalidSkillExecutionHistory)
    );
    let mut bad = record(7, 100);
    bad.updated_at_ms = 50;
    assert_eq!(
        save_execution(&mut history, &bad),
        Err(SqlitePersistenceError::InvalidSkillExecutionHistory)
    );
    save_execution(&mut history, &record(7, 100)).unwrap();
    save_execution(&mut history, &record(8, 100)).unwrap();
    history[0].schema_version = 4;
    assert_eq!(
        list_executions(&history, None, 10),
        Err(SqlitePersistenceError::UnsupportedSkillExecutionHistoryVersion(4))
    );
    assert_eq!(delete_all_executions(&mut history), 2);
}
