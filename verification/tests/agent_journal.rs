use nimora_core::agent_journal::{
    decode_row, get_by_key, get_by_task_id, list_by_run, recover_active, submit, transition,
    validate_entry, AgentJournalRow, AutomationAgentJournalEntry, AUTOMATION_AGENT_JOURNAL_SPEC,
    DUPLICATE_KEY, DUPLICATE_TASK, RESTART_ERROR,
};
use nimora_core::error::SqlitePersistenceError;
use nimora_core::journals::AutomationAgentJournalStatus;

fn entry(run_id: u128, key: &str, task_id: u128) -> AutomationAgentJournalEntry {
    AutomationAgentJournalEntry::new(run_id, key, task_id, run_id, "model:test", 100).expect("entry")
}

#[test]
fn persists_run_scoped_idempotency_and_terminal_state() {
    let mut rows: Vec<AgentJournalRow> = Vec::new();
    let run_id = 10;
    let e = entry(run_id, "once", 11);
    submit(&mut rows, e.clone()).expect("submit");
    assert_eq!(
        submit(&mut rows, e.clone()),
        Err(SqlitePersistenceError::Sqlite(DUPLICATE_TASK.to_owned()))
    );
    transition(&mut rows, 11, AutomationAgentJournalStatus::Completed, 200, None).expect("complete");
    let stored = get_by_key(&rows, run_id, "once").expect("query").expect("stored");
    assert_eq!(stored.status, AutomationAgentJournalStatus::Completed);
    assert!(transition(
        &mut rows,
        11,
        AutomationAgentJournalStatus::Failed,
        300,
        Some("late failure")
    )
    .is_err());
}

#[test]
fn startup_recovery_interrupts_submitted_and_waiting_tasks() {
    let mut rows: Vec<AgentJournalRow> = Vec::new();
    submit(&mut rows, entry(20, "submitted", 21)).expect("submit first");
    submit(&mut rows, entry(30, "waiting", 31)).expect("submit second");
    transition(&mut rows, 31, AutomationAgentJournalStatus::WaitingForConfirmation, 150, None)
        .expect("waiting");
    assert_eq!(recover_active(&mut rows, 200), Ok(2));
    for task_id in [21, 31] {
        let stored = get_by_task_id(&rows, task_id).expect("query").expect("entry");
        assert_eq!(stored.status, AutomationAgentJournalStatus::Interrupted);
        assert_eq!(stored.error.as_deref(), Some(RESTART_ERROR));
        assert_eq!(stored.updated_at_ms, 200);
    }
}

#[test]
fn lists_only_tasks_from_the_requested_run_in_submission_order() {
    let mut rows: Vec<AgentJournalRow> = Vec::new();
    let run_id = 40;
    let first = entry(run_id, "first", 41);
    let mut second = entry(run_id, "second", 42);
    second.submitted_at_ms = 200;
    second.updated_at_ms = 200;
    let unrelated = entry(50, "unrelated", 51);
    submit(&mut rows, second).expect("submit second");
    submit(&mut rows, unrelated).expect("submit unrelated");
    submit(&mut rows, first).expect("submit first");

    let tasks = list_by_run(&rows, run_id).expect("list run tasks");
    assert_eq!(tasks.len(), 2);
    assert_eq!(tasks[0].idempotency_key, "first");
    assert_eq!(tasks[1].idempotency_key, "second");
}

#[test]
fn entries_need_a_rooted_run_a_bounded_key_and_a_model() {
    assert!(AutomationAgentJournalEntry::new(0, "k", 1, 0, "m", 1).is_err());
    assert!(AutomationAgentJournalEntry::new(5, "k", 1, 6, "m", 1).is_err());
    assert!(AutomationAgentJournalEntry::new(5, "", 1, 5, "m", 1).is_err());
    assert!(AutomationAgentJournalEntry::new(5, &"k".repeat(129), 1, 5, "m", 1).is_err());
    assert!(AutomationAgentJournalEntry::new(5, "k\n", 1, 5, "m", 1).is_err());
    assert!(AutomationAgentJournalEntry::new(5, "k", 1, 5, " ", 1).is_err());
    let e = AutomationAgentJournalEntry::new(5, "k", 1, 5, "m", 7).expect("entry");
    assert_eq!(e.spec, AUTOMATION_AGENT_JOURNAL_SPEC);
    assert_eq!(e.status, AutomationAgentJournalStatus::Submitted);
    assert_eq!((e.submitted_at_ms, e.updated_at_ms), (7, 7));
    assert_eq!(validate_entry(&e), Ok(()));
}

#[test]
fn a_run_key_is_used_once() {
    let mut rows: Vec<AgentJournalRow> = Vec::new();
    submit(&mut rows, entry(60, "key", 61)).expect("submit");
    assert_eq!(
        submit(&mut rows, entry(60, "key", 62)),
        Err(SqlitePersistenceError::Sqlite(DUPLICATE_KEY.to_owned()))
    );
    submit(&mut rows, entry(70, "key", 72)).expect("other run");
    assert_eq!(rows.len(), 2);
}

#[test]
fn transitions_move_forward_in_time_with_bounded_errors() {
    let mut rows: Vec<AgentJournalRow> = Vec::new();
    submit(&mut rows, entry(80, "k", 81)).expect("submit");
    assert_eq!(
        transition(&mut rows, 81, AutomationAgentJournalStatus::Failed, 99, Some("x")),
        Err(SqlitePersistenceError::InvalidAutomationAgentJournal)
    );
    assert_eq!(
        transition(&mut rows, 81, AutomationAgentJournalStatus::Failed, 150, Some("")),
        Err(SqlitePersistenceError::InvalidAutomationAgentJournal)
    );
    assert_eq!(
        transition(&mut rows, 81, AutomationAgentJournalStatus::Submitted, 150, None),
        Err(SqlitePersistenceError::InvalidAutomationAgentJournal)
    );
    assert_eq!(
        transition(&mut rows, 99, AutomationAgentJournalStatus::Failed, 150, None),
        Err(SqlitePersistenceError::InvalidAutomationAgentJournal)
    );
    transition(&mut rows, 81, AutomationAgentJournalStatus::Failed, 150, Some("boom")).expect("fail");
    assert_eq!(rows[0].entry.error.as_deref(), Some("boom"));
}

#[test]
fn rows_of_other_versions_do_not_decode() {
    let row = AgentJournalRow { schema_version: 2, entry: entry(90, "k", 91) };
    assert_eq!(
        decode_row(&row),
        Err(SqlitePersistenceError::UnsupportedAutomationAgentJournalVersion(2))
    );
    let mut rows = vec![row];
    assert_eq!(
        recover_active(&mut rows, 500),
        Err(SqlitePersistenceError::UnsupportedAutomationAgentJournalVersion(2))
    );
}
