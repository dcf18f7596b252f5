use nimora_core::error::SqlitePersistenceError;
use nimora_core::journals::AutomationJournalStatus;
use nimora_core::run_journal::{
    complete_run, decode_row, delete_terminal, get_entry, list_entries, recover_running,
    select_newest, start_run, validate_start, AutomationJournalRow, AutomationRunRecord,
    AutomationRunStart, AUTOMATION_JOURNAL_ENTRY_SPEC, DUPLICATE_RUN,
    MAX_AUTOMATION_HISTORY_PAGE_SIZE,
};

fn start(run_id: u128) -> AutomationRunStart {
    AutomationRunStart {
        run_id,
        automation_id: "local.focus.summary".to_owned(),
        trace_id: run_id + 1_000,
        event_id: "event:test".to_owned(),
        started_at_ms: 1_000,
    }
}

fn result(start: &AutomationRunStart) -> AutomationRunRecord {
    AutomationRunRecord {
        run_id: start.run_id,
        automation_id: start.automation_id.clone(),
        trace_id: start.trace_id,
        event_id: start.event_id.clone(),
        payload: format!("{{\"runId\":{},\"status\":\"succeeded\"}}", start.run_id),
    }
}

#[test]
fn start_and_complete_preserve_run_identity() {
    let mut rows = Vec::new();
    let s = start(1);
    start_run(&mut rows, &s).expect("start");
    complete_run(&mut rows, result(&s), 1_500).expect("complete");
    let entry = get_entry(&rows, s.run_id).expect("get").expect("entry");
    assert_eq!(entry.status, AutomationJournalStatus::Completed);
    assert_eq!(entry.result.expect("result").run_id, s.run_id);
    assert_eq!(entry.spec, AUTOMATION_JOURNAL_ENTRY_SPEC);
    assert_eq!(entry.updated_at_ms, 1_500);
}

#[test]
fn recovery_interrupts_only_unfinished_runs() {
    let mut rows = Vec::new();
    let completed = start(1);
    start_run(&mut rows, &completed).expect("start completed");
    complete_run(&mut rows, result(&completed), 1_500).expect("complete");
    let running = start(2);
    start_run(&mut rows, &running).expect("start running");
    assert_eq!(recover_running(&mut rows, 2_000, "desktop restarted"), Ok(1));
    let interrupted = get_entry(&rows, running.run_id).expect("get").expect("entry");
    assert_eq!(interrupted.status, AutomationJournalStatus::Interrupted);
    assert_eq!(interrupted.interruption_reason.as_deref(), Some("desktop restarted"));
    assert_eq!(interrupted.updated_at_ms, 2_000);
    assert_eq!(
        get_entry(&rows, completed.run_id).expect("get").expect("entry").status,
        AutomationJournalStatus::Completed
    );
}

#[test]
fn duplicate_or_terminal_completion_is_rejected() {
    let mut rows = Vec::new();
    let s = start(1);
    start_run(&mut rows, &s).expect("start");
    assert_eq!(
        start_run(&mut rows, &s),
        Err(SqlitePersistenceError::Sqlite(DUPLICATE_RUN.to_owned()))
    );
    let r = result(&s);
    complete_run(&mut rows, r.clone(), 1_500).expect("complete");
    assert_eq!(
        complete_run(&mut rows, r, 1_600),
        Err(SqlitePersistenceError::InvalidAutomationJournal)
    );
}

#[test]
fn history_is_bounded_ordered_and_never_deletes_running_rows() {
    let mut rows = Vec::new();
    let older = start(1);
    start_run(&mut rows, &older).expect("start older");
    complete_run(&mut rows, result(&older), 1_500).expect("complete older");
    let mut newer = start(2);
    newer.started_at_ms = 2_000;
    start_run(&mut rows, &newer).expect("start newer");

    let entries = list_entries(&rows, 2).expect("history");
    assert_eq!(entries[0].run_id, newer.run_id);
    assert_eq!(entries[1].run_id, older.run_id);
    assert!(list_entries(&rows, 0).is_err());
    assert!(list_entries(&rows, MAX_AUTOMATION_HISTORY_PAGE_SIZE + 1).is_err());
    assert_eq!(delete_terminal(&mut rows, Some(newer.run_id)), 0);
    assert_eq!(delete_terminal(&mut rows, Some(older.run_id)), 1);
    assert_eq!(list_entries(&rows, 10).expect("remaining").len(), 1);
}

#[test]
fn starts_need_identities_and_names() {
    let mut nil = start(1);
    nil.run_id = 0;
    assert_eq!(validate_start(&nil), Err(SqlitePersistenceError::InvalidAutomationJournal));
    let mut blank = start(1);
    blank.event_id = "   ".to_owned();
    assert_eq!(validate_start(&blank), Err(SqlitePersistenceError::InvalidAutomationJournal));
    let mut late = start(1);
    late.started_at_ms = u64::MAX;
    let mut rows = Vec::new();
    assert_eq!(
        start_run(&mut rows, &late),
        Err(SqlitePersistenceError::InvalidAutomationJournal)
    );
    assert!(rows.is_empty());
}

#[test]
fn completion_needs_matching_identity_and_time() {
    let mut rows = Vec::new();
    let s = start(1);
    start_run(&mut rows, &s).expect("start");
    let mut other_trace = result(&s);
    other_trace.trace_id = 99;
    assert_eq!(
        complete_run(&mut rows, other_trace, 1_500),
        Err(SqlitePersistenceError::InvalidAutomationJournal)
    );
    assert_eq!(
        complete_run(&mut rows, result(&s), 999),
        Err(SqlitePersistenceError::InvalidAutomationJournal)
    );
    assert_eq!(
        complete_run(&mut rows, result(&start(7)), 1_500),
        Err(SqlitePersistenceError::InvalidAutomationJournal)
    );
    assert_eq!(rows[0].status, AutomationJournalStatus::Running);
}

#[test]
fn recovery_keeps_a_later_update_and_needs_a_reason() {
    let mut rows = Vec::new();
    start_run(&mut rows, &start(1)).expect("start");
    rows[0].updated_at_ms = 5_000;
    assert_eq!(
        recover_running(&mut rows, 2_000, " "),
        Err(SqlitePersistenceError::InvalidAutomationJournal)
    );
    assert_eq!(
        recover_running(&mut rows, 2_000, &"x".repeat(4_097)),
        Err(SqlitePersistenceError::InvalidAutomationJournal)
    );
    assert_eq!(recover_running(&mut rows, 2_000, "crash"), Ok(1));
    assert_eq!(rows[0].updated_at_ms, 5_000);
    assert_eq!(recover_running(&mut rows, 6_000, "again"), Ok(0));
}

#[test]
fn decoding_rejects_other_versions_and_inconsistent_rows() {
    let mut rows = Vec::new();
    start_run(&mut rows, &start(1)).expect("start");
    let mut future: AutomationJournalRow = rows[0].clone();
    future.schema_version = 2;
    assert_eq!(
        decode_row(&future),
        Err(SqlitePersistenceError::UnsupportedAutomationJournalVersion(2))
    );
    let mut completed_without_result = rows[0].clone();
    completed_without_result.status = AutomationJournalStatus::Completed;
    assert_eq!(
        decode_row(&completed_without_result),
        Err(SqlitePersistenceError::InvalidAutomationJournal)
    );
    let mut interrupted_without_reason = rows[0].clone();
    interrupted_without_reason.status = AutomationJournalStatus::Interrupted;
    assert_eq!(
        decode_row(&interrupted_without_reason),
        Err(SqlitePersistenceError::InvalidAutomationJournal)
    );
    let mut negative = rows[0].clone();
    negative.started_at_ms = -1;
    assert_eq!(decode_row(&negative), Err(SqlitePersistenceError::InvalidAutomationJournal));
    assert_eq!(get_entry(&rows, 42), Ok(None));
}

#[test]
fn pages_break_time_ties_by_run_identifier() {
    let mut rows = Vec::new();
    for id in [5u128, 9, 7, 3] {
        start_run(&mut rows, &start(id)).expect("start");
    }
    let picked = select_newest(&rows, 3);
    let ids: Vec<u128> = picked.iter().map(|&i| rows[i].run_id).collect();
    assert_eq!(ids, vec![9, 7, 5]);
    assert_eq!(select_newest(&rows, 10).len(), 4);
}
