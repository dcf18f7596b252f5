use nimora_core::auto_mode::AgentTaskStatus;
use nimora_core::error::SqlitePersistenceError;
use nimora_core::history::{
    delete_all_history, delete_history, insert_history, list_history, validate_agent_history,
    AgentHistoryRecord, AgentHistoryRow, DUPLICATE_HISTORY, MAX_AGENT_HISTORY_CONTENT_BYTES,
    MAX_AGENT_HISTORY_PAGE,
};

fn agent_history_record(task_id: u128, created_at_ms: u64, prompt: &str) -> AgentHistoryRecord {
    AgentHistoryRecord::new(
        task_id,
        task_id + 1_000,
        "provider:deterministic-local",
        AgentTaskStatus::Succeeded,
        created_at_ms,
        "model:echo-v1",
        prompt,
        &format!("response:{prompt}"),
        created_at_ms + 1,
    )
    .expect("history record")
}

#[test]
fn agent_history_round_trips_with_stable_cursor_pagination() {
    let mut rows: Vec<AgentHistoryRow> = Vec::new();
    let oldest = agent_history_record(1, 100, "oldest");
    let middle = agent_history_record(2, 200, "middle");
    let newest = agent_history_record(3, 300, "newest");
    for record in [&oldest, &middle, &newest] {
        insert_history(&mut rows, record).expect("insert history");
    }
    let first_page = list_history(&rows, None, 2).expect("first page");
    assert_eq!(first_page, [newest.clone(), middle.clone()]);
    let cursor = (first_page[1].task_created_at_ms, first_page[1].task_id);
    assert_eq!(list_history(&rows, Some(cursor), 2).expect("next page"), [oldest]);
}

#[test]
fn agent_history_is_insert_once_and_privacy_deletable() {
    let mut rows: Vec<AgentHistoryRow> = Vec::new();
    let first = agent_history_record(1, 100, "private prompt");
    let second = agent_history_record(2, 200, "another prompt");
    insert_history(&mut rows, &first).expect("insert first");
    insert_history(&mut rows, &second).expect("insert second");
    assert!(insert_history(&mut rows, &first).is_err());
    assert!(delete_history(&mut rows, first.task_id));
    assert!(!delete_history(&mut rows, first.task_id));
    assert_eq!(delete_all_history(&mut rows), 1);
    assert!(list_history(&rows, None, 10).expect("empty history").is_empty());
}

#[test]
fn agent_history_rejects_unbounded_content_and_queries() {
    let rows: Vec<AgentHistoryRow> = Vec::new();
    assert!(matches!(
        list_history(&rows, None, MAX_AGENT_HISTORY_PAGE + 1),
        Err(SqlitePersistenceError::InvalidAgentHistory)
    ));
    let valid = agent_history_record(1, 100, "prompt");
    assert!(matches!(
        AgentHistoryRecord::new(
            valid.task_id,
            valid.trace_id,
            &valid.provider_id,
            valid.task_status,
            valid.task_created_at_ms,
            "model:echo-v1",
            &"x".repeat(MAX_AGENT_HISTORY_CONTENT_BYTES + 1),
            "response",
            valid.completed_at_ms,
        ),
        Err(SqlitePersistenceError::InvalidAgentHistory)
    ));
}

#[test]
fn history_needs_a_succeeded_task_and_ordered_times() {
    let base = agent_history_record(5, 100, "p");
    for (status, model, prompt, completed) in [
        (AgentTaskStatus::Running, "m", "p", 101_u64),
        (AgentTaskStatus::Succeeded, "   ", "p", 101),
        (AgentTaskStatus::Succeeded, "m", "", 101),
        (AgentTaskStatus::Succeeded, "m", "p", 99),
    ] {
        assert_eq!(
            AgentHistoryRecord::new(5, 6, "provider:x", status, 100, model, prompt, "r", completed),
            Err(SqlitePersistenceError::InvalidAgentHistory)
        );
    }
    assert_eq!(validate_agent_history(&base), Ok(()));
    let mut wrong = base.clone();
    wrong.spec = "nimora.agent-history/2".to_owned();
    assert_eq!(validate_agent_history(&wrong), Err(SqlitePersistenceError::InvalidAgentHistory));
    let mut rows: Vec<AgentHistoryRow> = Vec::new();
    assert_eq!(insert_history(&mut rows, &wrong), Err(SqlitePersistenceError::InvalidAgentHistory));
    insert_history(&mut rows, &base).expect("insert");
    match insert_history(&mut rows, &base) {
        Err(SqlitePersistenceError::Sqlite(message)) => assert_eq!(message, DUPLICATE_HISTORY),
        other => panic!("unexpected {:?}", other),
    }
}

#[test]
fn cursor_pages_break_ties_by_task_and_check_rows() {
    let mut rows: Vec<AgentHistoryRow> = Vec::new();
    for id in [10_u128, 30, 20] {
        insert_history(&mut rows, &agent_history_record(id, 500, "same time")).expect("insert");
    }
    let page = list_history(&rows, None, 2).expect("page");
    assert_eq!(page.iter().map(|r| r.task_id).collect::<Vec<_>>(), vec![30, 20]);
    let rest = list_history(&rows, Some((500, 20)), 5).expect("rest");
    assert_eq!(rest.iter().map(|r| r.task_id).collect::<Vec<_>>(), vec![10]);
    assert_eq!(
        list_history(&rows, Some((u64::MAX, 1)), 5),
        Err(SqlitePersistenceError::InvalidAgentHistory)
    );
    rows[1].schema_version = 2;
    assert_eq!(
        list_history(&rows, None, 5),
        Err(SqlitePersistenceError::UnsupportedAgentHistoryVersion(2))
    );
}
