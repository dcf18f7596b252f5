use nimora_core::auto_mode::{
    begin_attempt, create_checkpoint, get_checkpoint, AgentTaskStatus, AutoModeStatus,
    AutoModeTurnAttempt, CheckpointRecord, CheckpointRow, CheckpointState, SessionState,
};
use nimora_core::error::SqlitePersistenceError;
use nimora_core::auto_mode::AutoModePauseReason;
use nimora_core::turn_commit::{
    commit_host_control, commit_resume, commit_turn, commit_workspace_drift, StoredSession,
};
use nimora_core::workspace_snapshots::{
    create_snapshot, latest_snapshot, StoredWorkspaceSnapshot, WorkspaceSnapshotRow,
    DUPLICATE_FINGERPRINT,
};

const SESSION: u128 = 0x0190_0000_0000_7000_8000_0000_0000_0011;
const ATTEMPT: u128 = 0x0190_0000_0000_7000_8000_0000_0000_0012;
const GOAL: u128 = 0x0190_0000_0000_7000_8000_0000_0000_0013;
const TASK: u128 = 0x0190_0000_0000_7000_8000_0000_0000_0014;

struct Rows {
    sessions: Vec<StoredSession>,
    checkpoints: Vec<CheckpointRow>,
    attempts: Vec<AutoModeTurnAttempt>,
}

fn session(status: AutoModeStatus, updated_at_ms: u64) -> SessionState {
    SessionState { id: SESSION, status, pause_reason: None, plan_revision: 1, created_at_ms: 1_000, updated_at_ms }
}

fn checkpoint(sequence: u64, task_status: AgentTaskStatus, updated_at_ms: u64) -> CheckpointState {
    CheckpointState { session_id: SESSION, sequence, task_status, plan_revision: 1, updated_at_ms, bindings_match: true }
}

/// A running session at version 1_001 with its checkpoint at sequence 1 and
/// an active attempt begun against both.
fn fixture() -> (Rows, AutoModeTurnAttempt) {
    let mut checkpoints = Vec::new();
    create_checkpoint(
        &mut checkpoints,
        CheckpointRecord { session_id: SESSION, goal_id: GOAL, plan_revision: 1, sequence: 1, task_id: TASK, updated_at_ms: 1_001 },
    )
    .expect("checkpoint");
    let attempt = begin_attempt(ATTEMPT, SESSION, 1, 1_001, "sha256:request", 1_002).expect("attempt");
    let rows = Rows {
        sessions: vec![StoredSession { goal_id: GOAL, state: session(AutoModeStatus::Running, 1_001) }],
        checkpoints,
        attempts: vec![attempt.clone()],
    };
    (rows, attempt)
}

fn commit(rows: &mut Rows, attempt: &AutoModeTurnAttempt, next: &SessionState, previous: u64, cp: &CheckpointState, previous_sequence: u64) -> Result<(), SqlitePersistenceError> {
    commit_turn(
        &mut rows.sessions,
        &mut rows.checkpoints,
        &mut rows.attempts,
        attempt,
        next,
        GOAL,
        previous,
        cp,
        TASK,
        previous_sequence,
    )
}

#[test]
fn committed_turn_writes_session_checkpoint_and_attempt_together() {
    let (mut rows, attempt) = fixture();
    let next = session(AutoModeStatus::Completed, 1_010);
    let cp = checkpoint(2, AgentTaskStatus::Succeeded, 1_010);
    assert_eq!(commit(&mut rows, &attempt, &next, 1_001, &cp, 1), Ok(()));
    assert_eq!(rows.sessions[0].state, next);
    let stored = get_checkpoint(&rows.checkpoints, SESSION).expect("get").expect("checkpoint");
    assert_eq!(stored.sequence, 2);
    assert_eq!(stored.updated_at_ms, 1_010);
    assert!(rows.attempts.is_empty());
}

#[test]
fn stale_rows_conflict_and_change_nothing() {
    let (mut rows, attempt) = fixture();
    rows.sessions[0].state.updated_at_ms = 1_005;
    let before_sessions = rows.sessions.clone();
    let before_checkpoints = rows.checkpoints.clone();
    let next = session(AutoModeStatus::Running, 1_010);
    let cp = checkpoint(2, AgentTaskStatus::Running, 1_010);
    assert_eq!(commit(&mut rows, &attempt, &next, 1_001, &cp, 1), Err(SqlitePersistenceError::AutoModeCommitConflict));
    assert_eq!(rows.sessions, before_sessions);
    assert_eq!(rows.checkpoints, before_checkpoints);
    assert_eq!(rows.attempts, vec![attempt.clone()]);

    let (mut rows, attempt) = fixture();
    rows.attempts.clear();
    let before_sessions = rows.sessions.clone();
    assert_eq!(commit(&mut rows, &attempt, &next, 1_001, &cp, 1), Err(SqlitePersistenceError::AutoModeCommitConflict));
    assert_eq!(rows.sessions, before_sessions);
    assert_eq!(get_checkpoint(&rows.checkpoints, SESSION).expect("get").expect("checkpoint").sequence, 1);
}

#[test]
fn invalid_turns_are_refused_before_any_write() {
    let (mut rows, attempt) = fixture();
    let next = session(AutoModeStatus::Completed, 1_010);
    // Completed needs a succeeded task, and the checkpoint must advance by one.
    let uncoupled = checkpoint(2, AgentTaskStatus::Running, 1_010);
    assert_eq!(commit(&mut rows, &attempt, &next, 1_001, &uncoupled, 1), Err(SqlitePersistenceError::InvalidAutoModeCheckpoint));
    let skipped = checkpoint(3, AgentTaskStatus::Succeeded, 1_010);
    assert_eq!(commit(&mut rows, &attempt, &next, 1_001, &skipped, 1), Err(SqlitePersistenceError::InvalidAutoModeCheckpoint));
    assert_eq!(rows.sessions[0].state, session(AutoModeStatus::Running, 1_001));
    assert_eq!(rows.attempts.len(), 1);
}

fn paused_rows() -> Rows {
    let (mut rows, _) = fixture();
    rows.sessions[0].state.status = AutoModeStatus::Paused;
    rows.sessions[0].state.pause_reason = Some(AutoModePauseReason::UserRequested);
    rows.attempts.clear();
    rows
}

#[test]
fn resume_writes_session_and_checkpoint_together() {
    let mut rows = paused_rows();
    let mut next = session(AutoModeStatus::Running, 1_020);
    next.pause_reason = Some(AutoModePauseReason::UserRequested);
    let cp = checkpoint(2, AgentTaskStatus::Running, 1_020);
    assert_eq!(commit_resume(&mut rows.sessions, &mut rows.checkpoints, &next, GOAL, 1_001, &cp, TASK, 1), Ok(()));
    assert_eq!(rows.sessions[0].state.status, AutoModeStatus::Running);
    assert_eq!(rows.sessions[0].state.pause_reason, None);
    assert_eq!(rows.sessions[0].state.updated_at_ms, 1_020);
    assert_eq!(get_checkpoint(&rows.checkpoints, SESSION).expect("get").expect("checkpoint").sequence, 2);
    // Resuming the same paused version again finds it gone.
    let again = checkpoint(3, AgentTaskStatus::Running, 1_030);
    let before = (rows.sessions.clone(), rows.checkpoints.clone());
    assert_eq!(
        commit_resume(&mut rows.sessions, &mut rows.checkpoints, &next, GOAL, 1_001, &again, TASK, 2),
        Err(SqlitePersistenceError::AutoModeCommitConflict)
    );
    assert_eq!((rows.sessions.clone(), rows.checkpoints.clone()), before);
}

#[test]
fn resume_of_a_running_session_or_stale_checkpoint_changes_nothing() {
    let (mut rows, _) = fixture();
    let next = session(AutoModeStatus::Running, 1_020);
    let cp = checkpoint(2, AgentTaskStatus::Running, 1_020);
    let before = (rows.sessions.clone(), rows.checkpoints.clone());
    assert_eq!(
        commit_resume(&mut rows.sessions, &mut rows.checkpoints, &next, GOAL, 1_001, &cp, TASK, 1),
        Err(SqlitePersistenceError::AutoModeCommitConflict)
    );
    let mut rows = paused_rows();
    let stale = checkpoint(3, AgentTaskStatus::Running, 1_020);
    assert_eq!(
        commit_resume(&mut rows.sessions, &mut rows.checkpoints, &next, GOAL, 1_001, &stale, TASK, 2),
        Err(SqlitePersistenceError::AutoModeCommitConflict)
    );
    assert_eq!(
        commit_resume(&mut rows.sessions, &mut rows.checkpoints, &next, GOAL, 1_001, &checkpoint(2, AgentTaskStatus::Paused, 1_020), TASK, 1),
        Err(SqlitePersistenceError::InvalidAutoModeCheckpoint)
    );
    assert_eq!(before.1, rows.checkpoints);
}

#[test]
fn host_control_pauses_or_cancels_both_rows() {
    let (mut rows, _) = fixture();
    let mut next = session(AutoModeStatus::Cancelled, 1_040);
    next.pause_reason = None;
    let cp = checkpoint(2, AgentTaskStatus::Cancelled, 1_040);
    assert_eq!(commit_host_control(&mut rows.sessions, &mut rows.checkpoints, &next, GOAL, 1_001, &cp, TASK, 1), Ok(()));
    assert_eq!(rows.sessions[0].state, next);
    assert_eq!(get_checkpoint(&rows.checkpoints, SESSION).expect("get").expect("checkpoint").sequence, 2);
    let (mut rows, _) = fixture();
    let uncoupled = checkpoint(2, AgentTaskStatus::Paused, 1_040);
    assert_eq!(
        commit_host_control(&mut rows.sessions, &mut rows.checkpoints, &next, GOAL, 1_001, &uncoupled, TASK, 1),
        Err(SqlitePersistenceError::InvalidAutoModeCheckpoint)
    );
    assert_eq!(
        commit_host_control(&mut rows.sessions, &mut rows.checkpoints, &next, GOAL, 1_000, &cp, TASK, 1),
        Err(SqlitePersistenceError::AutoModeCommitConflict)
    );
    assert_eq!(rows.sessions[0].state, session(AutoModeStatus::Running, 1_001));
}

fn workspace(revision: u64, parent: Option<String>, contents: &str) -> StoredWorkspaceSnapshot {
    StoredWorkspaceSnapshot::new(SESSION, &"b".repeat(64), revision, parent, format!("{revision}:{contents}"), 1_000 + revision)
        .expect("workspace")
}

fn drift_rows() -> (Rows, Vec<WorkspaceSnapshotRow>, StoredWorkspaceSnapshot) {
    let (rows, _) = fixture();
    let mut workspaces = Vec::new();
    let first = workspace(1, None, "one");
    create_snapshot(&mut workspaces, first.clone()).expect("first workspace");
    (rows, workspaces, first)
}

#[test]
fn workspace_drift_pauses_and_appends_the_successor() {
    let (mut rows, mut workspaces, first) = drift_rows();
    let mut next = session(AutoModeStatus::Paused, 1_050);
    next.pause_reason = Some(AutoModePauseReason::WorkspaceChanged);
    let cp = checkpoint(2, AgentTaskStatus::Paused, 1_050);
    let second = workspace(2, Some(first.fingerprint.clone()), "two");
    assert_eq!(
        commit_workspace_drift(&mut rows.sessions, &mut rows.checkpoints, &mut workspaces, &next, 1_001, &cp, GOAL, TASK, 1, second.clone(), 1, &first.fingerprint),
        Ok(())
    );
    assert_eq!(rows.sessions[0].state, next);
    assert_eq!(get_checkpoint(&rows.checkpoints, SESSION).expect("get").expect("checkpoint").sequence, 2);
    assert_eq!(latest_snapshot(&workspaces, SESSION).expect("latest"), Some(second));
}

#[test]
fn workspace_drift_refuses_stale_or_duplicate_successors_whole() {
    let (mut rows, mut workspaces, first) = drift_rows();
    let mut next = session(AutoModeStatus::Paused, 1_050);
    next.pause_reason = Some(AutoModePauseReason::WorkspaceChanged);
    let cp = checkpoint(2, AgentTaskStatus::Paused, 1_050);
    let before = (rows.sessions.clone(), rows.checkpoints.clone(), workspaces.clone());
    // A successor that repeats the first fingerprint is refused by storage.
    let mut duplicate = workspace(2, Some(first.fingerprint.clone()), "two");
    duplicate.fingerprint = first.fingerprint.clone();
    match commit_workspace_drift(&mut rows.sessions, &mut rows.checkpoints, &mut workspaces, &next, 1_001, &cp, GOAL, TASK, 1, duplicate, 1, &first.fingerprint) {
        Err(SqlitePersistenceError::Sqlite(message)) => assert_eq!(message, DUPLICATE_FINGERPRINT),
        other => panic!("unexpected {:?}", other),
    }
    // A successor of a revision that is not the latest conflicts.
    let third = workspace(3, Some("2:two".to_owned()), "three");
    assert_eq!(
        commit_workspace_drift(&mut rows.sessions, &mut rows.checkpoints, &mut workspaces, &next, 1_001, &cp, GOAL, TASK, 1, third, 2, "2:two"),
        Err(SqlitePersistenceError::AutoModeCommitConflict)
    );
    // A stale session version conflicts.
    let second = workspace(2, Some(first.fingerprint.clone()), "two");
    assert_eq!(
        commit_workspace_drift(&mut rows.sessions, &mut rows.checkpoints, &mut workspaces, &next, 1_000, &cp, GOAL, TASK, 1, second.clone(), 1, &first.fingerprint),
        Err(SqlitePersistenceError::AutoModeCommitConflict)
    );
    // A session that is not paused for a Workspace change is refused first.
    let running = session(AutoModeStatus::Running, 1_050);
    assert_eq!(
        commit_workspace_drift(&mut rows.sessions, &mut rows.checkpoints, &mut workspaces, &running, 1_001, &cp, GOAL, TASK, 1, second, 1, &first.fingerprint),
        Err(SqlitePersistenceError::InvalidWorkspaceSnapshot)
    );
    assert_eq!((rows.sessions.clone(), rows.checkpoints.clone(), workspaces.clone()), before);
}
