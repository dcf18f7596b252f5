use nimora_core::auto_mode::{
    admit_attempt, attempt_from_row, begin_attempt, check_host_control_commit,
    check_recoverable_page, check_resolution_row, create_checkpoint, get_checkpoint,
    replace_checkpoint, CheckpointRecord, CheckpointRow, CHECKPOINT_REVISION_CHECK,
    DUPLICATE_CHECKPOINT, check_resolution_target, check_resume_commit,
    check_session_row, check_session_update, check_turn_commit, check_workspace_drift_commit,
    is_recoverable, mark_indeterminate, pause_reason_name, pause_running_after_restart,
    plan_convergence, resolution_for, status_name, validate_resolution_page,
    validate_resolution_request, AgentTaskStatus, AutoModePauseReason, AutoModeStatus,
    CheckpointState, Convergence, ResolutionRow, ResolutionStep, ResolveAutoModeAttemptRequest,
    SessionRow, SessionState, WorkspaceSuccessor, ATTEMPT_RESOLUTION_SPEC,
};
use nimora_core::error::SqlitePersistenceError;
use nimora_core::journals::{AutoModeAttemptResolutionDecision, AutoModeTurnAttemptStatus};

const SESSION: u128 = 0x0190_0000_0000_7000_8000_0000_0000_0001;
const ATTEMPT: u128 = 0x0190_0000_0000_7000_8000_0000_0000_0002;

fn session(status: AutoModeStatus, updated_at_ms: u64) -> SessionState {
    SessionState {
        id: SESSION,
        status,
        pause_reason: None,
        plan_revision: 1,
        created_at_ms: 1_000,
        updated_at_ms,
    }
}

fn checkpoint(sequence: u64, task_status: AgentTaskStatus, updated_at_ms: u64) -> CheckpointState {
    CheckpointState {
        session_id: SESSION,
        sequence,
        task_status,
        plan_revision: 1,
        updated_at_ms,
        bindings_match: true,
    }
}

fn indeterminate_attempt() -> nimora_core::auto_mode::AutoModeTurnAttempt {
    let attempt = begin_attempt(ATTEMPT, SESSION, 1, 1_001, "sha256:request", 1_002).expect("begin");
    mark_indeterminate(&attempt, 1_003).expect("quarantine")
}

fn request(decision: AutoModeAttemptResolutionDecision) -> ResolveAutoModeAttemptRequest {
    ResolveAutoModeAttemptRequest {
        session_id: SESSION,
        attempt_id: ATTEMPT,
        checkpoint_sequence: 1,
        request_fingerprint: "sha256:request".to_owned(),
        decision,
        actor: "user:local".to_owned(),
        reason: Some("provider outcome unknown".to_owned()),
        resolved_at_ms: 1_005,
    }
}

#[test]
fn stale_binding_and_active_attempt_leave_all_state_unchanged() {
    let attempt = indeterminate_attempt();
    let mut stale = request(AutoModeAttemptResolutionDecision::ConfirmedNotExecuted);
    stale.request_fingerprint = "sha256:stale".to_owned();
    assert_eq!(
        check_resolution_target(
            &stale,
            Some(&attempt),
            Some(session(AutoModeStatus::Running, 1_001)),
            Some(checkpoint(1, AgentTaskStatus::Running, 1_001)),
        ),
        Err(SqlitePersistenceError::AutoModeAttemptResolutionConflict)
    );
    let active = begin_attempt(ATTEMPT, SESSION, 1, 1_001, "sha256:request", 1_002).expect("begin");
    assert_eq!(
        check_resolution_target(
            &request(AutoModeAttemptResolutionDecision::ConfirmedNotExecuted),
            Some(&active),
            Some(session(AutoModeStatus::Running, 1_001)),
            Some(checkpoint(1, AgentTaskStatus::Running, 1_001)),
        ),
        Err(SqlitePersistenceError::AutoModeAttemptResolutionConflict)
    );
}

#[test]
fn audit_query_rejects_index_payload_divergence_and_unbounded_pages() {
    let req = request(AutoModeAttemptResolutionDecision::ConfirmedNotExecuted);
    let resolution = resolution_for(&req, 77).expect("resolution");
    let mut row = ResolutionRow {
        schema_version: 1,
        resolution_id: 77,
        attempt_id: ATTEMPT,
        checkpoint_sequence: 1,
        request_fingerprint: "sha256:request".to_owned(),
        decision: "confirmed_not_executed".to_owned(),
        actor: "user:local".to_owned(),
        reason: Some("provider outcome unknown".to_owned()),
        resolved_at_ms: 1_005,
    };
    assert_eq!(check_resolution_row(&row, &resolution, SESSION), Ok(()));
    row.actor = "user:tampered".to_owned();
    assert_eq!(
        check_resolution_row(&row, &resolution, SESSION),
        Err(SqlitePersistenceError::InvalidAutoModeAttemptResolution)
    );
    assert!(validate_resolution_page(0).is_err());
    assert!(validate_resolution_page(101).is_err());
    assert!(validate_resolution_page(10).is_ok());
}

#[test]
fn confirmed_not_executed_pauses_running_session_and_task() {
    let attempt = indeterminate_attempt();
    let req = request(AutoModeAttemptResolutionDecision::ConfirmedNotExecuted);
    validate_resolution_request(&req).expect("valid");
    check_resolution_target(
        &req,
        Some(&attempt),
        Some(session(AutoModeStatus::Running, 1_001)),
        Some(checkpoint(1, AgentTaskStatus::Running, 1_001)),
    )
    .expect("target");
    assert_eq!(
        plan_convergence(req.decision, AutoModeStatus::Running, AgentTaskStatus::Running),
        Ok(Convergence { session: ResolutionStep::Pause, task: ResolutionStep::Pause })
    );
    assert_eq!(
        plan_convergence(req.decision, AutoModeStatus::Paused, AgentTaskStatus::Paused),
        Ok(Convergence { session: ResolutionStep::Keep, task: ResolutionStep::Keep })
    );
    assert_eq!(
        plan_convergence(req.decision, AutoModeStatus::Completed, AgentTaskStatus::Running),
        Err(SqlitePersistenceError::InvalidAutoModeAttemptResolution)
    );
    let resolution = resolution_for(&req, 9).expect("resolution");
    assert_eq!(resolution.spec, ATTEMPT_RESOLUTION_SPEC);
    assert_eq!(resolution.spec, "nimora.auto-mode-attempt-resolution/1");
    assert_eq!(resolution.checkpoint_sequence, 1);
    assert_eq!(resolution.actor, "user:local");
}

#[test]
fn accepting_external_effect_cancels_both() {
    assert_eq!(
        plan_convergence(
            AutoModeAttemptResolutionDecision::AcceptExternalEffectAndCancel,
            AutoModeStatus::Running,
            AgentTaskStatus::Running
        ),
        Ok(Convergence { session: ResolutionStep::Cancel, task: ResolutionStep::Cancel })
    );
}

#[test]
fn resolution_requests_are_bounded() {
    let mut req = request(AutoModeAttemptResolutionDecision::ConfirmedNotExecuted);
    req.checkpoint_sequence = 0;
    assert!(validate_resolution_request(&req).is_err());
    let mut req = request(AutoModeAttemptResolutionDecision::ConfirmedNotExecuted);
    req.actor = " ".to_owned();
    assert!(validate_resolution_request(&req).is_err());
    let mut req = request(AutoModeAttemptResolutionDecision::ConfirmedNotExecuted);
    req.reason = Some("a\u{7}".to_owned());
    assert!(validate_resolution_request(&req).is_err());
    let mut req = request(AutoModeAttemptResolutionDecision::ConfirmedNotExecuted);
    req.reason = Some("x".repeat(2_049));
    assert!(validate_resolution_request(&req).is_err());
    let mut req = request(AutoModeAttemptResolutionDecision::ConfirmedNotExecuted);
    req.reason = None;
    assert!(validate_resolution_request(&req).is_ok());
}

#[test]
fn resolution_time_cannot_precede_updates() {
    let attempt = indeterminate_attempt();
    let mut req = request(AutoModeAttemptResolutionDecision::ConfirmedNotExecuted);
    req.resolved_at_ms = 1_002;
    assert_eq!(
        check_resolution_target(
            &req,
            Some(&attempt),
            Some(session(AutoModeStatus::Running, 1_001)),
            Some(checkpoint(1, AgentTaskStatus::Running, 1_001)),
        ),
        Err(SqlitePersistenceError::AutoModeAttemptResolutionConflict)
    );
    assert_eq!(
        check_resolution_target(&req, None, None, None),
        Err(SqlitePersistenceError::AutoModeAttemptResolutionConflict)
    );
}

#[test]
fn turn_attempts_begin_quarantine_and_decode() {
    assert_eq!(
        begin_attempt(ATTEMPT, SESSION, 0, 1, "fp", 2),
        Err(SqlitePersistenceError::InvalidAutoModeTurnAttempt)
    );
    assert_eq!(
        begin_attempt(ATTEMPT, SESSION, 1, 1, "", 2),
        Err(SqlitePersistenceError::InvalidAutoModeTurnAttempt)
    );
    assert_eq!(
        begin_attempt(ATTEMPT, SESSION, 1, 1, &"f".repeat(257), 2),
        Err(SqlitePersistenceError::InvalidAutoModeTurnAttempt)
    );
    let attempt = begin_attempt(ATTEMPT, SESSION, 3, 10, "fp", 20).expect("begin");
    assert_eq!(attempt.status, AutoModeTurnAttemptStatus::Active);
    assert_eq!((attempt.started_at_ms, attempt.updated_at_ms), (20, 20));
    assert_eq!(
        mark_indeterminate(&attempt, 19),
        Err(SqlitePersistenceError::InvalidAutoModeTurnAttempt)
    );
    let quarantined = mark_indeterminate(&attempt, 25).expect("quarantine");
    assert_eq!(quarantined.status, AutoModeTurnAttemptStatus::Indeterminate);
    assert_eq!(quarantined.updated_at_ms, 25);
    assert_eq!(
        mark_indeterminate(&quarantined, 30),
        Err(SqlitePersistenceError::InvalidAutoModeTurnAttempt)
    );
    assert_eq!(
        attempt_from_row(ATTEMPT, SESSION, 3, 10, "fp".to_owned(), "indeterminate", 20, 25),
        Ok(quarantined)
    );
    assert_eq!(
        attempt_from_row(ATTEMPT, SESSION, 3, 10, "fp".to_owned(), "paused", 20, 25),
        Err(SqlitePersistenceError::InvalidAutoModeTurnAttempt)
    );
    assert_eq!(
        attempt_from_row(ATTEMPT, SESSION, 3, 10, "fp".to_owned(), "active", 30, 25),
        Err(SqlitePersistenceError::InvalidAutoModeTurnAttempt)
    );
}

#[test]
fn a_session_admits_one_attempt_at_its_versions() {
    let attempt = begin_attempt(ATTEMPT, SESSION, 3, 10, "fp", 20).expect("begin");
    let running = session(AutoModeStatus::Running, 10);
    assert_eq!(admit_attempt(Some(running), Some(3), false, &attempt), Ok(()));
    assert_eq!(
        admit_attempt(Some(running), Some(3), true, &attempt),
        Err(SqlitePersistenceError::AutoModeTurnAttemptConflict)
    );
    assert_eq!(
        admit_attempt(Some(session(AutoModeStatus::Running, 11)), Some(3), false, &attempt),
        Err(SqlitePersistenceError::AutoModeTurnAttemptConflict)
    );
    assert_eq!(
        admit_attempt(Some(session(AutoModeStatus::Paused, 10)), Some(3), false, &attempt),
        Err(SqlitePersistenceError::AutoModeTurnAttemptConflict)
    );
    assert_eq!(
        admit_attempt(Some(running), Some(4), false, &attempt),
        Err(SqlitePersistenceError::AutoModeTurnAttemptConflict)
    );
    assert_eq!(
        admit_attempt(None, Some(3), false, &attempt),
        Err(SqlitePersistenceError::AutoModeTurnAttemptConflict)
    );
}

#[test]
fn commits_require_coupled_states_and_one_step() {
    let attempt = begin_attempt(ATTEMPT, SESSION, 1, 1_001, "fp", 1_002).expect("begin");
    let completed = session(AutoModeStatus::Completed, 1_010);
    assert_eq!(
        check_turn_commit(&attempt, &completed, 1_001, &checkpoint(2, AgentTaskStatus::Succeeded, 1_010), 1),
        Ok(())
    );
    assert_eq!(
        check_turn_commit(&attempt, &completed, 1_001, &checkpoint(2, AgentTaskStatus::Running, 1_010), 1),
        Err(SqlitePersistenceError::InvalidAutoModeCheckpoint)
    );
    assert_eq!(
        check_turn_commit(&attempt, &completed, 1_001, &checkpoint(3, AgentTaskStatus::Succeeded, 1_010), 1),
        Err(SqlitePersistenceError::InvalidAutoModeCheckpoint)
    );
    assert_eq!(
        check_turn_commit(&attempt, &completed, 1_000, &checkpoint(2, AgentTaskStatus::Succeeded, 1_010), 1),
        Err(SqlitePersistenceError::InvalidAutoModeCheckpoint)
    );
    let running = session(AutoModeStatus::Running, 1_010);
    assert_eq!(
        check_resume_commit(&running, 1_001, &checkpoint(2, AgentTaskStatus::Running, 1_010), 1),
        Ok(())
    );
    let mut unbound = checkpoint(2, AgentTaskStatus::Running, 1_010);
    unbound.bindings_match = false;
    assert_eq!(
        check_resume_commit(&running, 1_001, &unbound, 1),
        Err(SqlitePersistenceError::InvalidAutoModeCheckpoint)
    );
    let cancelled = session(AutoModeStatus::Cancelled, 1_010);
    assert_eq!(
        check_host_control_commit(&cancelled, 1_001, &checkpoint(2, AgentTaskStatus::Cancelled, 1_010), 1),
        Ok(())
    );
    assert_eq!(
        check_host_control_commit(&running, 1_001, &checkpoint(2, AgentTaskStatus::Running, 1_010), 1),
        Err(SqlitePersistenceError::InvalidAutoModeCheckpoint)
    );
    assert_eq!(
        check_resume_commit(&running, u64::MAX, &checkpoint(2, AgentTaskStatus::Running, 1_010), 1),
        Err(SqlitePersistenceError::InvalidAutoModeCheckpoint)
    );
}

#[test]
fn workspace_drift_appends_the_next_revision() {
    let mut paused = session(AutoModeStatus::Paused, 1_010);
    paused.pause_reason = Some(AutoModePauseReason::WorkspaceChanged);
    let successor = WorkspaceSuccessor {
        session_id: SESSION,
        revision: 4,
        parent_fingerprint: Some("sha256:three".to_owned()),
        created_at_ms: 1_010,
    };
    let cp = checkpoint(2, AgentTaskStatus::Paused, 1_010);
    assert_eq!(
        check_workspace_drift_commit(&paused, 1_001, &cp, 1, &successor, 3, "sha256:three"),
        Ok(())
    );
    assert_eq!(
        check_workspace_drift_commit(&paused, 1_001, &cp, 1, &successor, 2, "sha256:three"),
        Err(SqlitePersistenceError::InvalidWorkspaceSnapshot)
    );
    assert_eq!(
        check_workspace_drift_commit(&paused, 1_001, &cp, 1, &successor, 3, "sha256:other"),
        Err(SqlitePersistenceError::InvalidWorkspaceSnapshot)
    );
    let mut user_paused = paused;
    user_paused.pause_reason = Some(AutoModePauseReason::UserRequested);
    assert_eq!(
        check_workspace_drift_commit(&user_paused, 1_001, &cp, 1, &successor, 3, "sha256:three"),
        Err(SqlitePersistenceError::InvalidWorkspaceSnapshot)
    );
    assert_eq!(
        check_workspace_drift_commit(&paused, u64::MAX, &cp, 1, &successor, 3, "sha256:three"),
        Err(SqlitePersistenceError::InvalidAutoModeCheckpoint)
    );
}

#[test]
fn restart_never_auto_resumes_running_sessions() {
    let mut sessions = vec![
        session(AutoModeStatus::Running, 100),
        session(AutoModeStatus::Paused, 90),
        session(AutoModeStatus::Completed, 80),
    ];
    assert_eq!(pause_running_after_restart(&mut sessions, 200), Ok(1));
    assert_eq!(sessions[0].status, AutoModeStatus::Paused);
    assert_eq!(sessions[0].pause_reason, Some(AutoModePauseReason::Restarted));
    assert_eq!(sessions[0].updated_at_ms, 200);
    assert_eq!(sessions[1], session(AutoModeStatus::Paused, 90));
    assert!(is_recoverable(&sessions[0], false));
    assert!(!is_recoverable(&sessions[1], false));
    assert!(is_recoverable(&sessions[1], true));
    let mut backwards = vec![session(AutoModeStatus::Running, 300)];
    assert_eq!(
        pause_running_after_restart(&mut backwards, 200),
        Err(SqlitePersistenceError::InvalidAutoModeSession)
    );
    assert_eq!(backwards[0].status, AutoModeStatus::Running);
}

#[test]
fn session_updates_and_rows_are_checked() {
    let running = session(AutoModeStatus::Running, 100);
    assert_eq!(check_session_update(&running, 100), Ok(()));
    assert_eq!(
        check_session_update(&running, 101),
        Err(SqlitePersistenceError::InvalidAutoModeSession)
    );
    let row = SessionRow {
        schema_version: 1,
        goal_id: 5,
        plan_revision: 1,
        status: "running".to_owned(),
        pause_reason: None,
        created_at_ms: 1_000,
        updated_at_ms: 100,
    };
    assert_eq!(check_session_row(&row, &running, 5, SESSION), Ok(()));
    assert_eq!(
        check_session_row(&row, &running, 6, SESSION),
        Err(SqlitePersistenceError::InvalidAutoModeSession)
    );
    let mut future = row.clone();
    future.schema_version = 2;
    assert_eq!(
        check_session_row(&future, &running, 5, SESSION),
        Err(SqlitePersistenceError::UnsupportedAutoModeSessionVersion(2))
    );
    assert_eq!(check_recoverable_page(256, 256), Ok(()));
    assert_eq!(
        check_recoverable_page(257, 256),
        Err(SqlitePersistenceError::InvalidAutoModeSession)
    );
    assert!(check_recoverable_page(0, 0).is_err());
}

#[test]
fn status_and_reason_names() {
    assert_eq!(status_name(AutoModeStatus::Cancelled), "cancelled");
    assert_eq!(
        pause_reason_name(AutoModePauseReason::ConfirmationRequired),
        "confirmation_required"
    );
    assert_eq!(pause_reason_name(AutoModePauseReason::Restarted), "restarted");
}

fn stored_checkpoint(session_id: u128, sequence: u64, updated_at_ms: u64) -> CheckpointRecord {
    CheckpointRecord {
        session_id,
        goal_id: 42,
        plan_revision: 1,
        sequence,
        task_id: 0x0190_0000_0000_7000_8000_0000_0000_0077,
        updated_at_ms,
    }
}

#[test]
fn round_trips_and_rejects_stale_replacement() {
    let mut rows: Vec<CheckpointRow> = Vec::new();
    let session_id = 0x0190_0000_0000_7000_8000_0000_0000_0005_u128;
    let first = stored_checkpoint(session_id, 1, 1_001);
    create_checkpoint(&mut rows, first).expect("create");
    let second = stored_checkpoint(session_id, 2, 1_002);
    replace_checkpoint(&mut rows, second, 1).expect("replace");
    assert_eq!(get_checkpoint(&rows, session_id).expect("get"), Some(second));
    assert!(matches!(
        replace_checkpoint(&mut rows, second, 1),
        Err(SqlitePersistenceError::AutoModeCheckpointConflict)
    ));
}

#[test]
fn rejects_non_initial_create_and_skipped_sequence() {
    let mut rows: Vec<CheckpointRow> = Vec::new();
    let session_id = 0x0190_0000_0000_7000_8000_0000_0000_0006_u128;
    assert!(matches!(
        create_checkpoint(&mut rows, stored_checkpoint(session_id, 2, 1_002)),
        Err(SqlitePersistenceError::InvalidAutoModeCheckpoint)
    ));
    create_checkpoint(&mut rows, stored_checkpoint(session_id, 1, 1_001)).expect("create");
    assert!(matches!(
        replace_checkpoint(&mut rows, stored_checkpoint(session_id, 3, 1_003), 1),
        Err(SqlitePersistenceError::InvalidAutoModeCheckpoint)
    ));
}

#[test]
fn a_session_has_one_checkpoint_with_a_plan_revision() {
    let mut rows: Vec<CheckpointRow> = Vec::new();
    create_checkpoint(&mut rows, stored_checkpoint(11, 1, 1_001)).expect("create");
    match create_checkpoint(&mut rows, stored_checkpoint(11, 1, 1_001)) {
        Err(SqlitePersistenceError::Sqlite(message)) => assert_eq!(message, DUPLICATE_CHECKPOINT),
        other => panic!("unexpected {:?}", other),
    }
    let mut unplanned = stored_checkpoint(12, 1, 1_001);
    unplanned.plan_revision = 0;
    match create_checkpoint(&mut rows, unplanned) {
        Err(SqlitePersistenceError::Sqlite(message)) => {
            assert_eq!(message, CHECKPOINT_REVISION_CHECK)
        }
        other => panic!("unexpected {:?}", other),
    }
    assert_eq!(rows.len(), 1);
    assert_eq!(get_checkpoint(&rows, 12), Ok(None));
    rows[0].schema_version = 3;
    assert_eq!(
        get_checkpoint(&rows, 11),
        Err(SqlitePersistenceError::UnsupportedAutoModeCheckpointVersion(3))
    );
}
