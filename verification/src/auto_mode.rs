//! Persistence rules of Auto Mode: turn attempts, the atomic commits that
//! advance a session and its checkpoint, and the manual resolution of an
//! attempt whose outcome is unknown.
//!
//! Sessions and checkpoints are the runtime's; these rules read only what is
//! modelled here ([`SessionState`], [`CheckpointState`]). Whether a
//! checkpoint's bindings match its session is the runtime's answer, carried as
//! `bindings_match`. Identifiers are UUIDs held as 128-bit integers.
use crate::error::SqlitePersistenceError;
use crate::journals::{AutoModeAttemptResolutionDecision, AutoModeTurnAttemptStatus, parse_turn_attempt_status, parsed_turn_attempt_status};
use crate::journal_entries::{name_ok, valid_name};
use crate::text::{contains_control, has_control_char, str_equal};
use vstd::utf8::encode_utf8;
use vstd::prelude::*;

verus! {

/// Longest request fingerprint of a turn attempt.
pub const MAX_FINGERPRINT_BYTES: usize = 256;

/// Longest actor name of a manual resolution.
pub const MAX_ACTOR_BYTES: usize = 128;

/// Longest reason of a manual resolution (2 KiB).
pub const MAX_REASON_BYTES: usize = 2_048;

/// Largest page of resolutions.
pub const MAX_RESOLUTION_PAGE: usize = 100;

/// Payload version of stored resolutions.
pub const RESOLUTION_VERSION: u32 = 1;

/// Spec identifier of manual resolutions.
pub const ATTEMPT_RESOLUTION_SPEC: &'static str = "nimora.auto-mode-attempt-resolution/1";

/// Largest value storage holds (`i64::MAX`).
pub const MAX_STORED: u64 = 9_223_372_036_854_775_807;

/// Lifecycle of an Auto Mode session.
#[derive(Debug, Clone, Copy, PartialEq, Eq, Structural)]
pub enum AutoModeStatus {
    Running,
    Paused,
    Completed,
    Cancelled,
}

/// Stored name of an [`AutoModeStatus`].
pub open spec fn status_label(value: AutoModeStatus) -> Seq<char> {
    match value {
        AutoModeStatus::Running => "running"@,
        AutoModeStatus::Paused => "paused"@,
        AutoModeStatus::Completed => "completed"@,
        AutoModeStatus::Cancelled => "cancelled"@,
    }
}

/// The stored name of an [`AutoModeStatus`].
pub fn status_name(value: AutoModeStatus) -> (r: &'static str)
    ensures
        r@ == status_label(value),
{
    match value {
        AutoModeStatus::Running => "running",
        AutoModeStatus::Paused => "paused",
        AutoModeStatus::Completed => "completed",
        AutoModeStatus::Cancelled => "cancelled",
    }
}

/// Why an Auto Mode session is paused.
#[derive(Debug, Clone, Copy, PartialEq, Eq, Structural)]
pub enum AutoModePauseReason {
    ConfirmationRequired,
    BudgetExhausted,
    GoalChanged,
    WorkspaceChanged,
    ProviderUnavailable,
    Restarted,
    UnsafeEffect,
    UserRequested,
}

/// Stored name of an [`AutoModePauseReason`].
pub open spec fn pause_reason_label(value: AutoModePauseReason) -> Seq<char> {
    match value {
        AutoModePauseReason::ConfirmationRequired => "confirmation_required"@,
        AutoModePauseReason::BudgetExhausted => "budget_exhausted"@,
        AutoModePauseReason::GoalChanged => "goal_changed"@,
        AutoModePauseReason::WorkspaceChanged => "workspace_changed"@,
        AutoModePauseReason::ProviderUnavailable => "provider_unavailable"@,
        AutoModePauseReason::Restarted => "restarted"@,
        AutoModePauseReason::UnsafeEffect => "unsafe_effect"@,
        AutoModePauseReason::UserRequested => "user_requested"@,
    }
}

/// The stored name of an [`AutoModePauseReason`].
pub fn pause_reason_name(value: AutoModePauseReason) -> (r: &'static str)
    ensures
        r@ == pause_reason_label(value),
{
    match value {
        AutoModePauseReason::ConfirmationRequired => "confirmation_required",
        AutoModePauseReason::BudgetExhausted => "budget_exhausted",
        AutoModePauseReason::GoalChanged => "goal_changed",
        AutoModePauseReason::WorkspaceChanged => "workspace_changed",
        AutoModePauseReason::ProviderUnavailable => "provider_unavailable",
        AutoModePauseReason::Restarted => "restarted",
        AutoModePauseReason::UnsafeEffect => "unsafe_effect",
        AutoModePauseReason::UserRequested => "user_requested",
    }
}

/// The state of a checkpoint's task, as these rules tell states apart; every
/// other state of the runtime's task is `Other`.
#[derive(Debug, Clone, Copy, PartialEq, Eq, Structural)]
pub enum AgentTaskStatus {
    Planning,
    Running,
    Paused,
    Succeeded,
    Cancelled,
    Other,
}

/// What the commit rules read of a session.
#[derive(Debug, Clone, Copy, PartialEq, Eq, Structural)]
pub struct SessionState {
    pub id: u128,
    pub status: AutoModeStatus,
    pub pause_reason: Option<AutoModePauseReason>,
    pub plan_revision: u64,
    pub created_at_ms: u64,
    pub updated_at_ms: u64,
}

/// What the commit rules read of a checkpoint.
#[derive(Debug, Clone, Copy, PartialEq, Eq, Structural)]
pub struct CheckpointState {
    pub session_id: u128,
    pub sequence: u64,
    pub task_status: AgentTaskStatus,
    pub plan_revision: u64,
    pub updated_at_ms: u64,
    /// The runtime's answer to whether the checkpoint is bound to the
    /// session's identity, goal, plan revision, Workspace revision and policy.
    pub bindings_match: bool,
}

/// One durable pre-execution attempt of an Auto Mode turn.
#[derive(Debug, Clone, PartialEq, Eq)]
pub struct AutoModeTurnAttempt {
    pub id: u128,
    pub session_id: u128,
    pub checkpoint_sequence: u64,
    pub expected_session_updated_at_ms: u64,
    pub request_fingerprint: String,
    pub status: AutoModeTurnAttemptStatus,
    pub started_at_ms: u64,
    pub updated_at_ms: u64,
}

/// `previous + 1`, held at `u64::MAX`.
pub open spec fn next_sequence(previous: u64) -> u64 {
    if previous < u64::MAX {
        (previous + 1) as u64
    } else {
        u64::MAX
    }
}

fn saturating_next(previous: u64) -> (r: u64)
    ensures
        r == next_sequence(previous),
{
    if previous < u64::MAX {
        previous + 1
    } else {
        u64::MAX
    }
}

// ----------------------------------------------------------------------------
// Turn attempts
// ----------------------------------------------------------------------------

/// A turn attempt as the store keeps it.
pub open spec fn attempt_ok(attempt: AutoModeTurnAttempt) -> bool {
    &&& attempt.checkpoint_sequence != 0
    &&& attempt.started_at_ms <= attempt.updated_at_ms
    &&& name_ok(attempt.request_fingerprint@, MAX_FINGERPRINT_BYTES as int)
}

/// Checks a loaded turn attempt.
///
/// # Errors
///
/// [`SqlitePersistenceError::InvalidAutoModeTurnAttempt`] when it breaks [`attempt_ok`].
pub fn validate_attempt(attempt: &AutoModeTurnAttempt) -> (r: Result<(), SqlitePersistenceError>)
    ensures
        attempt_ok(*attempt) ==> r is Ok,
        !attempt_ok(*attempt) ==> r == Err::<(), SqlitePersistenceError>(
            SqlitePersistenceError::InvalidAutoModeTurnAttempt,
        ),
{
    if attempt.checkpoint_sequence == 0 || attempt.updated_at_ms < attempt.started_at_ms
        || !valid_name(attempt.request_fingerprint.as_str(), MAX_FINGERPRINT_BYTES) {
        return Err(SqlitePersistenceError::InvalidAutoModeTurnAttempt);
    }
    Ok(())
}

/// A new attempt's input is acceptable and its columns fit storage.
pub open spec fn begin_ok(
    checkpoint_sequence: u64,
    expected_session_updated_at_ms: u64,
    request_fingerprint: &str,
    now_ms: u64,
) -> bool {
    &&& checkpoint_sequence != 0
    &&& name_ok(request_fingerprint@, MAX_FINGERPRINT_BYTES as int)
    &&& checkpoint_sequence <= MAX_STORED
    &&& expected_session_updated_at_ms <= MAX_STORED
    &&& now_ms <= MAX_STORED
}

/// Creates one active attempt, started at `now_ms`, against the session
/// version `expected_session_updated_at_ms` and checkpoint `checkpoint_sequence`.
///
/// # Errors
///
/// [`SqlitePersistenceError::InvalidAutoModeTurnAttempt`] for a zero sequence,
/// a blank, oversized or control-character fingerprint, or a value beyond
/// storage range.
pub fn begin_attempt(
    id: u128,
    session_id: u128,
    checkpoint_sequence: u64,
    expected_session_updated_at_ms: u64,
    request_fingerprint: &str,
    now_ms: u64,
) -> (r: Result<AutoModeTurnAttempt, SqlitePersistenceError>)
    ensures
        begin_ok(checkpoint_sequence, expected_session_updated_at_ms, request_fingerprint, now_ms)
            ==> (r matches Ok(a) && {
            &&& a.id == id
            &&& a.session_id == session_id
            &&& a.checkpoint_sequence == checkpoint_sequence
            &&& a.expected_session_updated_at_ms == expected_session_updated_at_ms
            &&& a.request_fingerprint@ == request_fingerprint@
            &&& a.status == AutoModeTurnAttemptStatus::Active
            &&& a.started_at_ms == now_ms
            &&& a.updated_at_ms == now_ms
            &&& attempt_ok(a)
        }),
        !begin_ok(checkpoint_sequence, expected_session_updated_at_ms, request_fingerprint, now_ms)
            ==> r == Err::<AutoModeTurnAttempt, SqlitePersistenceError>(
            SqlitePersistenceError::InvalidAutoModeTurnAttempt,
        ),
{
    if checkpoint_sequence == 0 || !valid_name(request_fingerprint, MAX_FINGERPRINT_BYTES)
        || checkpoint_sequence > MAX_STORED || expected_session_updated_at_ms > MAX_STORED
        || now_ms > MAX_STORED {
        return Err(SqlitePersistenceError::InvalidAutoModeTurnAttempt);
    }
    let attempt = AutoModeTurnAttempt {
        id,
        session_id,
        checkpoint_sequence,
        expected_session_updated_at_ms,
        request_fingerprint: request_fingerprint.to_owned(),
        status: AutoModeTurnAttemptStatus::Active,
        started_at_ms: now_ms,
        updated_at_ms: now_ms,
    };
    Ok(attempt)
}

/// Storage admits a new attempt only while the session runs at the expected
/// version, the checkpoint is at the expected sequence, and the session has no
/// other attempt.
pub open spec fn attempt_admitted(
    session: Option<SessionState>,
    stored_checkpoint_sequence: Option<u64>,
    has_attempt: bool,
    attempt: AutoModeTurnAttempt,
) -> bool {
    &&& session matches Some(s) && s.status == AutoModeStatus::Running && s.updated_at_ms
        == attempt.expected_session_updated_at_ms
    &&& stored_checkpoint_sequence == Some(attempt.checkpoint_sequence)
    &&& !has_attempt
}

/// Decides whether a new attempt may be stored against the stored session and checkpoint.
///
/// # Errors
///
/// [`SqlitePersistenceError::AutoModeTurnAttemptConflict`] unless [`attempt_admitted`].
pub fn admit_attempt(
    session: Option<SessionState>,
    stored_checkpoint_sequence: Option<u64>,
    has_attempt: bool,
    attempt: &AutoModeTurnAttempt,
) -> (r: Result<(), SqlitePersistenceError>)
    ensures
        attempt_admitted(session, stored_checkpoint_sequence, has_attempt, *attempt) ==> r is Ok,
        !attempt_admitted(session, stored_checkpoint_sequence, has_attempt, *attempt) ==> r
            == Err::<(), SqlitePersistenceError>(
            SqlitePersistenceError::AutoModeTurnAttemptConflict,
        ),
{
    let running = match session {
        Some(s) => s.status == AutoModeStatus::Running && s.updated_at_ms
            == attempt.expected_session_updated_at_ms,
        None => false,
    };
    let at_sequence = match stored_checkpoint_sequence {
        Some(q) => q == attempt.checkpoint_sequence,
        None => false,
    };
    if !running || !at_sequence || has_attempt {
        return Err(SqlitePersistenceError::AutoModeTurnAttemptConflict);
    }
    Ok(())
}

/// Quarantines an active attempt whose external result cannot be proven.
///
/// # Errors
///
/// [`SqlitePersistenceError::InvalidAutoModeTurnAttempt`] when the attempt is
/// not active, `now_ms` precedes its last update, or `now_ms` exceeds storage range.
pub fn mark_indeterminate(attempt: &AutoModeTurnAttempt, now_ms: u64) -> (r: Result<
    AutoModeTurnAttempt,
    SqlitePersistenceError,
>)
    ensures
        attempt.status == AutoModeTurnAttemptStatus::Active && attempt.updated_at_ms <= now_ms
            <= MAX_STORED ==> (r matches Ok(a) && {
            &&& a.status == AutoModeTurnAttemptStatus::Indeterminate
            &&& a.updated_at_ms == now_ms
            &&& a.id == attempt.id
            &&& a.session_id == attempt.session_id
            &&& a.checkpoint_sequence == attempt.checkpoint_sequence
            &&& a.expected_session_updated_at_ms == attempt.expected_session_updated_at_ms
            &&& a.request_fingerprint@ == attempt.request_fingerprint@
            &&& a.started_at_ms == attempt.started_at_ms
        }),
        !(attempt.status == AutoModeTurnAttemptStatus::Active && attempt.updated_at_ms <= now_ms
            <= MAX_STORED) ==> r == Err::<AutoModeTurnAttempt, SqlitePersistenceError>(
            SqlitePersistenceError::InvalidAutoModeTurnAttempt,
        ),
{
    if attempt.status != AutoModeTurnAttemptStatus::Active || now_ms < attempt.updated_at_ms
        || now_ms > MAX_STORED {
        return Err(SqlitePersistenceError::InvalidAutoModeTurnAttempt);
    }
    Ok(
        AutoModeTurnAttempt {
            id: attempt.id,
            session_id: attempt.session_id,
            checkpoint_sequence: attempt.checkpoint_sequence,
            expected_session_updated_at_ms: attempt.expected_session_updated_at_ms,
            request_fingerprint: attempt.request_fingerprint.clone(),
            status: AutoModeTurnAttemptStatus::Indeterminate,
            started_at_ms: attempt.started_at_ms,
            updated_at_ms: now_ms,
        },
    )
}

/// Rebuilds the stored attempt of a session from its columns.
///
/// # Errors
///
/// [`SqlitePersistenceError::InvalidAutoModeTurnAttempt`] for a negative
/// column, an unknown status name, or an attempt that breaks [`attempt_ok`].
#[allow(clippy::too_many_arguments)]
pub fn attempt_from_row(
    id: u128,
    session_id: u128,
    checkpoint_sequence: i64,
    expected_session_updated_at_ms: i64,
    request_fingerprint: String,
    status: &str,
    started_at_ms: i64,
    updated_at_ms: i64,
) -> (r: Result<AutoModeTurnAttempt, SqlitePersistenceError>)
    ensures
        ({
            let ok = checkpoint_sequence >= 0 && expected_session_updated_at_ms >= 0
                && parsed_turn_attempt_status(status@) is Some && started_at_ms >= 0
                && updated_at_ms >= 0;
            &&& !ok ==> r == Err::<AutoModeTurnAttempt, SqlitePersistenceError>(
                SqlitePersistenceError::InvalidAutoModeTurnAttempt,
            )
            &&& ok ==> {
                let a = AutoModeTurnAttempt {
                    id,
                    session_id,
                    checkpoint_sequence: checkpoint_sequence as u64,
                    expected_session_updated_at_ms: expected_session_updated_at_ms as u64,
                    request_fingerprint,
                    status: parsed_turn_attempt_status(status@).unwrap(),
                    started_at_ms: started_at_ms as u64,
                    updated_at_ms: updated_at_ms as u64,
                };
                &&& attempt_ok(a) ==> r == Ok::<AutoModeTurnAttempt, SqlitePersistenceError>(a)
                &&& !attempt_ok(a) ==> r == Err::<AutoModeTurnAttempt, SqlitePersistenceError>(
                    SqlitePersistenceError::InvalidAutoModeTurnAttempt,
                )
            }
        }),
{
    if checkpoint_sequence < 0 || expected_session_updated_at_ms < 0 {
        return Err(SqlitePersistenceError::InvalidAutoModeTurnAttempt);
    }
    let parsed = match parse_turn_attempt_status(status) {
        Some(s) => s,
        None => {
            return Err(SqlitePersistenceError::InvalidAutoModeTurnAttempt);
        },
    };
    if started_at_ms < 0 || updated_at_ms < 0 {
        return Err(SqlitePersistenceError::InvalidAutoModeTurnAttempt);
    }
    let attempt = AutoModeTurnAttempt {
        id,
        session_id,
        checkpoint_sequence: checkpoint_sequence as u64,
        expected_session_updated_at_ms: expected_session_updated_at_ms as u64,
        request_fingerprint,
        status: parsed,
        started_at_ms: started_at_ms as u64,
        updated_at_ms: updated_at_ms as u64,
    };
    validate_attempt(&attempt)?;
    Ok(attempt)
}

// ----------------------------------------------------------------------------
// Atomic commits
// ----------------------------------------------------------------------------

/// The version columns of a session and checkpoint commit fit storage.
pub open spec fn commit_columns_storable(
    session: SessionState,
    previous_session_updated_at_ms: u64,
    checkpoint: CheckpointState,
    previous_checkpoint_sequence: u64,
) -> bool {
    &&& session.updated_at_ms <= MAX_STORED
    &&& session.plan_revision <= MAX_STORED
    &&& session.created_at_ms <= MAX_STORED
    &&& previous_session_updated_at_ms <= MAX_STORED
    &&& checkpoint.sequence <= MAX_STORED
    &&& checkpoint.updated_at_ms <= MAX_STORED
    &&& checkpoint.plan_revision <= MAX_STORED
    &&& previous_checkpoint_sequence <= MAX_STORED
}

fn columns_storable(
    session: &SessionState,
    previous_session_updated_at_ms: u64,
    checkpoint: &CheckpointState,
    previous_checkpoint_sequence: u64,
) -> (r: bool)
    ensures
        r == commit_columns_storable(
            *session,
            previous_session_updated_at_ms,
            *checkpoint,
            previous_checkpoint_sequence,
        ),
{
    session.updated_at_ms <= MAX_STORED && session.plan_revision <= MAX_STORED
        && session.created_at_ms <= MAX_STORED && previous_session_updated_at_ms <= MAX_STORED
        && checkpoint.sequence <= MAX_STORED && checkpoint.updated_at_ms <= MAX_STORED
        && checkpoint.plan_revision <= MAX_STORED && previous_checkpoint_sequence <= MAX_STORED
}

/// A paused session resumes with its running checkpoint advanced by one.
pub open spec fn resume_commit_ok(
    session: SessionState,
    checkpoint: CheckpointState,
    previous_checkpoint_sequence: u64,
) -> bool {
    &&& session.status == AutoModeStatus::Running
    &&& checkpoint.task_status == AgentTaskStatus::Running
    &&& checkpoint.sequence == next_sequence(previous_checkpoint_sequence)
    &&& checkpoint.bindings_match
}

/// Checks a resume commit before it is written.
///
/// # Errors
///
/// [`SqlitePersistenceError::InvalidAutoModeCheckpoint`] unless
/// [`resume_commit_ok`] holds and the version columns fit storage.
pub fn check_resume_commit(
    session: &SessionState,
    previous_session_updated_at_ms: u64,
    checkpoint: &CheckpointState,
    previous_checkpoint_sequence: u64,
) -> (r: Result<(), SqlitePersistenceError>)
    ensures
        r is Ok <==> resume_commit_ok(*session, *checkpoint, previous_checkpoint_sequence)
            && commit_columns_storable(
            *session,
            previous_session_updated_at_ms,
            *checkpoint,
            previous_checkpoint_sequence,
        ),
        r is Err ==> r == Err::<(), SqlitePersistenceError>(
            SqlitePersistenceError::InvalidAutoModeCheckpoint,
        ),
{
    if session.status != AutoModeStatus::Running || checkpoint.task_status
        != AgentTaskStatus::Running || checkpoint.sequence != saturating_next(
        previous_checkpoint_sequence,
    ) || !checkpoint.bindings_match {
        return Err(SqlitePersistenceError::InvalidAutoModeCheckpoint);
    }
    if !columns_storable(
        session,
        previous_session_updated_at_ms,
        checkpoint,
        previous_checkpoint_sequence,
    ) {
        return Err(SqlitePersistenceError::InvalidAutoModeCheckpoint);
    }
    Ok(())
}

/// Session and task states that a finished turn may leave together.
pub open spec fn turn_coupled(status: AutoModeStatus, task: AgentTaskStatus) -> bool {
    ||| status == AutoModeStatus::Running && task == AgentTaskStatus::Running
    ||| status == AutoModeStatus::Paused && task == AgentTaskStatus::Paused
    ||| status == AutoModeStatus::Completed && task == AgentTaskStatus::Succeeded
}

/// A turn commits against the active attempt that was begun for exactly the
/// previous session version and checkpoint sequence.
pub open spec fn turn_commit_ok(
    attempt: AutoModeTurnAttempt,
    session: SessionState,
    previous_session_updated_at_ms: u64,
    checkpoint: CheckpointState,
    previous_checkpoint_sequence: u64,
) -> bool {
    &&& attempt.status == AutoModeTurnAttemptStatus::Active
    &&& attempt.session_id == session.id
    &&& attempt.checkpoint_sequence == previous_checkpoint_sequence
    &&& attempt.expected_session_updated_at_ms == previous_session_updated_at_ms
    &&& turn_coupled(session.status, checkpoint.task_status)
    &&& checkpoint.sequence == next_sequence(previous_checkpoint_sequence)
    &&& checkpoint.bindings_match
}

/// Checks a turn commit before it is written.
///
/// # Errors
///
/// [`SqlitePersistenceError::InvalidAutoModeCheckpoint`] unless
/// [`turn_commit_ok`] holds and the version columns fit storage.
pub fn check_turn_commit(
    attempt: &AutoModeTurnAttempt,
    session: &SessionState,
    previous_session_updated_at_ms: u64,
    checkpoint: &CheckpointState,
    previous_checkpoint_sequence: u64,
) -> (r: Result<(), SqlitePersistenceError>)
    ensures
        r is Ok <==> turn_commit_ok(
            *attempt,
            *session,
            previous_session_updated_at_ms,
            *checkpoint,
            previous_checkpoint_sequence,
        ) && commit_columns_storable(
            *session,
            previous_session_updated_at_ms,
            *checkpoint,
            previous_checkpoint_sequence,
        ),
        r is Err ==> r == Err::<(), SqlitePersistenceError>(
            SqlitePersistenceError::InvalidAutoModeCheckpoint,
        ),
{
    let coupled = match (session.status, checkpoint.task_status) {
        (AutoModeStatus::Running, AgentTaskStatus::Running) => true,
        (AutoModeStatus::Paused, AgentTaskStatus::Paused) => true,
        (AutoModeStatus::Completed, AgentTaskStatus::Succeeded) => true,
        _ => false,
    };
    if attempt.status != AutoModeTurnAttemptStatus::Active || attempt.session_id != session.id
        || attempt.checkpoint_sequence != previous_checkpoint_sequence
        || attempt.expected_session_updated_at_ms != previous_session_updated_at_ms || !coupled
        || checkpoint.sequence != saturating_next(previous_checkpoint_sequence)
        || !checkpoint.bindings_match {
        return Err(SqlitePersistenceError::InvalidAutoModeCheckpoint);
    }
    if !columns_storable(
        session,
        previous_session_updated_at_ms,
        checkpoint,
        previous_checkpoint_sequence,
    ) {
        return Err(SqlitePersistenceError::InvalidAutoModeCheckpoint);
    }
    Ok(())
}

/// Session and task states that a host pause or cancellation leaves together.
pub open spec fn host_control_coupled(status: AutoModeStatus, task: AgentTaskStatus) -> bool {
    ||| status == AutoModeStatus::Paused && task == AgentTaskStatus::Paused
    ||| status == AutoModeStatus::Cancelled && task == AgentTaskStatus::Cancelled
}

/// A host pause or cancellation at a clean boundary.
pub open spec fn host_control_commit_ok(
    session: SessionState,
    checkpoint: CheckpointState,
    previous_checkpoint_sequence: u64,
) -> bool {
    &&& host_control_coupled(session.status, checkpoint.task_status)
    &&& checkpoint.sequence == next_sequence(previous_checkpoint_sequence)
    &&& checkpoint.bindings_match
}

/// Checks a host-requested pause or cancellation before it is written.
///
/// # Errors
///
/// [`SqlitePersistenceError::InvalidAutoModeCheckpoint`] unless
/// [`host_control_commit_ok`] holds and the version columns fit storage.
pub fn check_host_control_commit(
    session: &SessionState,
    previous_session_updated_at_ms: u64,
    checkpoint: &CheckpointState,
    previous_checkpoint_sequence: u64,
) -> (r: Result<(), SqlitePersistenceError>)
    ensures
        r is Ok <==> host_control_commit_ok(*session, *checkpoint, previous_checkpoint_sequence)
            && commit_columns_storable(
            *session,
            previous_session_updated_at_ms,
            *checkpoint,
            previous_checkpoint_sequence,
        ),
        r is Err ==> r == Err::<(), SqlitePersistenceError>(
            SqlitePersistenceError::InvalidAutoModeCheckpoint,
        ),
{
    let coupled = match (session.status, checkpoint.task_status) {
        (AutoModeStatus::Paused, AgentTaskStatus::Paused) => true,
        (AutoModeStatus::Cancelled, AgentTaskStatus::Cancelled) => true,
        _ => false,
    };
    if !coupled || checkpoint.sequence != saturating_next(previous_checkpoint_sequence)
        || !checkpoint.bindings_match {
        return Err(SqlitePersistenceError::InvalidAutoModeCheckpoint);
    }
    if !columns_storable(
        session,
        previous_session_updated_at_ms,
        checkpoint,
        previous_checkpoint_sequence,
    ) {
        return Err(SqlitePersistenceError::InvalidAutoModeCheckpoint);
    }
    Ok(())
}

/// The Workspace snapshot that a drifting turn appends, as the drift commit reads it.
#[derive(Debug, Clone, PartialEq, Eq)]
pub struct WorkspaceSuccessor {
    pub session_id: u128,
    pub revision: u64,
    pub parent_fingerprint: Option<String>,
    pub created_at_ms: u64,
}

/// A turn that found its Workspace changed pauses, and the observed Workspace
/// becomes the next revision after the one it was planned against.
pub open spec fn drift_commit_ok(
    session: SessionState,
    checkpoint: CheckpointState,
    previous_checkpoint_sequence: u64,
    workspace: WorkspaceSuccessor,
    previous_workspace_revision: u64,
    previous_workspace_fingerprint: Seq<char>,
) -> bool {
    &&& session.status == AutoModeStatus::Paused
    &&& session.pause_reason == Some(AutoModePauseReason::WorkspaceChanged)
    &&& checkpoint.task_status == AgentTaskStatus::Paused
    &&& checkpoint.sequence == next_sequence(previous_checkpoint_sequence)
    &&& workspace.session_id == session.id
    &&& workspace.revision == next_sequence(previous_workspace_revision)
    &&& workspace.parent_fingerprint matches Some(p) && p@ == previous_workspace_fingerprint
}

/// The version columns of a drift commit fit storage.
pub open spec fn drift_columns_storable(
    session: SessionState,
    previous_session_updated_at_ms: u64,
    checkpoint: CheckpointState,
    previous_checkpoint_sequence: u64,
    workspace: WorkspaceSuccessor,
    previous_workspace_revision: u64,
) -> bool {
    &&& session.updated_at_ms <= MAX_STORED
    &&& previous_session_updated_at_ms <= MAX_STORED
    &&& checkpoint.sequence <= MAX_STORED
    &&& checkpoint.updated_at_ms <= MAX_STORED
    &&& previous_checkpoint_sequence <= MAX_STORED
    &&& workspace.revision <= MAX_STORED
    &&& workspace.created_at_ms <= MAX_STORED
    &&& previous_workspace_revision <= MAX_STORED
}

/// Checks a Workspace drift commit before it is written.
///
/// # Errors
///
/// [`SqlitePersistenceError::InvalidWorkspaceSnapshot`] unless
/// [`drift_commit_ok`] holds, then
/// [`SqlitePersistenceError::InvalidAutoModeCheckpoint`] unless the version
/// columns fit storage.
pub fn check_workspace_drift_commit(
    session: &SessionState,
    previous_session_updated_at_ms: u64,
    checkpoint: &CheckpointState,
    previous_checkpoint_sequence: u64,
    workspace: &WorkspaceSuccessor,
    previous_workspace_revision: u64,
    previous_workspace_fingerprint: &str,
) -> (r: Result<(), SqlitePersistenceError>)
    ensures
        !drift_commit_ok(
            *session,
            *checkpoint,
            previous_checkpoint_sequence,
            *workspace,
            previous_workspace_revision,
            previous_workspace_fingerprint@,
        ) ==> r == Err::<(), SqlitePersistenceError>(
            SqlitePersistenceError::InvalidWorkspaceSnapshot,
        ),
        drift_commit_ok(
            *session,
            *checkpoint,
            previous_checkpoint_sequence,
            *workspace,
            previous_workspace_revision,
            previous_workspace_fingerprint@,
        ) ==> if drift_columns_storable(
            *session,
            previous_session_updated_at_ms,
            *checkpoint,
            previous_checkpoint_sequence,
            *workspace,
            previous_workspace_revision,
        ) {
            r is Ok
        } else {
            r == Err::<(), SqlitePersistenceError>(SqlitePersistenceError::InvalidAutoModeCheckpoint)
        },
{
    let parent_matches = match &workspace.parent_fingerprint {
        Some(p) => str_equal(p.as_str(), previous_workspace_fingerprint),
        None => false,
    };
    if session.status != AutoModeStatus::Paused || session.pause_reason != Some(
        AutoModePauseReason::WorkspaceChanged,
    ) || checkpoint.task_status != AgentTaskStatus::Paused || checkpoint.sequence
        != saturating_next(previous_checkpoint_sequence) || workspace.session_id != session.id
        || workspace.revision != saturating_next(previous_workspace_revision) || !parent_matches {
        return Err(SqlitePersistenceError::InvalidWorkspaceSnapshot);
    }
    if session.updated_at_ms > MAX_STORED || previous_session_updated_at_ms > MAX_STORED
        || checkpoint.sequence > MAX_STORED || checkpoint.updated_at_ms > MAX_STORED
        || previous_checkpoint_sequence > MAX_STORED || workspace.revision > MAX_STORED
        || workspace.created_at_ms > MAX_STORED || previous_workspace_revision > MAX_STORED {
        return Err(SqlitePersistenceError::InvalidAutoModeCheckpoint);
    }
    Ok(())
}

/// Every accepted commit advances the checkpoint by exactly one step, and a
/// finished turn leaves the session and its task in matching states.
pub proof fn law_commits_advance_checkpoint(
    attempt: AutoModeTurnAttempt,
    session: SessionState,
    previous_session_updated_at_ms: u64,
    checkpoint: CheckpointState,
    previous_checkpoint_sequence: u64,
)
    ensures
        resume_commit_ok(session, checkpoint, previous_checkpoint_sequence) ==> checkpoint.sequence
            == next_sequence(previous_checkpoint_sequence),
        host_control_commit_ok(session, checkpoint, previous_checkpoint_sequence)
            ==> checkpoint.sequence == next_sequence(previous_checkpoint_sequence)
            && session.status != AutoModeStatus::Running,
        turn_commit_ok(
            attempt,
            session,
            previous_session_updated_at_ms,
            checkpoint,
            previous_checkpoint_sequence,
        ) ==> checkpoint.sequence == next_sequence(previous_checkpoint_sequence)
            && attempt.status == AutoModeTurnAttemptStatus::Active && (session.status
            == AutoModeStatus::Completed <==> checkpoint.task_status
            == AgentTaskStatus::Succeeded),
{
}

// ----------------------------------------------------------------------------
// Manual resolution of indeterminate attempts
// ----------------------------------------------------------------------------

/// An operator's request to resolve the indeterminate attempt of a session.
#[derive(Debug, Clone, PartialEq, Eq)]
pub struct ResolveAutoModeAttemptRequest {
    pub session_id: u128,
    pub attempt_id: u128,
    pub checkpoint_sequence: u64,
    pub request_fingerprint: String,
    pub decision: AutoModeAttemptResolutionDecision,
    pub actor: String,
    pub reason: Option<String>,
    pub resolved_at_ms: u64,
}

/// The immutable audit record of one manual resolution.
#[derive(Debug, Clone, PartialEq, Eq)]
pub struct AutoModeAttemptResolution {
    pub spec: String,
    pub id: u128,
    pub session_id: u128,
    pub attempt_id: u128,
    pub checkpoint_sequence: u64,
    pub request_fingerprint: String,
    pub decision: AutoModeAttemptResolutionDecision,
    pub actor: String,
    pub reason: Option<String>,
    pub resolved_at_ms: u64,
}

/// An optional reason of at most 2 KiB without control characters.
pub open spec fn reason_ok(reason: Option<String>) -> bool {
    match reason {
        None => true,
        Some(r) => encode_utf8(r@).len() <= MAX_REASON_BYTES && !has_control_char(r@),
    }
}

fn valid_reason(reason: &Option<String>) -> (r: bool)
    ensures
        r == reason_ok(*reason),
{
    match reason {
        None => true,
        Some(text) => text.as_str().as_bytes().len() <= MAX_REASON_BYTES && !contains_control(
            text.as_str(),
        ),
    }
}

/// The fields shared by requests and resolutions are acceptable.
pub open spec fn resolution_fields_ok(
    checkpoint_sequence: u64,
    request_fingerprint: Seq<char>,
    actor: Seq<char>,
    reason: Option<String>,
) -> bool {
    &&& checkpoint_sequence != 0
    &&& name_ok(request_fingerprint, MAX_FINGERPRINT_BYTES as int)
    &&& name_ok(actor, MAX_ACTOR_BYTES as int)
    &&& reason_ok(reason)
}

/// Checks a resolution request before anything is read.
///
/// # Errors
///
/// [`SqlitePersistenceError::InvalidAutoModeAttemptResolution`] unless
/// [`resolution_fields_ok`] holds.
pub fn validate_resolution_request(request: &ResolveAutoModeAttemptRequest) -> (r: Result<
    (),
    SqlitePersistenceError,
>)
    ensures
        r is Ok <==> resolution_fields_ok(
            request.checkpoint_sequence,
            request.request_fingerprint@,
            request.actor@,
            request.reason,
        ),
        r is Err ==> r == Err::<(), SqlitePersistenceError>(
            SqlitePersistenceError::InvalidAutoModeAttemptResolution,
        ),
{
    if request.checkpoint_sequence == 0 || !valid_name(
        request.request_fingerprint.as_str(),
        MAX_FINGERPRINT_BYTES,
    ) || !valid_name(request.actor.as_str(), MAX_ACTOR_BYTES) || !valid_reason(&request.reason) {
        return Err(SqlitePersistenceError::InvalidAutoModeAttemptResolution);
    }
    Ok(())
}

/// A stored resolution is acceptable.
pub open spec fn resolution_ok(value: AutoModeAttemptResolution) -> bool {
    value.spec@ == ATTEMPT_RESOLUTION_SPEC@ && resolution_fields_ok(
        value.checkpoint_sequence,
        value.request_fingerprint@,
        value.actor@,
        value.reason,
    )
}

/// Checks a stored resolution.
///
/// # Errors
///
/// [`SqlitePersistenceError::InvalidAutoModeAttemptResolution`] unless [`resolution_ok`].
pub fn validate_resolution(value: &AutoModeAttemptResolution) -> (r: Result<
    (),
    SqlitePersistenceError,
>)
    ensures
        r is Ok <==> resolution_ok(*value),
        r is Err ==> r == Err::<(), SqlitePersistenceError>(
            SqlitePersistenceError::InvalidAutoModeAttemptResolution,
        ),
{
    if !str_equal(value.spec.as_str(), ATTEMPT_RESOLUTION_SPEC) || value.checkpoint_sequence == 0
        || !valid_name(value.request_fingerprint.as_str(), MAX_FINGERPRINT_BYTES) || !valid_name(
        value.actor.as_str(),
        MAX_ACTOR_BYTES,
    ) || !valid_reason(&value.reason) {
        return Err(SqlitePersistenceError::InvalidAutoModeAttemptResolution);
    }
    Ok(())
}

/// The request names the session's indeterminate attempt, its checkpoint is
/// still at that sequence and bound to the session, and the resolution time
/// is not before any of their updates.
pub open spec fn resolution_target_ok(
    request: ResolveAutoModeAttemptRequest,
    attempt: AutoModeTurnAttempt,
    session: SessionState,
    checkpoint: CheckpointState,
) -> bool {
    &&& attempt.status == AutoModeTurnAttemptStatus::Indeterminate
    &&& attempt.id == request.attempt_id
    &&& attempt.checkpoint_sequence == request.checkpoint_sequence
    &&& attempt.request_fingerprint@ == request.request_fingerprint@
    &&& checkpoint.sequence == request.checkpoint_sequence
    &&& attempt.updated_at_ms <= request.resolved_at_ms
    &&& session.updated_at_ms <= request.resolved_at_ms
    &&& checkpoint.updated_at_ms <= request.resolved_at_ms
    &&& checkpoint.bindings_match
}

/// Checks that a resolution request still names the stored attempt, session
/// and checkpoint.
///
/// # Errors
///
/// [`SqlitePersistenceError::AutoModeAttemptResolutionConflict`] when any of
/// them is missing or [`resolution_target_ok`] fails (a replayed or stale request).
pub fn check_resolution_target(
    request: &ResolveAutoModeAttemptRequest,
    attempt: Option<&AutoModeTurnAttempt>,
    session: Option<SessionState>,
    checkpoint: Option<CheckpointState>,
) -> (r: Result<(), SqlitePersistenceError>)
    ensures
        r is Ok <==> (attempt matches Some(a) && session matches Some(s) && checkpoint matches Some(
            c,
        ) && resolution_target_ok(*request, *a, s, c)),
        r is Err ==> r == Err::<(), SqlitePersistenceError>(
            SqlitePersistenceError::AutoModeAttemptResolutionConflict,
        ),
{
    let attempt = match attempt {
        Some(a) => a,
        None => {
            return Err(SqlitePersistenceError::AutoModeAttemptResolutionConflict);
        },
    };
    if attempt.status != AutoModeTurnAttemptStatus::Indeterminate || attempt.id
        != request.attempt_id || attempt.checkpoint_sequence != request.checkpoint_sequence
        || !str_equal(attempt.request_fingerprint.as_str(), request.request_fingerprint.as_str()) {
        return Err(SqlitePersistenceError::AutoModeAttemptResolutionConflict);
    }
    let (session, checkpoint) = match (session, checkpoint) {
        (Some(s), Some(c)) => (s, c),
        _ => {
            return Err(SqlitePersistenceError::AutoModeAttemptResolutionConflict);
        },
    };
    if checkpoint.sequence != request.checkpoint_sequence || request.resolved_at_ms
        < attempt.updated_at_ms || request.resolved_at_ms < session.updated_at_ms
        || request.resolved_at_ms < checkpoint.updated_at_ms || !checkpoint.bindings_match {
        return Err(SqlitePersistenceError::AutoModeAttemptResolutionConflict);
    }
    Ok(())
}

/// What a resolution does to the session or to its task.
#[derive(Debug, Clone, Copy, PartialEq, Eq, Structural)]
pub enum ResolutionStep {
    Keep,
    Pause,
    Cancel,
}

/// The steps that converge a session and its checkpoint's task on a decision.
#[derive(Debug, Clone, Copy, PartialEq, Eq, Structural)]
pub struct Convergence {
    /// A session pause is for [`AutoModePauseReason::UserRequested`].
    pub session: ResolutionStep,
    pub task: ResolutionStep,
}

/// Converging on "not executed" pauses what runs and keeps what is paused;
/// accepting the external effect cancels both.
pub open spec fn convergence_for(
    decision: AutoModeAttemptResolutionDecision,
    session: AutoModeStatus,
    task: AgentTaskStatus,
) -> Option<Convergence> {
    match decision {
        AutoModeAttemptResolutionDecision::ConfirmedNotExecuted => {
            let s = match session {
                AutoModeStatus::Running => Some(ResolutionStep::Pause),
                AutoModeStatus::Paused => Some(ResolutionStep::Keep),
                _ => None,
            };
            let t = match task {
                AgentTaskStatus::Running => Some(ResolutionStep::Pause),
                AgentTaskStatus::Paused => Some(ResolutionStep::Keep),
                _ => None,
            };
            match (s, t) {
                (Some(a), Some(b)) => Some(Convergence { session: a, task: b }),
                _ => None,
            }
        },
        AutoModeAttemptResolutionDecision::AcceptExternalEffectAndCancel => Some(
            Convergence { session: ResolutionStep::Cancel, task: ResolutionStep::Cancel },
        ),
    }
}

/// Plans how a decision converges the session and its task.
///
/// # Errors
///
/// [`SqlitePersistenceError::InvalidAutoModeAttemptResolution`] when "not
/// executed" meets a session or task that neither runs nor is paused.
pub fn plan_convergence(
    decision: AutoModeAttemptResolutionDecision,
    session: AutoModeStatus,
    task: AgentTaskStatus,
) -> (r: Result<Convergence, SqlitePersistenceError>)
    ensures
        match convergence_for(decision, session, task) {
            Some(c) => r == Ok::<Convergence, SqlitePersistenceError>(c),
            None => r == Err::<Convergence, SqlitePersistenceError>(
                SqlitePersistenceError::InvalidAutoModeAttemptResolution,
            ),
        },
        decision == AutoModeAttemptResolutionDecision::AcceptExternalEffectAndCancel ==> r == Ok::<
            Convergence,
            SqlitePersistenceError,
        >(Convergence { session: ResolutionStep::Cancel, task: ResolutionStep::Cancel }),
        decision == AutoModeAttemptResolutionDecision::ConfirmedNotExecuted ==> (r matches Ok(c) ==> (
        c.session != ResolutionStep::Cancel && c.task != ResolutionStep::Cancel)),
{
    match decision {
        AutoModeAttemptResolutionDecision::ConfirmedNotExecuted => {
            let s = match session {
                AutoModeStatus::Running => ResolutionStep::Pause,
                AutoModeStatus::Paused => ResolutionStep::Keep,
                _ => {
                    return Err(SqlitePersistenceError::InvalidAutoModeAttemptResolution);
                },
            };
            let t = match task {
                AgentTaskStatus::Running => ResolutionStep::Pause,
                AgentTaskStatus::Paused => ResolutionStep::Keep,
                _ => {
                    return Err(SqlitePersistenceError::InvalidAutoModeAttemptResolution);
                },
            };
            Ok(Convergence { session: s, task: t })
        },
        AutoModeAttemptResolutionDecision::AcceptExternalEffectAndCancel => Ok(
            Convergence { session: ResolutionStep::Cancel, task: ResolutionStep::Cancel },
        ),
    }
}

/// The session status after a step.
pub open spec fn status_after(step: ResolutionStep, status: AutoModeStatus) -> AutoModeStatus {
    match step {
        ResolutionStep::Keep => status,
        ResolutionStep::Pause => AutoModeStatus::Paused,
        ResolutionStep::Cancel => AutoModeStatus::Cancelled,
    }
}

/// A manual resolution never leaves a session running or completed: it is
/// paused when the attempt is confirmed not executed, and cancelled when its
/// external effect is accepted.
pub proof fn law_resolution_never_resumes(
    decision: AutoModeAttemptResolutionDecision,
    session: AutoModeStatus,
    task: AgentTaskStatus,
)
    requires
        convergence_for(decision, session, task) is Some,
    ensures
        ({
            let after = status_after(convergence_for(decision, session, task).unwrap().session, session);
            &&& decision == AutoModeAttemptResolutionDecision::ConfirmedNotExecuted ==> after
                == AutoModeStatus::Paused
            &&& decision == AutoModeAttemptResolutionDecision::AcceptExternalEffectAndCancel
                ==> after == AutoModeStatus::Cancelled
        }),
{
}

/// The task status after a step.
pub open spec fn task_after(step: ResolutionStep, task: AgentTaskStatus) -> AgentTaskStatus {
    match step {
        ResolutionStep::Keep => task,
        ResolutionStep::Pause => AgentTaskStatus::Paused,
        ResolutionStep::Cancel => AgentTaskStatus::Cancelled,
    }
}

/// Law: accepting the external effect cancels both the session and its
/// checkpoint's task, whatever their states; confirming it not executed
/// leaves both paused, and is refused unless each runs or is paused.
pub proof fn law_resolution_converges_both(
    decision: AutoModeAttemptResolutionDecision,
    session: AutoModeStatus,
    task: AgentTaskStatus,
)
    ensures
        decision == AutoModeAttemptResolutionDecision::AcceptExternalEffectAndCancel ==> (
        convergence_for(decision, session, task) matches Some(c) && status_after(c.session, session)
            == AutoModeStatus::Cancelled && task_after(c.task, task) == AgentTaskStatus::Cancelled),
        decision == AutoModeAttemptResolutionDecision::ConfirmedNotExecuted ==> (convergence_for(
            decision,
            session,
            task,
        ) is Some <==> ((session == AutoModeStatus::Running || session == AutoModeStatus::Paused)
            && (task == AgentTaskStatus::Running || task == AgentTaskStatus::Paused))),
        decision == AutoModeAttemptResolutionDecision::ConfirmedNotExecuted ==> (convergence_for(
            decision,
            session,
            task,
        ) matches Some(c) ==> (status_after(c.session, session) == AutoModeStatus::Paused
            && task_after(c.task, task) == AgentTaskStatus::Paused)),
{
}

/// The resolution's columns and the advanced checkpoint fit storage.
pub open spec fn resolution_storable(request: ResolveAutoModeAttemptRequest) -> bool {
    next_sequence(request.checkpoint_sequence) <= MAX_STORED && request.resolved_at_ms <= MAX_STORED
}

/// The audit record of a request, under the identifier `id`.
///
/// # Errors
///
/// [`SqlitePersistenceError::InvalidAutoModeAttemptResolution`] when the
/// advanced checkpoint sequence or the resolution time exceeds storage range.
pub fn resolution_for(request: &ResolveAutoModeAttemptRequest, id: u128) -> (r: Result<
    AutoModeAttemptResolution,
    SqlitePersistenceError,
>)
    ensures
        resolution_storable(*request) ==> (r matches Ok(v) && {
            &&& v.spec@ == ATTEMPT_RESOLUTION_SPEC@
            &&& v.id == id
            &&& v.session_id == request.session_id
            &&& v.attempt_id == request.attempt_id
            &&& v.checkpoint_sequence == request.checkpoint_sequence
            &&& v.request_fingerprint@ == request.request_fingerprint@
            &&& v.decision == request.decision
            &&& v.actor@ == request.actor@
            &&& opt_text(v.reason) == opt_text(request.reason)
            &&& v.resolved_at_ms == request.resolved_at_ms
        }),
        !resolution_storable(*request) ==> r == Err::<
            AutoModeAttemptResolution,
            SqlitePersistenceError,
        >(SqlitePersistenceError::InvalidAutoModeAttemptResolution),
{
    if saturating_next(request.checkpoint_sequence) > MAX_STORED || request.resolved_at_ms
        > MAX_STORED {
        return Err(SqlitePersistenceError::InvalidAutoModeAttemptResolution);
    }
    let reason = match &request.reason {
        Some(text) => Some(text.clone()),
        None => None,
    };
    Ok(
        AutoModeAttemptResolution {
            spec: ATTEMPT_RESOLUTION_SPEC.to_owned(),
            id,
            session_id: request.session_id,
            attempt_id: request.attempt_id,
            checkpoint_sequence: request.checkpoint_sequence,
            request_fingerprint: request.request_fingerprint.clone(),
            decision: request.decision,
            actor: request.actor.clone(),
            reason,
            resolved_at_ms: request.resolved_at_ms,
        },
    )
}

/// The characters of an optional text.
pub open spec fn opt_text(s: Option<String>) -> Option<Seq<char>> {
    match s {
        Some(t) => Some(t@),
        None => None,
    }
}

/// The indexed columns of a stored resolution.
#[derive(Debug, Clone, PartialEq, Eq)]
pub struct ResolutionRow {
    pub schema_version: u32,
    pub resolution_id: u128,
    pub attempt_id: u128,
    pub checkpoint_sequence: i64,
    pub request_fingerprint: String,
    pub decision: String,
    pub actor: String,
    pub reason: Option<String>,
    pub resolved_at_ms: i64,
}

/// A stored resolution agrees with the columns that index it.
pub open spec fn resolution_matches_row(
    value: AutoModeAttemptResolution,
    session_id: u128,
    row: ResolutionRow,
) -> bool {
    &&& value.session_id == session_id
    &&& value.id == row.resolution_id
    &&& value.attempt_id == row.attempt_id
    &&& value.checkpoint_sequence as int == row.checkpoint_sequence as int
    &&& value.request_fingerprint@ == row.request_fingerprint@
    &&& crate::journals::decision_label(value.decision) == row.decision@
    &&& value.actor@ == row.actor@
    &&& opt_text(value.reason) == opt_text(row.reason)
    &&& value.resolved_at_ms as int == row.resolved_at_ms as int
}

/// Checks one listed resolution of `session_id` against its row.
///
/// # Errors
///
/// [`SqlitePersistenceError::InvalidAutoModeAttemptResolution`] for another
/// payload version, a resolution that breaks [`resolution_ok`], or one that
/// disagrees with its row.
pub fn check_resolution_row(
    row: &ResolutionRow,
    value: &AutoModeAttemptResolution,
    session_id: u128,
) -> (r: Result<(), SqlitePersistenceError>)
    ensures
        r is Ok <==> row.schema_version == RESOLUTION_VERSION && resolution_ok(*value)
            && resolution_matches_row(*value, session_id, *row),
        r is Err ==> r == Err::<(), SqlitePersistenceError>(
            SqlitePersistenceError::InvalidAutoModeAttemptResolution,
        ),
{
    if row.schema_version != RESOLUTION_VERSION {
        return Err(SqlitePersistenceError::InvalidAutoModeAttemptResolution);
    }
    validate_resolution(value)?;
    let reasons_equal = match (&value.reason, &row.reason) {
        (None, None) => true,
        (Some(a), Some(b)) => str_equal(a.as_str(), b.as_str()),
        _ => false,
    };
    if value.session_id != session_id || value.id != row.resolution_id || value.attempt_id
        != row.attempt_id || row.checkpoint_sequence < 0 || value.checkpoint_sequence
        != row.checkpoint_sequence as u64 || !str_equal(
        value.request_fingerprint.as_str(),
        row.request_fingerprint.as_str(),
    ) || !str_equal(crate::journals::decision_name(value.decision), row.decision.as_str())
        || !str_equal(value.actor.as_str(), row.actor.as_str()) || !reasons_equal
        || row.resolved_at_ms < 0 || value.resolved_at_ms != row.resolved_at_ms as u64 {
        return Err(SqlitePersistenceError::InvalidAutoModeAttemptResolution);
    }
    Ok(())
}

/// Checks the size of a page of resolutions.
///
/// # Errors
///
/// [`SqlitePersistenceError::InvalidAutoModeAttemptResolution`] unless `1 <= limit <= 100`.
pub fn validate_resolution_page(limit: usize) -> (r: Result<(), SqlitePersistenceError>)
    ensures
        r is Ok <==> 1 <= limit <= MAX_RESOLUTION_PAGE,
        r is Err ==> r == Err::<(), SqlitePersistenceError>(
            SqlitePersistenceError::InvalidAutoModeAttemptResolution,
        ),
{
    if limit == 0 || limit > MAX_RESOLUTION_PAGE {
        return Err(SqlitePersistenceError::InvalidAutoModeAttemptResolution);
    }
    Ok(())
}

// ----------------------------------------------------------------------------
// Sessions
// ----------------------------------------------------------------------------

/// Largest page of sessions.
pub const MAX_SESSION_PAGE: usize = 256;

/// Checks the size of a page of sessions.
///
/// # Errors
///
/// [`SqlitePersistenceError::InvalidAutoModeSession`] unless `1 <= limit <= 256`.
pub fn validate_session_page(limit: usize) -> (r: Result<(), SqlitePersistenceError>)
    ensures
        r is Ok <==> 1 <= limit <= MAX_SESSION_PAGE,
        r is Err ==> r == Err::<(), SqlitePersistenceError>(
            SqlitePersistenceError::InvalidAutoModeSession,
        ),
{
    if limit == 0 || limit > MAX_SESSION_PAGE {
        return Err(SqlitePersistenceError::InvalidAutoModeSession);
    }
    Ok(())
}

/// A session needs a restart projection: it was paused by a restart, or it
/// has a turn attempt outstanding.
pub open spec fn needs_recovery(session: SessionState, has_attempt: bool) -> bool {
    (session.status == AutoModeStatus::Paused && session.pause_reason == Some(
        AutoModePauseReason::Restarted,
    )) || has_attempt
}

/// Whether a session needs a restart projection.
pub fn is_recoverable(session: &SessionState, has_attempt: bool) -> (r: bool)
    ensures
        r == needs_recovery(*session, has_attempt),
{
    (session.status == AutoModeStatus::Paused && session.pause_reason == Some(
        AutoModePauseReason::Restarted,
    )) || has_attempt
}

/// Refuses a listing of recoverable sessions that would be truncated.
///
/// # Errors
///
/// [`SqlitePersistenceError::InvalidAutoModeSession`] for a page size outside
/// `1..=256`, or when more than `limit` sessions need recovery.
pub fn check_recoverable_page(found: usize, limit: usize) -> (r: Result<(), SqlitePersistenceError>)
    ensures
        r is Ok <==> 1 <= limit <= MAX_SESSION_PAGE && found <= limit,
        r is Err ==> r == Err::<(), SqlitePersistenceError>(
            SqlitePersistenceError::InvalidAutoModeSession,
        ),
{
    validate_session_page(limit)?;
    if found > limit {
        return Err(SqlitePersistenceError::InvalidAutoModeSession);
    }
    Ok(())
}

/// An update of a session never moves its time backwards, and its version
/// columns fit storage.
pub open spec fn session_update_ok(session: SessionState, previous_updated_at_ms: u64) -> bool {
    &&& previous_updated_at_ms <= session.updated_at_ms
    &&& session.updated_at_ms <= MAX_STORED
    &&& session.plan_revision <= MAX_STORED
    &&& session.created_at_ms <= MAX_STORED
}

/// Checks a session update before it is written.
///
/// # Errors
///
/// [`SqlitePersistenceError::InvalidAutoModeSession`] unless [`session_update_ok`].
pub fn check_session_update(session: &SessionState, previous_updated_at_ms: u64) -> (r: Result<
    (),
    SqlitePersistenceError,
>)
    ensures
        r is Ok <==> session_update_ok(*session, previous_updated_at_ms),
        r is Err ==> r == Err::<(), SqlitePersistenceError>(
            SqlitePersistenceError::InvalidAutoModeSession,
        ),
{
    if session.updated_at_ms < previous_updated_at_ms || session.updated_at_ms > MAX_STORED
        || session.plan_revision > MAX_STORED || session.created_at_ms > MAX_STORED {
        return Err(SqlitePersistenceError::InvalidAutoModeSession);
    }
    Ok(())
}

/// The indexed columns of a stored session.
#[derive(Debug, Clone, PartialEq, Eq)]
pub struct SessionRow {
    pub schema_version: u32,
    pub goal_id: u128,
    pub plan_revision: i64,
    pub status: String,
    pub pause_reason: Option<String>,
    pub created_at_ms: i64,
    pub updated_at_ms: i64,
}

/// The stored name of an optional pause reason.
pub open spec fn reason_label(reason: Option<AutoModePauseReason>) -> Option<Seq<char>> {
    match reason {
        Some(r) => Some(pause_reason_label(r)),
        None => None,
    }
}

/// A loaded session agrees with the columns that index it.
pub open spec fn session_matches_row(
    session: SessionState,
    goal_id: u128,
    id: u128,
    row: SessionRow,
) -> bool {
    &&& session.id == id
    &&& goal_id == row.goal_id
    &&& session.plan_revision as int == row.plan_revision as int
    &&& status_label(session.status) == row.status@
    &&& reason_label(session.pause_reason) == opt_text(row.pause_reason)
    &&& session.created_at_ms as int == row.created_at_ms as int
    &&& session.updated_at_ms as int == row.updated_at_ms as int
}

/// Checks a loaded session (whose payload names `goal_id`) against its row,
/// looked up under `id`.
///
/// # Errors
///
/// [`SqlitePersistenceError::UnsupportedAutoModeSessionVersion`] for another
/// payload version, and [`SqlitePersistenceError::InvalidAutoModeSession`]
/// when a column exceeds storage range or disagrees with the payload.
pub fn check_session_row(row: &SessionRow, session: &SessionState, goal_id: u128, id: u128) -> (r:
    Result<(), SqlitePersistenceError>)
    ensures
        row.schema_version != 1 ==> r == Err::<(), SqlitePersistenceError>(
            SqlitePersistenceError::UnsupportedAutoModeSessionVersion(row.schema_version),
        ),
        row.schema_version == 1 ==> (r is Ok <==> session_matches_row(*session, goal_id, id, *row)),
        row.schema_version == 1 && r is Err ==> r == Err::<(), SqlitePersistenceError>(
            SqlitePersistenceError::InvalidAutoModeSession,
        ),
{
    if row.schema_version != 1 {
        return Err(SqlitePersistenceError::UnsupportedAutoModeSessionVersion(row.schema_version));
    }
    let reason_matches = match (session.pause_reason, &row.pause_reason) {
        (None, None) => true,
        (Some(reason), Some(stored)) => str_equal(pause_reason_name(reason), stored.as_str()),
        _ => false,
    };
    if session.id != id || goal_id != row.goal_id || row.plan_revision < 0 || session.plan_revision
        != row.plan_revision as u64 || !str_equal(status_name(session.status), row.status.as_str())
        || !reason_matches || row.created_at_ms < 0 || session.created_at_ms
        != row.created_at_ms as u64 || row.updated_at_ms < 0 || session.updated_at_ms
        != row.updated_at_ms as u64 {
        return Err(SqlitePersistenceError::InvalidAutoModeSession);
    }
    Ok(())
}

/// A running session paused by a restart at `now_ms`.
pub open spec fn restart_paused(session: SessionState, now_ms: u64) -> SessionState {
    SessionState {
        status: AutoModeStatus::Paused,
        pause_reason: Some(AutoModePauseReason::Restarted),
        updated_at_ms: now_ms,
        ..session
    }
}

/// Every running session can be paused at `now_ms`: none was updated later,
/// and `now_ms` fits storage.
pub open spec fn restart_ok(sessions: Seq<SessionState>, now_ms: u64) -> bool {
    &&& now_ms <= MAX_STORED
    &&& forall|i: int|
        0 <= i < sessions.len() && #[trigger] sessions[i].status == AutoModeStatus::Running
            ==> sessions[i].updated_at_ms <= now_ms
}

/// After a host restart, pauses every running session with reason
/// `Restarted` at `now_ms` and counts them; other sessions are unchanged.
/// Nothing ever resumes on its own.
///
/// # Errors
///
/// [`SqlitePersistenceError::InvalidAutoModeSession`] when time would move
/// backwards for a running session or `now_ms` exceeds storage range; then
/// nothing changes.
pub fn pause_running_after_restart(sessions: &mut Vec<SessionState>, now_ms: u64) -> (r: Result<
    usize,
    SqlitePersistenceError,
>)
    ensures
        restart_ok(old(sessions)@, now_ms) ==> r is Ok && final(sessions)@.len() == old(
            sessions,
        )@.len() && (forall|i: int|
            0 <= i < old(sessions)@.len() ==> #[trigger] final(sessions)@[i] == if old(
                sessions,
            )@[i].status == AutoModeStatus::Running {
                restart_paused(old(sessions)@[i], now_ms)
            } else {
                old(sessions)@[i]
            }),
        !restart_ok(old(sessions)@, now_ms) ==> r == Err::<usize, SqlitePersistenceError>(
            SqlitePersistenceError::InvalidAutoModeSession,
        ) && final(sessions)@ == old(sessions)@,
        r is Ok ==> forall|i: int|
            0 <= i < final(sessions)@.len() ==> #[trigger] final(sessions)@[i].status
                != AutoModeStatus::Running,
        r matches Ok(n) ==> n <= old(sessions)@.len(),
{
    if now_ms > MAX_STORED {
        return Err(SqlitePersistenceError::InvalidAutoModeSession);
    }
    let mut k: usize = 0;
    while k < sessions.len()
        invariant
            0 <= k <= sessions@.len(),
            now_ms <= MAX_STORED,
            sessions@ == old(sessions)@,
            forall|i: int|
                0 <= i < k && #[trigger] sessions@[i].status == AutoModeStatus::Running
                    ==> sessions@[i].updated_at_ms <= now_ms,
        decreases sessions@.len() - k,
    {
        if sessions[k].status == AutoModeStatus::Running && sessions[k].updated_at_ms > now_ms {
            return Err(SqlitePersistenceError::InvalidAutoModeSession);
        }
        k = k + 1;
    }
    let ghost o = sessions@;
    let mut count: usize = 0;
    let mut i: usize = 0;
    while i < sessions.len()
        invariant
            0 <= i <= sessions@.len(),
            sessions@.len() == o.len(),
            count <= i,
            o == old(sessions)@,
            forall|j: int|
                0 <= j < i ==> #[trigger] sessions@[j] == if o[j].status == AutoModeStatus::Running {
                    restart_paused(o[j], now_ms)
                } else {
                    o[j]
                },
            forall|j: int| i <= j < sessions@.len() ==> #[trigger] sessions@[j] == o[j],
        decreases sessions@.len() - i,
    {
        if sessions[i].status == AutoModeStatus::Running {
            let s = sessions[i];
            sessions.set(
                i,
                SessionState {
                    status: AutoModeStatus::Paused,
                    pause_reason: Some(AutoModePauseReason::Restarted),
                    updated_at_ms: now_ms,
                    ..s
                },
            );
            count = count + 1;
        }
        i = i + 1;
    }
    Ok(count)
}

// ----------------------------------------------------------------------------
// Checkpoints
// ----------------------------------------------------------------------------

/// What the checkpoint store reads of a checkpoint.
#[derive(Debug, Clone, Copy, PartialEq, Eq, Structural)]
pub struct CheckpointRecord {
    pub session_id: u128,
    pub goal_id: u128,
    pub plan_revision: u64,
    pub sequence: u64,
    pub task_id: u128,
    pub updated_at_ms: u64,
}

/// One row of the checkpoint table: its indexed columns beside the checkpoint.
#[derive(Debug, Clone, Copy, PartialEq, Eq, Structural)]
pub struct CheckpointRow {
    pub session_id: u128,
    pub goal_id: u128,
    pub plan_revision: i64,
    pub sequence: i64,
    pub task_id: u128,
    pub updated_at_ms: i64,
    pub schema_version: u32,
    pub record: CheckpointRecord,
}

/// What storage answers a second checkpoint for one session.
pub const DUPLICATE_CHECKPOINT: &'static str =
    "UNIQUE constraint failed: auto_mode_checkpoint.session_id";

/// What storage answers a checkpoint without a plan revision.
pub const CHECKPOINT_REVISION_CHECK: &'static str = "CHECK constraint failed: plan_revision > 0";

/// The row that stores `record`.
pub open spec fn checkpoint_row_of(record: CheckpointRecord) -> CheckpointRow {
    CheckpointRow {
        session_id: record.session_id,
        goal_id: record.goal_id,
        plan_revision: record.plan_revision as i64,
        sequence: record.sequence as i64,
        task_id: record.task_id,
        updated_at_ms: record.updated_at_ms as i64,
        schema_version: 1,
        record,
    }
}

fn row_for(record: CheckpointRecord) -> (r: CheckpointRow)
    requires
        record.plan_revision <= MAX_STORED,
        record.sequence <= MAX_STORED,
        record.updated_at_ms <= MAX_STORED,
    ensures
        r == checkpoint_row_of(record),
{
    CheckpointRow {
        session_id: record.session_id,
        goal_id: record.goal_id,
        plan_revision: record.plan_revision as i64,
        sequence: record.sequence as i64,
        task_id: record.task_id,
        updated_at_ms: record.updated_at_ms as i64,
        schema_version: 1,
        record,
    }
}

/// The checkpoint's columns fit storage.
pub open spec fn checkpoint_storable(record: CheckpointRecord) -> bool {
    record.plan_revision <= MAX_STORED && record.sequence <= MAX_STORED && record.updated_at_ms
        <= MAX_STORED
}

/// Some row holds the session's checkpoint.
pub open spec fn has_checkpoint(rows: Seq<CheckpointRow>, session_id: u128) -> bool {
    exists|i: int| 0 <= i < rows.len() && rows[i].session_id == session_id
}

fn find_checkpoint(rows: &Vec<CheckpointRow>, session_id: u128) -> (r: Option<usize>)
    ensures
        match r {
            Some(i) => i < rows@.len() && rows@[i as int].session_id == session_id,
            None => !has_checkpoint(rows@, session_id),
        },
{
    let mut i: usize = 0;
    while i < rows.len()
        invariant
            0 <= i <= rows@.len(),
            forall|k: int| 0 <= k < i ==> #[trigger] rows@[k].session_id != session_id,
        decreases rows@.len() - i,
    {
        if rows[i].session_id == session_id {
            return Some(i);
        }
        i = i + 1;
    }
    None
}

/// Stores the first checkpoint of a session.
///
/// # Errors
///
/// [`SqlitePersistenceError::InvalidAutoModeCheckpoint`] for a sequence other
/// than 1 or a column beyond storage range, and a storage error for a zero
/// plan revision or a second checkpoint of the session; the rows are then unchanged.
pub fn create_checkpoint(rows: &mut Vec<CheckpointRow>, record: CheckpointRecord) -> (r: Result<
    (),
    SqlitePersistenceError,
>)
    ensures
        record.sequence != 1 || !checkpoint_storable(record) ==> r == Err::<
            (),
            SqlitePersistenceError,
        >(SqlitePersistenceError::InvalidAutoModeCheckpoint),
        record.sequence == 1 && checkpoint_storable(record) && record.plan_revision == 0 ==> (
        r matches Err(SqlitePersistenceError::Sqlite(m)) && m@ == CHECKPOINT_REVISION_CHECK@),
        record.sequence == 1 && checkpoint_storable(record) && record.plan_revision > 0
            && has_checkpoint(old(rows)@, record.session_id) ==> (r matches Err(
            SqlitePersistenceError::Sqlite(m),
        ) && m@ == DUPLICATE_CHECKPOINT@),
        r is Err ==> final(rows)@ == old(rows)@,
        r is Ok <==> record.sequence == 1 && checkpoint_storable(record) && !has_checkpoint(
            old(rows)@,
            record.session_id,
        ) && record.plan_revision > 0,
        r is Ok ==> final(rows)@ == old(rows)@.push(checkpoint_row_of(record)),
{
    if record.sequence != 1 || record.plan_revision > MAX_STORED || record.sequence > MAX_STORED
        || record.updated_at_ms > MAX_STORED {
        return Err(SqlitePersistenceError::InvalidAutoModeCheckpoint);
    }
    if record.plan_revision == 0 {
        return Err(SqlitePersistenceError::Sqlite(CHECKPOINT_REVISION_CHECK.to_owned()));
    }
    if find_checkpoint(rows, record.session_id).is_some() {
        return Err(SqlitePersistenceError::Sqlite(DUPLICATE_CHECKPOINT.to_owned()));
    }
    rows.push(row_for(record));
    Ok(())
}

/// The row the replacement applies to: the session's checkpoint for the same
/// goal and plan revision at the previous sequence.
pub open spec fn replaceable(row: CheckpointRow, record: CheckpointRecord, previous_sequence: u64) -> bool {
    &&& row.session_id == record.session_id
    &&& row.goal_id == record.goal_id
    &&& row.plan_revision as int == record.plan_revision as int
    &&& row.sequence as int == previous_sequence as int
}

/// Replaces a session's checkpoint with its successor when the stored one is
/// still at `previous_sequence`.
///
/// # Errors
///
/// [`SqlitePersistenceError::InvalidAutoModeCheckpoint`] unless the sequence
/// advances by one and the columns fit storage, and
/// [`SqlitePersistenceError::AutoModeCheckpointConflict`] when no stored
/// checkpoint is at the previous sequence; the rows are then unchanged.
pub fn replace_checkpoint(
    rows: &mut Vec<CheckpointRow>,
    record: CheckpointRecord,
    previous_sequence: u64,
) -> (r: Result<(), SqlitePersistenceError>)
    ensures
        record.sequence != next_sequence(previous_sequence) || !checkpoint_storable(record)
            || previous_sequence > MAX_STORED ==> r == Err::<(), SqlitePersistenceError>(
            SqlitePersistenceError::InvalidAutoModeCheckpoint,
        ),
        r is Err ==> final(rows)@ == old(rows)@,
        record.sequence == next_sequence(previous_sequence) && checkpoint_storable(record)
            && previous_sequence <= MAX_STORED ==> if exists|i: int|
            0 <= i < old(rows)@.len() && #[trigger] replaceable(
                old(rows)@[i],
                record,
                previous_sequence,
            ) {
            r is Ok
        } else {
            r == Err::<(), SqlitePersistenceError>(SqlitePersistenceError::AutoModeCheckpointConflict)
        },
        r is Ok ==> exists|i: int|
            0 <= i < old(rows)@.len() && replaceable(old(rows)@[i], record, previous_sequence)
                && final(rows)@ == old(rows)@.update(
                i,
                CheckpointRow {
                    sequence: record.sequence as i64,
                    task_id: record.task_id,
                    updated_at_ms: record.updated_at_ms as i64,
                    record,
                    ..old(rows)@[i]
                },
            ),
{
    if record.sequence != saturating_next(previous_sequence) || record.plan_revision > MAX_STORED
        || record.sequence > MAX_STORED || record.updated_at_ms > MAX_STORED || previous_sequence
        > MAX_STORED {
        return Err(SqlitePersistenceError::InvalidAutoModeCheckpoint);
    }
    let mut i: usize = 0;
    while i < rows.len()
        invariant
            0 <= i <= rows@.len(),
            rows@ == old(rows)@,
            previous_sequence <= MAX_STORED,
            record.sequence == next_sequence(previous_sequence),
            checkpoint_storable(record),
            forall|k: int| 0 <= k < i ==> !#[trigger] replaceable(rows@[k], record, previous_sequence),
        decreases rows@.len() - i,
    {
        let row = rows[i];
        if row.session_id == record.session_id && row.goal_id == record.goal_id
            && row.plan_revision == record.plan_revision as i64 && row.sequence
            == previous_sequence as i64 {
            assert(replaceable(old(rows)@[i as int], record, previous_sequence));
            let updated = CheckpointRow {
                sequence: record.sequence as i64,
                task_id: record.task_id,
                updated_at_ms: record.updated_at_ms as i64,
                record,
                ..row
            };
            rows.set(i, updated);
            return Ok(());
        }
        i = i + 1;
    }
    Err(SqlitePersistenceError::AutoModeCheckpointConflict)
}

/// What loading a session's checkpoint fails with, if anything.
pub open spec fn checkpoint_row_error(row: CheckpointRow, session_id: u128) -> Option<SqlitePersistenceError> {
    if row.schema_version != 1 {
        Some(SqlitePersistenceError::UnsupportedAutoModeCheckpointVersion(row.schema_version))
    } else if !(row.record.session_id == session_id && row.record.goal_id == row.goal_id
        && row.record.plan_revision as int == row.plan_revision as int && row.record.sequence as int
        == row.sequence as int && row.record.task_id == row.task_id && row.record.updated_at_ms as int
        == row.updated_at_ms as int) {
        Some(SqlitePersistenceError::InvalidAutoModeCheckpoint)
    } else {
        None
    }
}

/// Loads the checkpoint of a session, checking it against its columns.
///
/// # Errors
///
/// [`SqlitePersistenceError::UnsupportedAutoModeCheckpointVersion`] for
/// another payload version, and
/// [`SqlitePersistenceError::InvalidAutoModeCheckpoint`] when the checkpoint
/// disagrees with its columns.
pub fn get_checkpoint(rows: &Vec<CheckpointRow>, session_id: u128) -> (r: Result<
    Option<CheckpointRecord>,
    SqlitePersistenceError,
>)
    ensures
        !has_checkpoint(rows@, session_id) ==> r == Ok::<Option<CheckpointRecord>, SqlitePersistenceError>(
            None,
        ),
        has_checkpoint(rows@, session_id) ==> exists|i: int|
            0 <= i < rows@.len() && rows@[i].session_id == session_id && match checkpoint_row_error(
                rows@[i],
                session_id,
            ) {
                Some(e) => r == Err::<Option<CheckpointRecord>, SqlitePersistenceError>(e),
                None => r == Ok::<Option<CheckpointRecord>, SqlitePersistenceError>(
                    Some(rows@[i].record),
                ),
            },
{
    let i = match find_checkpoint(rows, session_id) {
        None => {
            return Ok(None);
        },
        Some(i) => i,
    };
    let row = rows[i];
    if row.schema_version != 1 {
        return Err(SqlitePersistenceError::UnsupportedAutoModeCheckpointVersion(row.schema_version));
    }
    let c = row.record;
    if !(c.session_id == session_id && c.goal_id == row.goal_id && row.plan_revision >= 0
        && c.plan_revision == row.plan_revision as u64 && row.sequence >= 0 && c.sequence
        == row.sequence as u64 && c.task_id == row.task_id && row.updated_at_ms >= 0
        && c.updated_at_ms == row.updated_at_ms as u64) {
        return Err(SqlitePersistenceError::InvalidAutoModeCheckpoint);
    }
    Ok(Some(c))
}

} // verus!
