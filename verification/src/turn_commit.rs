//! The atomic Auto Mode commits over the stored rows.
//!
//! A finished turn writes three rows together: the session moves on from the
//! version the turn was begun against, the checkpoint advances by one, and
//! the turn's active attempt is deleted. A resume or a host pause or
//! cancellation writes the session and its checkpoint; a turn that found its
//! Workspace changed also appends the Workspace successor. Each commit
//! changes all of its rows or none.
use crate::agent_journal::MAX_STORED;
use crate::auto_mode::{
    check_host_control_commit, check_resume_commit, check_turn_commit,
    check_workspace_drift_commit, commit_columns_storable, drift_columns_storable,
    drift_commit_ok, host_control_commit_ok, replaceable, resume_commit_ok, turn_commit_ok,
    AutoModeStatus, AutoModeTurnAttempt, CheckpointRecord, CheckpointRow, CheckpointState,
    SessionState, WorkspaceSuccessor,
};
use crate::workspace_snapshots::{
    find_fingerprint, has_fingerprint, row_for, stores, StoredWorkspaceSnapshot,
    WorkspaceSnapshotRow, DUPLICATE_FINGERPRINT,
};
use crate::error::SqlitePersistenceError;
use crate::journals::AutoModeTurnAttemptStatus;
use crate::text::str_equal;
use vstd::prelude::*;

verus! {

/// One stored session: its state beside the goal it runs for.
#[derive(Debug, Clone, Copy, PartialEq, Eq, Structural)]
pub struct StoredSession {
    pub goal_id: u128,
    pub state: SessionState,
}

/// The stored session is the running version that the turn was begun
/// against: same identity, goal, plan revision and creation time, last
/// updated at `previous_updated_at_ms`.
pub open spec fn session_current(
    stored: StoredSession,
    session: SessionState,
    goal_id: u128,
    previous_updated_at_ms: u64,
) -> bool {
    &&& stored.state.id == session.id
    &&& stored.goal_id == goal_id
    &&& stored.state.plan_revision == session.plan_revision
    &&& stored.state.created_at_ms == session.created_at_ms
    &&& stored.state.updated_at_ms == previous_updated_at_ms
    &&& stored.state.status == AutoModeStatus::Running
}

/// The stored attempt is the turn's attempt, still active.
pub open spec fn attempt_current(stored: AutoModeTurnAttempt, attempt: AutoModeTurnAttempt) -> bool {
    &&& stored.session_id == attempt.session_id
    &&& stored.id == attempt.id
    &&& stored.checkpoint_sequence == attempt.checkpoint_sequence
    &&& stored.expected_session_updated_at_ms == attempt.expected_session_updated_at_ms
    &&& stored.request_fingerprint@ == attempt.request_fingerprint@
    &&& stored.status == AutoModeTurnAttemptStatus::Active
}

/// The checkpoint record a turn writes: the checkpoint of the session's goal
/// with the task it ran.
pub open spec fn turn_record(checkpoint: CheckpointState, goal_id: u128, task_id: u128) -> CheckpointRecord {
    CheckpointRecord {
        session_id: checkpoint.session_id,
        goal_id,
        plan_revision: checkpoint.plan_revision,
        sequence: checkpoint.sequence,
        task_id,
        updated_at_ms: checkpoint.updated_at_ms,
    }
}

/// The checkpoint row after the commit.
pub open spec fn advanced_row(row: CheckpointRow, record: CheckpointRecord) -> CheckpointRow {
    CheckpointRow {
        sequence: record.sequence as i64,
        task_id: record.task_id,
        updated_at_ms: record.updated_at_ms as i64,
        record,
        ..row
    }
}

/// `i` is the first position whose element satisfies `p`.
pub open spec fn first_match<T>(items: Seq<T>, p: spec_fn(T) -> bool, i: int) -> bool {
    &&& 0 <= i < items.len()
    &&& p(items[i])
    &&& forall|j: int| 0 <= j < i ==> !p(#[trigger] items[j])
}

/// The three rows a turn commit changes, all present and current.
pub open spec fn turn_rows_current(
    sessions: Seq<StoredSession>,
    checkpoints: Seq<CheckpointRow>,
    attempts: Seq<AutoModeTurnAttempt>,
    attempt: AutoModeTurnAttempt,
    session: SessionState,
    previous_session_updated_at_ms: u64,
    record: CheckpointRecord,
    previous_checkpoint_sequence: u64,
) -> bool {
    &&& exists|i: int|
        0 <= i < sessions.len() && session_current(
            #[trigger] sessions[i],
            session,
            record.goal_id,
            previous_session_updated_at_ms,
        )
    &&& exists|j: int|
        0 <= j < checkpoints.len() && replaceable(
            #[trigger] checkpoints[j],
            record,
            previous_checkpoint_sequence,
        )
    &&& exists|k: int| 0 <= k < attempts.len() && attempt_current(#[trigger] attempts[k], attempt)
}

/// Commits one completed, continuing or paused turn of the session whose
/// goal is `goal_id`: the session is written, its checkpoint advanced to
/// `checkpoint` with `task_id`, and the active attempt deleted, all three or
/// none.
///
/// # Errors
///
/// [`SqlitePersistenceError::InvalidAutoModeCheckpoint`] unless
/// [`turn_commit_ok`] holds and the versions fit storage, and
/// [`SqlitePersistenceError::AutoModeCommitConflict`] when the stored
/// session, checkpoint or attempt is not the one the turn was begun against.
/// The rows are then unchanged.
#[verifier::rlimit(30)]
pub fn commit_turn(
    sessions: &mut Vec<StoredSession>,
    checkpoints: &mut Vec<CheckpointRow>,
    attempts: &mut Vec<AutoModeTurnAttempt>,
    attempt: &AutoModeTurnAttempt,
    session: &SessionState,
    goal_id: u128,
    previous_session_updated_at_ms: u64,
    checkpoint: &CheckpointState,
    task_id: u128,
    previous_checkpoint_sequence: u64,
) -> (r: Result<(), SqlitePersistenceError>)
    ensures
        !(turn_commit_ok(
            *attempt,
            *session,
            previous_session_updated_at_ms,
            *checkpoint,
            previous_checkpoint_sequence,
        ) && commit_columns_storable(
            *session,
            previous_session_updated_at_ms,
            *checkpoint,
            previous_checkpoint_sequence,
        )) ==> r == Err::<(), SqlitePersistenceError>(
            SqlitePersistenceError::InvalidAutoModeCheckpoint,
        ),
        turn_commit_ok(
            *attempt,
            *session,
            previous_session_updated_at_ms,
            *checkpoint,
            previous_checkpoint_sequence,
        ) && commit_columns_storable(
            *session,
            previous_session_updated_at_ms,
            *checkpoint,
            previous_checkpoint_sequence,
        ) ==> if turn_rows_current(
            old(sessions)@,
            old(checkpoints)@,
            old(attempts)@,
            *attempt,
            *session,
            previous_session_updated_at_ms,
            turn_record(*checkpoint, goal_id, task_id),
            previous_checkpoint_sequence,
        ) {
            r is Ok
        } else {
            r == Err::<(), SqlitePersistenceError>(SqlitePersistenceError::AutoModeCommitConflict)
        },
        r is Err ==> final(sessions)@ == old(sessions)@ && final(checkpoints)@ == old(checkpoints)@
            && final(attempts)@ == old(attempts)@,
        r is Ok ==> exists|i: int, j: int, k: int|
            {
                &&& first_match(
                    old(sessions)@,
                    |s: StoredSession|
                        session_current(s, *session, goal_id, previous_session_updated_at_ms),
                    i,
                )
                &&& first_match(
                    old(checkpoints)@,
                    |c: CheckpointRow|
                        replaceable(
                            c,
                            turn_record(*checkpoint, goal_id, task_id),
                            previous_checkpoint_sequence,
                        ),
                    j,
                )
                &&& first_match(
                    old(attempts)@,
                    |a: AutoModeTurnAttempt| attempt_current(a, *attempt),
                    k,
                )
                &&& final(sessions)@ == old(sessions)@.update(
                    i,
                    StoredSession { goal_id, state: *session },
                )
                &&& final(checkpoints)@ == old(checkpoints)@.update(
                    j,
                    advanced_row(old(checkpoints)@[j], turn_record(*checkpoint, goal_id, task_id)),
                )
                &&& final(attempts)@ == old(attempts)@.remove(k)
            },
{
    match check_turn_commit(
        attempt,
        session,
        previous_session_updated_at_ms,
        checkpoint,
        previous_checkpoint_sequence,
    ) {
        Ok(()) => {},
        Err(e) => return Err(e),
    }
    let record = CheckpointRecord {
        session_id: checkpoint.session_id,
        goal_id,
        plan_revision: checkpoint.plan_revision,
        sequence: checkpoint.sequence,
        task_id,
        updated_at_ms: checkpoint.updated_at_ms,
    };
    // The session row.
    let mut i: usize = 0;
    while i < sessions.len()
        invariant
            0 <= i <= sessions@.len(),
            forall|m: int|
                0 <= m < i ==> !session_current(
                    #[trigger] sessions@[m],
                    *session,
                    goal_id,
                    previous_session_updated_at_ms,
                ),
        ensures
            0 <= i <= sessions@.len(),
            forall|m: int|
                0 <= m < i ==> !session_current(
                    #[trigger] sessions@[m],
                    *session,
                    goal_id,
                    previous_session_updated_at_ms,
                ),
            i < sessions@.len() ==> session_current(
                sessions@[i as int],
                *session,
                goal_id,
                previous_session_updated_at_ms,
            ),
        decreases sessions@.len() - i,
    {
        let s = sessions[i];
        if s.state.id == session.id && s.goal_id == goal_id && s.state.plan_revision
            == session.plan_revision && s.state.created_at_ms == session.created_at_ms
            && s.state.updated_at_ms == previous_session_updated_at_ms && s.state.status
            == AutoModeStatus::Running {
            break ;
        }
        i = i + 1;
    }
    if i == sessions.len() {
        return Err(SqlitePersistenceError::AutoModeCommitConflict);
    }
    // The checkpoint row.
    let mut j: usize = 0;
    while j < checkpoints.len()
        invariant
            0 <= j <= checkpoints@.len(),
            record.plan_revision <= MAX_STORED,
            previous_checkpoint_sequence <= MAX_STORED,
            forall|m: int|
                0 <= m < j ==> !replaceable(
                    #[trigger] checkpoints@[m],
                    record,
                    previous_checkpoint_sequence,
                ),
        ensures
            0 <= j <= checkpoints@.len(),
            forall|m: int|
                0 <= m < j ==> !replaceable(
                    #[trigger] checkpoints@[m],
                    record,
                    previous_checkpoint_sequence,
                ),
            j < checkpoints@.len() ==> replaceable(
                checkpoints@[j as int],
                record,
                previous_checkpoint_sequence,
            ),
        decreases checkpoints@.len() - j,
    {
        let c = checkpoints[j];
        if c.session_id == record.session_id && c.goal_id == record.goal_id && c.plan_revision
            == record.plan_revision as i64 && c.sequence == previous_checkpoint_sequence as i64 {
            break ;
        }
        j = j + 1;
    }
    if j == checkpoints.len() {
        return Err(SqlitePersistenceError::AutoModeCommitConflict);
    }
    // The attempt row.
    let mut k: usize = 0;
    while k < attempts.len()
        invariant
            0 <= k <= attempts@.len(),
            forall|m: int| 0 <= m < k ==> !attempt_current(#[trigger] attempts@[m], *attempt),
        ensures
            0 <= k <= attempts@.len(),
            forall|m: int| 0 <= m < k ==> !attempt_current(#[trigger] attempts@[m], *attempt),
            k < attempts@.len() ==> attempt_current(attempts@[k as int], *attempt),
        decreases attempts@.len() - k,
    {
        let a = &attempts[k];
        if a.session_id == attempt.session_id && a.id == attempt.id && a.checkpoint_sequence
            == attempt.checkpoint_sequence && a.expected_session_updated_at_ms
            == attempt.expected_session_updated_at_ms && str_equal(
            a.request_fingerprint.as_str(),
            attempt.request_fingerprint.as_str(),
        ) && a.status == AutoModeTurnAttemptStatus::Active {
            break ;
        }
        k = k + 1;
    }
    if k == attempts.len() {
        return Err(SqlitePersistenceError::AutoModeCommitConflict);
    }
    let ghost old_sessions = sessions@;
    let ghost old_checkpoints = checkpoints@;
    let ghost old_attempts = attempts@;
    let ghost sp = |s: StoredSession|
        session_current(s, *session, goal_id, previous_session_updated_at_ms);
    let ghost cp = |c: CheckpointRow| replaceable(c, record, previous_checkpoint_sequence);
    let ghost ap = |a: AutoModeTurnAttempt| attempt_current(a, *attempt);
    proof {
        assert forall|m: int| 0 <= m < i implies !sp(#[trigger] old_sessions[m]) by {
            assert(!session_current(old_sessions[m], *session, goal_id, previous_session_updated_at_ms));
        }
        assert forall|m: int| 0 <= m < j implies !cp(#[trigger] old_checkpoints[m]) by {
            assert(!replaceable(old_checkpoints[m], record, previous_checkpoint_sequence));
        }
        assert forall|m: int| 0 <= m < k implies !ap(#[trigger] old_attempts[m]) by {
            assert(!attempt_current(old_attempts[m], *attempt));
        }
        assert(first_match(old_sessions, sp, i as int));
        assert(first_match(old_checkpoints, cp, j as int));
        assert(first_match(old_attempts, ap, k as int));
    }
    sessions.set(i, StoredSession { goal_id, state: *session });
    let row = checkpoints[j];
    let advanced = CheckpointRow {
        sequence: record.sequence as i64,
        task_id: record.task_id,
        updated_at_ms: record.updated_at_ms as i64,
        record,
        ..row
    };
    checkpoints.set(j, advanced);
    attempts.remove(k);
    proof {
        assert(record == turn_record(*checkpoint, goal_id, task_id));
        assert(record.sequence <= MAX_STORED);
    }
    Ok(())
}


// ----------------------------------------------------------------------------
// Two-row commits: resume and host control
// ----------------------------------------------------------------------------

/// The stored session is the version a commit was checked against: same
/// identity, goal, plan revision and creation time, last updated at
/// `previous_updated_at_ms`, in `status`.
pub open spec fn session_at(
    stored: StoredSession,
    session: SessionState,
    goal_id: u128,
    previous_updated_at_ms: u64,
    status: AutoModeStatus,
) -> bool {
    &&& stored.state.id == session.id
    &&& stored.goal_id == goal_id
    &&& stored.state.plan_revision == session.plan_revision
    &&& stored.state.created_at_ms == session.created_at_ms
    &&& stored.state.updated_at_ms == previous_updated_at_ms
    &&& stored.state.status == status
}

fn find_session(
    sessions: &Vec<StoredSession>,
    session: &SessionState,
    goal_id: u128,
    previous_updated_at_ms: u64,
    status: AutoModeStatus,
) -> (r: Option<usize>)
    ensures
        match r {
            Some(i) => i < sessions@.len() && session_at(
                sessions@[i as int],
                *session,
                goal_id,
                previous_updated_at_ms,
                status,
            ) && forall|m: int|
                0 <= m < i ==> !session_at(
                    #[trigger] sessions@[m],
                    *session,
                    goal_id,
                    previous_updated_at_ms,
                    status,
                ),
            None => forall|m: int|
                0 <= m < sessions@.len() ==> !session_at(
                    #[trigger] sessions@[m],
                    *session,
                    goal_id,
                    previous_updated_at_ms,
                    status,
                ),
        },
{
    let mut i: usize = 0;
    while i < sessions.len()
        invariant
            0 <= i <= sessions@.len(),
            forall|m: int|
                0 <= m < i ==> !session_at(
                    #[trigger] sessions@[m],
                    *session,
                    goal_id,
                    previous_updated_at_ms,
                    status,
                ),
        decreases sessions@.len() - i,
    {
        let s = sessions[i];
        if s.state.id == session.id && s.goal_id == goal_id && s.state.plan_revision
            == session.plan_revision && s.state.created_at_ms == session.created_at_ms
            && s.state.updated_at_ms == previous_updated_at_ms && s.state.status == status {
            return Some(i);
        }
        i = i + 1;
    }
    None
}

fn find_checkpoint_row(checkpoints: &Vec<CheckpointRow>, record: CheckpointRecord, previous_sequence: u64) -> (r:
    Option<usize>)
    requires
        record.plan_revision <= MAX_STORED,
        previous_sequence <= MAX_STORED,
    ensures
        match r {
            Some(j) => j < checkpoints@.len() && replaceable(
                checkpoints@[j as int],
                record,
                previous_sequence,
            ) && forall|m: int|
                0 <= m < j ==> !replaceable(#[trigger] checkpoints@[m], record, previous_sequence),
            None => forall|m: int|
                0 <= m < checkpoints@.len() ==> !replaceable(
                    #[trigger] checkpoints@[m],
                    record,
                    previous_sequence,
                ),
        },
{
    let mut j: usize = 0;
    while j < checkpoints.len()
        invariant
            0 <= j <= checkpoints@.len(),
            record.plan_revision <= MAX_STORED,
            previous_sequence <= MAX_STORED,
            forall|m: int|
                0 <= m < j ==> !replaceable(#[trigger] checkpoints@[m], record, previous_sequence),
        decreases checkpoints@.len() - j,
    {
        let c = checkpoints[j];
        if c.session_id == record.session_id && c.goal_id == record.goal_id && c.plan_revision
            == record.plan_revision as i64 && c.sequence == previous_sequence as i64 {
            return Some(j);
        }
        j = j + 1;
    }
    None
}

/// What a two-row commit leaves: the first stored session at the checked
/// version in `status` becomes `written`, and the first checkpoint at the
/// previous sequence advances to `record`.
pub open spec fn two_rows_written(
    old_sessions: Seq<StoredSession>,
    old_checkpoints: Seq<CheckpointRow>,
    new_sessions: Seq<StoredSession>,
    new_checkpoints: Seq<CheckpointRow>,
    session: SessionState,
    goal_id: u128,
    previous_session_updated_at_ms: u64,
    status: AutoModeStatus,
    written: SessionState,
    record: CheckpointRecord,
    previous_checkpoint_sequence: u64,
) -> bool {
    exists|i: int, j: int|
        {
            &&& first_match(
                old_sessions,
                |s: StoredSession| session_at(s, session, goal_id, previous_session_updated_at_ms, status),
                i,
            )
            &&& first_match(
                old_checkpoints,
                |c: CheckpointRow| replaceable(c, record, previous_checkpoint_sequence),
                j,
            )
            &&& new_sessions == old_sessions.update(i, StoredSession { goal_id, state: written })
            &&& new_checkpoints == old_checkpoints.update(j, advanced_row(old_checkpoints[j], record))
        }
}

/// Both rows of a two-row commit are stored at the checked versions.
pub open spec fn two_rows_current(
    sessions: Seq<StoredSession>,
    checkpoints: Seq<CheckpointRow>,
    session: SessionState,
    goal_id: u128,
    previous_session_updated_at_ms: u64,
    status: AutoModeStatus,
    record: CheckpointRecord,
    previous_checkpoint_sequence: u64,
) -> bool {
    &&& exists|i: int|
        0 <= i < sessions.len() && session_at(
            #[trigger] sessions[i],
            session,
            goal_id,
            previous_session_updated_at_ms,
            status,
        )
    &&& exists|j: int|
        0 <= j < checkpoints.len() && replaceable(
            #[trigger] checkpoints[j],
            record,
            previous_checkpoint_sequence,
        )
}

/// Writes a checked two-row commit: the session found in `status` becomes
/// `written` and its checkpoint advances to `record`, both or neither.
fn write_two_rows(
    sessions: &mut Vec<StoredSession>,
    checkpoints: &mut Vec<CheckpointRow>,
    session: &SessionState,
    goal_id: u128,
    previous_session_updated_at_ms: u64,
    status: AutoModeStatus,
    written: SessionState,
    record: CheckpointRecord,
    previous_checkpoint_sequence: u64,
) -> (r: Result<(), SqlitePersistenceError>)
    requires
        record.plan_revision <= MAX_STORED,
        record.sequence <= MAX_STORED,
        record.updated_at_ms <= MAX_STORED,
        previous_checkpoint_sequence <= MAX_STORED,
    ensures
        two_rows_current(
            old(sessions)@,
            old(checkpoints)@,
            *session,
            goal_id,
            previous_session_updated_at_ms,
            status,
            record,
            previous_checkpoint_sequence,
        ) ==> r is Ok,
        !two_rows_current(
            old(sessions)@,
            old(checkpoints)@,
            *session,
            goal_id,
            previous_session_updated_at_ms,
            status,
            record,
            previous_checkpoint_sequence,
        ) ==> r == Err::<(), SqlitePersistenceError>(SqlitePersistenceError::AutoModeCommitConflict),
        r is Err ==> final(sessions)@ == old(sessions)@ && final(checkpoints)@ == old(checkpoints)@,
        r is Ok ==> two_rows_written(
            old(sessions)@,
            old(checkpoints)@,
            final(sessions)@,
            final(checkpoints)@,
            *session,
            goal_id,
            previous_session_updated_at_ms,
            status,
            written,
            record,
            previous_checkpoint_sequence,
        ),
{
    let i = match find_session(sessions, session, goal_id, previous_session_updated_at_ms, status) {
        Some(i) => i,
        None => return Err(SqlitePersistenceError::AutoModeCommitConflict),
    };
    let j = match find_checkpoint_row(checkpoints, record, previous_checkpoint_sequence) {
        Some(j) => j,
        None => return Err(SqlitePersistenceError::AutoModeCommitConflict),
    };
    let ghost old_sessions = sessions@;
    let ghost old_checkpoints = checkpoints@;
    let ghost sp = |s: StoredSession|
        session_at(s, *session, goal_id, previous_session_updated_at_ms, status);
    let ghost cp = |c: CheckpointRow| replaceable(c, record, previous_checkpoint_sequence);
    proof {
        assert forall|m: int| 0 <= m < i implies !sp(#[trigger] old_sessions[m]) by {
            assert(!session_at(old_sessions[m], *session, goal_id, previous_session_updated_at_ms, status));
        }
        assert forall|m: int| 0 <= m < j implies !cp(#[trigger] old_checkpoints[m]) by {
            assert(!replaceable(old_checkpoints[m], record, previous_checkpoint_sequence));
        }
        assert(first_match(old_sessions, sp, i as int));
        assert(first_match(old_checkpoints, cp, j as int));
    }
    sessions.set(i, StoredSession { goal_id, state: written });
    let row = checkpoints[j];
    let advanced = CheckpointRow {
        sequence: record.sequence as i64,
        task_id: record.task_id,
        updated_at_ms: record.updated_at_ms as i64,
        record,
        ..row
    };
    checkpoints.set(j, advanced);
    Ok(())
}

/// Resumes a paused session whose goal is `goal_id` and advances its
/// checkpoint to `checkpoint` with `task_id`, both rows or neither. The
/// session is stored running, without a pause reason.
///
/// # Errors
///
/// [`SqlitePersistenceError::InvalidAutoModeCheckpoint`] unless
/// [`resume_commit_ok`] holds and the versions fit storage, and
/// [`SqlitePersistenceError::AutoModeCommitConflict`] when the stored session
/// is not the paused version checked against or the checkpoint is not at the
/// previous sequence. The rows are then unchanged.
pub fn commit_resume(
    sessions: &mut Vec<StoredSession>,
    checkpoints: &mut Vec<CheckpointRow>,
    session: &SessionState,
    goal_id: u128,
    previous_session_updated_at_ms: u64,
    checkpoint: &CheckpointState,
    task_id: u128,
    previous_checkpoint_sequence: u64,
) -> (r: Result<(), SqlitePersistenceError>)
    ensures
        !(resume_commit_ok(*session, *checkpoint, previous_checkpoint_sequence)
            && commit_columns_storable(
            *session,
            previous_session_updated_at_ms,
            *checkpoint,
            previous_checkpoint_sequence,
        )) ==> r == Err::<(), SqlitePersistenceError>(
            SqlitePersistenceError::InvalidAutoModeCheckpoint,
        ),
        resume_commit_ok(*session, *checkpoint, previous_checkpoint_sequence)
            && commit_columns_storable(
            *session,
            previous_session_updated_at_ms,
            *checkpoint,
            previous_checkpoint_sequence,
        ) ==> if two_rows_current(
            old(sessions)@,
            old(checkpoints)@,
            *session,
            goal_id,
            previous_session_updated_at_ms,
            AutoModeStatus::Paused,
            turn_record(*checkpoint, goal_id, task_id),
            previous_checkpoint_sequence,
        ) {
            r is Ok
        } else {
            r == Err::<(), SqlitePersistenceError>(SqlitePersistenceError::AutoModeCommitConflict)
        },
        r is Err ==> final(sessions)@ == old(sessions)@ && final(checkpoints)@ == old(checkpoints)@,
        r is Ok ==> two_rows_written(
            old(sessions)@,
            old(checkpoints)@,
            final(sessions)@,
            final(checkpoints)@,
            *session,
            goal_id,
            previous_session_updated_at_ms,
            AutoModeStatus::Paused,
            SessionState { status: AutoModeStatus::Running, pause_reason: None, ..*session },
            turn_record(*checkpoint, goal_id, task_id),
            previous_checkpoint_sequence,
        ),
{
    match check_resume_commit(session, previous_session_updated_at_ms, checkpoint, previous_checkpoint_sequence) {
        Ok(()) => {},
        Err(e) => return Err(e),
    }
    let record = CheckpointRecord {
        session_id: checkpoint.session_id,
        goal_id,
        plan_revision: checkpoint.plan_revision,
        sequence: checkpoint.sequence,
        task_id,
        updated_at_ms: checkpoint.updated_at_ms,
    };
    let written = SessionState { status: AutoModeStatus::Running, pause_reason: None, ..*session };
    write_two_rows(
        sessions,
        checkpoints,
        session,
        goal_id,
        previous_session_updated_at_ms,
        AutoModeStatus::Paused,
        written,
        record,
        previous_checkpoint_sequence,
    )
}

/// Applies a host-requested pause or cancellation of a running session whose
/// goal is `goal_id` at a clean batch boundary: the session is written and
/// its checkpoint advanced to `checkpoint` with `task_id`, both rows or
/// neither. No attempt is involved, as no work is in flight.
///
/// # Errors
///
/// [`SqlitePersistenceError::InvalidAutoModeCheckpoint`] unless
/// [`host_control_commit_ok`] holds and the versions fit storage, and
/// [`SqlitePersistenceError::AutoModeCommitConflict`] when the stored session
/// is not the running version checked against or the checkpoint is not at
/// the previous sequence. The rows are then unchanged.
pub fn commit_host_control(
    sessions: &mut Vec<StoredSession>,
    checkpoints: &mut Vec<CheckpointRow>,
    session: &SessionState,
    goal_id: u128,
    previous_session_updated_at_ms: u64,
    checkpoint: &CheckpointState,
    task_id: u128,
    previous_checkpoint_sequence: u64,
) -> (r: Result<(), SqlitePersistenceError>)
    ensures
        !(host_control_commit_ok(*session, *checkpoint, previous_checkpoint_sequence)
            && commit_columns_storable(
            *session,
            previous_session_updated_at_ms,
            *checkpoint,
            previous_checkpoint_sequence,
        )) ==> r == Err::<(), SqlitePersistenceError>(
            SqlitePersistenceError::InvalidAutoModeCheckpoint,
        ),
        host_control_commit_ok(*session, *checkpoint, previous_checkpoint_sequence)
            && commit_columns_storable(
            *session,
            previous_session_updated_at_ms,
            *checkpoint,
            previous_checkpoint_sequence,
        ) ==> if two_rows_current(
            old(sessions)@,
            old(checkpoints)@,
            *session,
            goal_id,
            previous_session_updated_at_ms,
            AutoModeStatus::Running,
            turn_record(*checkpoint, goal_id, task_id),
            previous_checkpoint_sequence,
        ) {
            r is Ok
        } else {
            r == Err::<(), SqlitePersistenceError>(SqlitePersistenceError::AutoModeCommitConflict)
        },
        r is Err ==> final(sessions)@ == old(sessions)@ && final(checkpoints)@ == old(checkpoints)@,
        r is Ok ==> two_rows_written(
            old(sessions)@,
            old(checkpoints)@,
            final(sessions)@,
            final(checkpoints)@,
            *session,
            goal_id,
            previous_session_updated_at_ms,
            AutoModeStatus::Running,
            *session,
            turn_record(*checkpoint, goal_id, task_id),
            previous_checkpoint_sequence,
        ),
{
    match check_host_control_commit(
        session,
        previous_session_updated_at_ms,
        checkpoint,
        previous_checkpoint_sequence,
    ) {
        Ok(()) => {},
        Err(e) => return Err(e),
    }
    let record = CheckpointRecord {
        session_id: checkpoint.session_id,
        goal_id,
        plan_revision: checkpoint.plan_revision,
        sequence: checkpoint.sequence,
        task_id,
        updated_at_ms: checkpoint.updated_at_ms,
    };
    write_two_rows(
        sessions,
        checkpoints,
        session,
        goal_id,
        previous_session_updated_at_ms,
        AutoModeStatus::Running,
        *session,
        record,
        previous_checkpoint_sequence,
    )
}


// ----------------------------------------------------------------------------
// Workspace drift
// ----------------------------------------------------------------------------

/// The stored session is the running version a drift commit was checked
/// against.
pub open spec fn drift_session_at(stored: StoredSession, session: SessionState, previous_updated_at_ms: u64) -> bool {
    &&& stored.state.id == session.id
    &&& stored.state.updated_at_ms == previous_updated_at_ms
    &&& stored.state.status == AutoModeStatus::Running
}

/// The stored checkpoint of the session is at the previous sequence.
pub open spec fn drift_checkpoint_at(row: CheckpointRow, session_id: u128, previous_sequence: u64) -> bool {
    row.session_id == session_id && row.sequence as int == previous_sequence as int
}

/// The Workspace successor's predecessor is the session's latest stored
/// snapshot, at the previous revision and fingerprint and on the same root.
pub open spec fn successor_insertable(
    rows: Seq<WorkspaceSnapshotRow>,
    workspace: StoredWorkspaceSnapshot,
    previous_revision: u64,
    previous_fingerprint: Seq<char>,
) -> bool {
    &&& exists|j: int|
        0 <= j < rows.len() && #[trigger] rows[j].session_id == workspace.session_id
            && rows[j].revision as int == previous_revision as int
            && rows[j].snapshot_fingerprint@ == previous_fingerprint
            && rows[j].root_fingerprint@ == workspace.root_fingerprint@
    &&& forall|j: int|
        0 <= j < rows.len() && #[trigger] rows[j].session_id == workspace.session_id
            ==> rows[j].revision as int <= previous_revision as int
}

/// What the drift checks read of a stored Workspace snapshot.
pub open spec fn successor_of(workspace: StoredWorkspaceSnapshot) -> WorkspaceSuccessor {
    WorkspaceSuccessor {
        session_id: workspace.session_id,
        revision: workspace.revision,
        parent_fingerprint: workspace.parent_fingerprint,
        created_at_ms: workspace.created_at_ms,
    }
}

/// The session, its checkpoint and the Workspace predecessor are stored at
/// the checked versions.
pub open spec fn drift_rows_current(
    sessions: Seq<StoredSession>,
    checkpoints: Seq<CheckpointRow>,
    workspaces: Seq<WorkspaceSnapshotRow>,
    session: SessionState,
    previous_session_updated_at_ms: u64,
    checkpoint: CheckpointState,
    previous_checkpoint_sequence: u64,
    workspace: StoredWorkspaceSnapshot,
    previous_workspace_revision: u64,
    previous_workspace_fingerprint: Seq<char>,
) -> bool {
    &&& exists|i: int|
        0 <= i < sessions.len() && drift_session_at(
            #[trigger] sessions[i],
            session,
            previous_session_updated_at_ms,
        )
    &&& exists|j: int|
        0 <= j < checkpoints.len() && drift_checkpoint_at(
            #[trigger] checkpoints[j],
            checkpoint.session_id,
            previous_checkpoint_sequence,
        )
    &&& successor_insertable(
        workspaces,
        workspace,
        previous_workspace_revision,
        previous_workspace_fingerprint,
    )
}

fn is_successor_insertable(
    rows: &Vec<WorkspaceSnapshotRow>,
    workspace: &StoredWorkspaceSnapshot,
    previous_revision: u64,
    previous_fingerprint: &str,
) -> (r: bool)
    requires
        previous_revision <= MAX_STORED,
    ensures
        r == successor_insertable(rows@, *workspace, previous_revision, previous_fingerprint@),
{
    let mut found = false;
    let mut i: usize = 0;
    while i < rows.len()
        invariant
            0 <= i <= rows@.len(),
            previous_revision <= MAX_STORED,
            found == exists|j: int|
                0 <= j < i && #[trigger] rows@[j].session_id == workspace.session_id
                    && rows@[j].revision as int == previous_revision as int
                    && rows@[j].snapshot_fingerprint@ == previous_fingerprint@
                    && rows@[j].root_fingerprint@ == workspace.root_fingerprint@,
            forall|j: int|
                0 <= j < i && #[trigger] rows@[j].session_id == workspace.session_id
                    ==> rows@[j].revision as int <= previous_revision as int,
        decreases rows@.len() - i,
    {
        let row = &rows[i];
        if row.session_id == workspace.session_id {
            if row.revision > previous_revision as i64 {
                return false;
            }
            if row.revision == previous_revision as i64 && str_equal(
                row.snapshot_fingerprint.as_str(),
                previous_fingerprint,
            ) && str_equal(row.root_fingerprint.as_str(), workspace.root_fingerprint.as_str()) {
                found = true;
            }
        }
        i = i + 1;
    }
    found
}

fn copy_parent(parent: &Option<String>) -> (r: Option<String>)
    ensures
        r == *parent,
{
    match parent {
        Some(p) => Some(p.clone()),
        None => None,
    }
}

/// Pauses a running session whose turn found its Workspace changed: the
/// session is written, its checkpoint advanced to `checkpoint` (of the goal
/// `goal_id`, with `task_id`), and the observed Workspace appended as the
/// successor of the latest stored snapshot; all three rows or none.
///
/// # Errors
///
/// [`SqlitePersistenceError::InvalidWorkspaceSnapshot`] unless
/// [`drift_commit_ok`] holds; [`SqlitePersistenceError::InvalidAutoModeCheckpoint`]
/// unless the versions fit storage; a storage error when the successor's
/// fingerprint is already stored; and
/// [`SqlitePersistenceError::AutoModeCommitConflict`] when the session,
/// checkpoint or latest snapshot is not at the checked version. The rows are
/// then unchanged.
#[verifier::rlimit(30)]
pub fn commit_workspace_drift(
    sessions: &mut Vec<StoredSession>,
    checkpoints: &mut Vec<CheckpointRow>,
    workspaces: &mut Vec<WorkspaceSnapshotRow>,
    session: &SessionState,
    previous_session_updated_at_ms: u64,
    checkpoint: &CheckpointState,
    goal_id: u128,
    task_id: u128,
    previous_checkpoint_sequence: u64,
    workspace: StoredWorkspaceSnapshot,
    previous_workspace_revision: u64,
    previous_workspace_fingerprint: &str,
) -> (r: Result<(), SqlitePersistenceError>)
    ensures
        !drift_commit_ok(
            *session,
            *checkpoint,
            previous_checkpoint_sequence,
            successor_of(workspace),
            previous_workspace_revision,
            previous_workspace_fingerprint@,
        ) ==> r == Err::<(), SqlitePersistenceError>(SqlitePersistenceError::InvalidWorkspaceSnapshot),
        drift_commit_ok(
            *session,
            *checkpoint,
            previous_checkpoint_sequence,
            successor_of(workspace),
            previous_workspace_revision,
            previous_workspace_fingerprint@,
        ) && !drift_columns_storable(
            *session,
            previous_session_updated_at_ms,
            *checkpoint,
            previous_checkpoint_sequence,
            successor_of(workspace),
            previous_workspace_revision,
        ) ==> r == Err::<(), SqlitePersistenceError>(SqlitePersistenceError::InvalidAutoModeCheckpoint),
        drift_commit_ok(
            *session,
            *checkpoint,
            previous_checkpoint_sequence,
            successor_of(workspace),
            previous_workspace_revision,
            previous_workspace_fingerprint@,
        ) && drift_columns_storable(
            *session,
            previous_session_updated_at_ms,
            *checkpoint,
            previous_checkpoint_sequence,
            successor_of(workspace),
            previous_workspace_revision,
        ) ==> if successor_insertable(
            old(workspaces)@,
            workspace,
            previous_workspace_revision,
            previous_workspace_fingerprint@,
        ) && has_fingerprint(old(workspaces)@, workspace.fingerprint@) {
            r matches Err(SqlitePersistenceError::Sqlite(m)) && m@ == DUPLICATE_FINGERPRINT@
        } else if drift_rows_current(
            old(sessions)@,
            old(checkpoints)@,
            old(workspaces)@,
            *session,
            previous_session_updated_at_ms,
            *checkpoint,
            previous_checkpoint_sequence,
            workspace,
            previous_workspace_revision,
            previous_workspace_fingerprint@,
        ) {
            r is Ok
        } else {
            r == Err::<(), SqlitePersistenceError>(SqlitePersistenceError::AutoModeCommitConflict)
        },
        r is Err ==> final(sessions)@ == old(sessions)@ && final(checkpoints)@ == old(checkpoints)@
            && final(workspaces)@ == old(workspaces)@,
        r is Ok ==> exists|i: int, j: int|
            #![trigger old(sessions)@[i], old(checkpoints)@[j]]
            {
                &&& first_match(
                    old(sessions)@,
                    |s: StoredSession| drift_session_at(s, *session, previous_session_updated_at_ms),
                    i,
                )
                &&& first_match(
                    old(checkpoints)@,
                    |c: CheckpointRow|
                        drift_checkpoint_at(c, checkpoint.session_id, previous_checkpoint_sequence),
                    j,
                )
                &&& final(sessions)@ == old(sessions)@.update(
                    i,
                    StoredSession { state: *session, ..old(sessions)@[i] },
                )
                &&& final(checkpoints)@ == old(checkpoints)@.update(
                    j,
                    advanced_row(old(checkpoints)@[j], turn_record(*checkpoint, goal_id, task_id)),
                )
                &&& final(workspaces)@.len() == old(workspaces)@.len() + 1
                &&& final(workspaces)@.drop_last() == old(workspaces)@
                &&& stores(final(workspaces)@.last(), workspace)
            },
{
    let successor = WorkspaceSuccessor {
        session_id: workspace.session_id,
        revision: workspace.revision,
        parent_fingerprint: copy_parent(&workspace.parent_fingerprint),
        created_at_ms: workspace.created_at_ms,
    };
    assert(successor == successor_of(workspace));
    match check_workspace_drift_commit(
        session,
        previous_session_updated_at_ms,
        checkpoint,
        previous_checkpoint_sequence,
        &successor,
        previous_workspace_revision,
        previous_workspace_fingerprint,
    ) {
        Ok(()) => {},
        Err(e) => return Err(e),
    }
    let insertable = is_successor_insertable(
        workspaces,
        &workspace,
        previous_workspace_revision,
        previous_workspace_fingerprint,
    );
    if insertable && find_fingerprint(workspaces, workspace.fingerprint.as_str()) {
        return Err(SqlitePersistenceError::Sqlite(DUPLICATE_FINGERPRINT.to_owned()));
    }
    // The session row.
    let mut i: usize = 0;
    while i < sessions.len()
        invariant
            0 <= i <= sessions@.len(),
            forall|m: int|
                0 <= m < i ==> !drift_session_at(
                    #[trigger] sessions@[m],
                    *session,
                    previous_session_updated_at_ms,
                ),
        ensures
            0 <= i <= sessions@.len(),
            forall|m: int|
                0 <= m < i ==> !drift_session_at(
                    #[trigger] sessions@[m],
                    *session,
                    previous_session_updated_at_ms,
                ),
            i < sessions@.len() ==> drift_session_at(
                sessions@[i as int],
                *session,
                previous_session_updated_at_ms,
            ),
        decreases sessions@.len() - i,
    {
        let s = sessions[i];
        if s.state.id == session.id && s.state.updated_at_ms == previous_session_updated_at_ms
            && s.state.status == AutoModeStatus::Running {
            break ;
        }
        i = i + 1;
    }
    // The checkpoint row.
    let mut j: usize = 0;
    while j < checkpoints.len()
        invariant
            0 <= j <= checkpoints@.len(),
            previous_checkpoint_sequence <= MAX_STORED,
            forall|m: int|
                0 <= m < j ==> !drift_checkpoint_at(
                    #[trigger] checkpoints@[m],
                    checkpoint.session_id,
                    previous_checkpoint_sequence,
                ),
        ensures
            0 <= j <= checkpoints@.len(),
            forall|m: int|
                0 <= m < j ==> !drift_checkpoint_at(
                    #[trigger] checkpoints@[m],
                    checkpoint.session_id,
                    previous_checkpoint_sequence,
                ),
            j < checkpoints@.len() ==> drift_checkpoint_at(
                checkpoints@[j as int],
                checkpoint.session_id,
                previous_checkpoint_sequence,
            ),
        decreases checkpoints@.len() - j,
    {
        let c = checkpoints[j];
        if c.session_id == checkpoint.session_id && c.sequence == previous_checkpoint_sequence as i64 {
            break ;
        }
        j = j + 1;
    }
    if i == sessions.len() || j == checkpoints.len() || !insertable {
        return Err(SqlitePersistenceError::AutoModeCommitConflict);
    }
    let record = CheckpointRecord {
        session_id: checkpoint.session_id,
        goal_id,
        plan_revision: checkpoint.plan_revision,
        sequence: checkpoint.sequence,
        task_id,
        updated_at_ms: checkpoint.updated_at_ms,
    };
    let ghost old_sessions = sessions@;
    let ghost old_checkpoints = checkpoints@;
    let ghost old_workspaces = workspaces@;
    let ghost sp = |s: StoredSession| drift_session_at(s, *session, previous_session_updated_at_ms);
    let ghost cp = |c: CheckpointRow|
        drift_checkpoint_at(c, checkpoint.session_id, previous_checkpoint_sequence);
    proof {
        assert forall|m: int| 0 <= m < i implies !sp(#[trigger] old_sessions[m]) by {
            assert(!drift_session_at(old_sessions[m], *session, previous_session_updated_at_ms));
        }
        assert forall|m: int| 0 <= m < j implies !cp(#[trigger] old_checkpoints[m]) by {
            assert(!drift_checkpoint_at(old_checkpoints[m], checkpoint.session_id, previous_checkpoint_sequence));
        }
        assert(first_match(old_sessions, sp, i as int));
        assert(first_match(old_checkpoints, cp, j as int));
    }
    let stored = sessions[i];
    sessions.set(i, StoredSession { state: *session, ..stored });
    let row = checkpoints[j];
    let advanced = CheckpointRow {
        sequence: record.sequence as i64,
        task_id: record.task_id,
        updated_at_ms: record.updated_at_ms as i64,
        record,
        ..row
    };
    checkpoints.set(j, advanced);
    workspaces.push(row_for(workspace));
    proof {
        assert(workspaces@.drop_last() =~= old_workspaces);
        assert(record == turn_record(*checkpoint, goal_id, task_id));
    }
    Ok(())
}

} // verus!
