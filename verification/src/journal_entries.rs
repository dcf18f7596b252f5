//! Journal entries for plans awaiting approval and Skill execution history,
//! with the rules that admit them.
//!
//! Identifiers are UUIDs held as 128-bit integers (nil is zero). A plan is
//! held as its serialized JSON bytes.
use crate::error::SqlitePersistenceError;
use crate::journals::{AutomationApprovalStatus, SkillApprovalJournalStatus, SkillExecutionHistoryStatus};
use crate::text::{blank, contains_control, has_control_char, is_blank, str_equal};
use vstd::prelude::*;
use vstd::utf8::encode_utf8;

verus! {

/// Spec identifier of Automation approval entries.
pub const AUTOMATION_APPROVAL_SPEC: &'static str = "nimora.automation-approval-journal/1";

/// Spec identifier of Skill approval entries.
pub const SKILL_APPROVAL_SPEC: &'static str = "nimora.skill-approval-journal/1";

/// Spec identifier of Skill execution history records.
pub const SKILL_EXECUTION_HISTORY_SPEC: &'static str = "nimora.skill-execution-history/1";

/// Longest Automation or Skill identifier in an approval entry.
pub const MAX_APPROVAL_SUBJECT_BYTES: usize = 160;

/// Largest serialized plan (512 KiB).
pub const MAX_PLAN_BYTES: usize = 524_288;

/// Longest Skill identifier in execution history.
pub const MAX_HISTORY_SKILL_ID_BYTES: usize = 256;

/// Longest error text in execution history (4 KiB).
pub const MAX_HISTORY_ERROR_BYTES: usize = 4_096;

/// A plan of an Automation run awaiting the user's approval.
#[derive(Debug, Clone, PartialEq, Eq)]
pub struct AutomationApprovalEntry {
    pub spec: String,
    pub approval_id: u128,
    pub run_id: u128,
    pub automation_id: String,
    pub status: AutomationApprovalStatus,
    pub created_at_ms: u64,
    pub updated_at_ms: u64,
    pub expires_at_ms: u64,
    pub plan: Vec<u8>,
    pub error: Option<String>,
}

/// A plan of a Skill execution awaiting the user's approval.
#[derive(Debug, Clone, PartialEq, Eq)]
pub struct SkillApprovalJournalEntry {
    pub spec: String,
    pub approval_id: u128,
    pub execution_id: u128,
    pub skill_id: String,
    pub status: SkillApprovalJournalStatus,
    pub created_at_ms: u64,
    pub updated_at_ms: u64,
    pub expires_at_ms: u64,
    pub plan: Vec<u8>,
    pub error: Option<String>,
}

/// Metadata of one Skill execution.
#[derive(Debug, Clone, PartialEq, Eq)]
pub struct SkillExecutionHistoryRecord {
    pub spec: String,
    pub execution_id: u128,
    pub skill_id: String,
    pub status: SkillExecutionHistoryStatus,
    pub command_count: u32,
    pub agent_task_count: u32,
    pub created_at_ms: u64,
    pub updated_at_ms: u64,
    pub error: Option<String>,
}

/// Non-blank text of at most `max` UTF-8 bytes without control characters.
pub open spec fn name_ok(name: Seq<char>, max: int) -> bool {
    !blank(name) && encode_utf8(name).len() <= max && !has_control_char(name)
}

/// Whether `name` is non-blank, at most `max` bytes and free of control
/// characters.
pub(crate) fn valid_name(name: &str, max: usize) -> (r: bool)
    ensures
        r == name_ok(name@, max as int),
{
    !is_blank(name) && name.as_bytes().len() <= max && !contains_control(name)
}

/// The rules shared by both approval journals.
pub open spec fn approval_ok(
    spec_ok: bool,
    approval_id: u128,
    subject_id: u128,
    subject: Seq<char>,
    created_at_ms: u64,
    updated_at_ms: u64,
    expires_at_ms: u64,
    plan_bytes: nat,
    failed: bool,
    has_error: bool,
) -> bool {
    &&& spec_ok
    &&& approval_id != 0
    &&& subject_id != 0
    &&& name_ok(subject, MAX_APPROVAL_SUBJECT_BYTES as int)
    &&& updated_at_ms >= created_at_ms
    &&& expires_at_ms > created_at_ms
    &&& 0 < plan_bytes <= MAX_PLAN_BYTES
    &&& (failed || !has_error)
}

fn approval_valid(
    spec_ok: bool,
    approval_id: u128,
    subject_id: u128,
    subject: &str,
    created_at_ms: u64,
    updated_at_ms: u64,
    expires_at_ms: u64,
    plan_bytes: usize,
    failed: bool,
    has_error: bool,
) -> (r: bool)
    ensures
        r == approval_ok(
            spec_ok,
            approval_id,
            subject_id,
            subject@,
            created_at_ms,
            updated_at_ms,
            expires_at_ms,
            plan_bytes as nat,
            failed,
            has_error,
        ),
{
    spec_ok && approval_id != 0 && subject_id != 0 && valid_name(subject, MAX_APPROVAL_SUBJECT_BYTES)
        && updated_at_ms >= created_at_ms && expires_at_ms > created_at_ms && plan_bytes > 0
        && plan_bytes <= MAX_PLAN_BYTES && (failed || !has_error)
}

// ----------------------------------------------------------------------------
// Automation approvals
// ----------------------------------------------------------------------------

/// An Automation approval entry that can be stored: known spec, non-nil
/// identities, a non-blank Automation identifier of at most 160 bytes without
/// control characters, `created <= updated`, `created < expires`, a plan of
/// 1 byte to 512 KiB, and an error only on a failed entry.
pub open spec fn automation_approval_ok(entry: AutomationApprovalEntry) -> bool {
    approval_ok(
        entry.spec@ == AUTOMATION_APPROVAL_SPEC@,
        entry.approval_id,
        entry.run_id,
        entry.automation_id@,
        entry.created_at_ms,
        entry.updated_at_ms,
        entry.expires_at_ms,
        entry.plan@.len(),
        entry.status == AutomationApprovalStatus::Failed,
        entry.error is Some,
    )
}

/// Checks an Automation approval entry.
///
/// # Errors
///
/// Returns [`SqlitePersistenceError::InvalidAutomationApprovalJournal`]
/// unless [`automation_approval_ok`] holds.
pub fn validate_automation_approval(entry: &AutomationApprovalEntry) -> (r: Result<
    (),
    SqlitePersistenceError,
>)
    ensures
        r is Ok <==> automation_approval_ok(*entry),
        r is Err ==> r == Err::<(), SqlitePersistenceError>(
            SqlitePersistenceError::InvalidAutomationApprovalJournal,
        ),
{
    let spec_ok = str_equal(entry.spec.as_str(), AUTOMATION_APPROVAL_SPEC);
    if !approval_valid(
        spec_ok,
        entry.approval_id,
        entry.run_id,
        entry.automation_id.as_str(),
        entry.created_at_ms,
        entry.updated_at_ms,
        entry.expires_at_ms,
        entry.plan.len(),
        entry.status == AutomationApprovalStatus::Failed,
        entry.error.is_some(),
    ) {
        return Err(SqlitePersistenceError::InvalidAutomationApprovalJournal);
    }
    Ok(())
}

impl AutomationApprovalEntry {
    /// Creates one pending approval request.
    ///
    /// # Errors
    ///
    /// Returns [`SqlitePersistenceError::InvalidAutomationApprovalJournal`]
    /// when the identities, timestamps or plan size break the entry rules.
    pub fn new(
        approval_id: u128,
        run_id: u128,
        automation_id: &str,
        created_at_ms: u64,
        expires_at_ms: u64,
        plan: Vec<u8>,
    ) -> (r: Result<Self, SqlitePersistenceError>)
        ensures
            r is Ok <==> approval_ok(
                true,
                approval_id,
                run_id,
                automation_id@,
                created_at_ms,
                created_at_ms,
                expires_at_ms,
                plan@.len(),
                false,
                false,
            ),
            r matches Ok(entry) ==> {
                &&& entry.spec@ == AUTOMATION_APPROVAL_SPEC@
                &&& entry.approval_id == approval_id
                &&& entry.run_id == run_id
                &&& entry.automation_id@ == automation_id@
                &&& entry.status == AutomationApprovalStatus::Pending
                &&& entry.created_at_ms == created_at_ms
                &&& entry.updated_at_ms == created_at_ms
                &&& entry.expires_at_ms == expires_at_ms
                &&& entry.plan@ == plan@
                &&& entry.error is None
            },
            r is Err ==> r == Err::<Self, SqlitePersistenceError>(
                SqlitePersistenceError::InvalidAutomationApprovalJournal,
            ),
    {
        let entry = AutomationApprovalEntry {
            spec: AUTOMATION_APPROVAL_SPEC.to_owned(),
            approval_id,
            run_id,
            automation_id: automation_id.to_owned(),
            status: AutomationApprovalStatus::Pending,
            created_at_ms,
            updated_at_ms: created_at_ms,
            expires_at_ms,
            plan,
            error: None,
        };
        match validate_automation_approval(&entry) {
            Ok(()) => Ok(entry),
            Err(e) => Err(e),
        }
    }
}

// ----------------------------------------------------------------------------
// Skill approvals
// ----------------------------------------------------------------------------

/// A Skill approval entry that can be stored; the same rules as an
/// Automation approval, over the Skill identifier and execution identity.
pub open spec fn skill_approval_ok(entry: SkillApprovalJournalEntry) -> bool {
    approval_ok(
        entry.spec@ == SKILL_APPROVAL_SPEC@,
        entry.approval_id,
        entry.execution_id,
        entry.skill_id@,
        entry.created_at_ms,
        entry.updated_at_ms,
        entry.expires_at_ms,
        entry.plan@.len(),
        entry.status == SkillApprovalJournalStatus::Failed,
        entry.error is Some,
    )
}

/// Checks a Skill approval entry.
///
/// # Errors
///
/// Returns [`SqlitePersistenceError::InvalidSkillApprovalJournal`] unless
/// [`skill_approval_ok`] holds.
pub fn validate_skill_approval(entry: &SkillApprovalJournalEntry) -> (r: Result<
    (),
    SqlitePersistenceError,
>)
    ensures
        r is Ok <==> skill_approval_ok(*entry),
        r is Err ==> r == Err::<(), SqlitePersistenceError>(
            SqlitePersistenceError::InvalidSkillApprovalJournal,
        ),
{
    let spec_ok = str_equal(entry.spec.as_str(), SKILL_APPROVAL_SPEC);
    if !approval_valid(
        spec_ok,
        entry.approval_id,
        entry.execution_id,
        entry.skill_id.as_str(),
        entry.created_at_ms,
        entry.updated_at_ms,
        entry.expires_at_ms,
        entry.plan.len(),
        entry.status == SkillApprovalJournalStatus::Failed,
        entry.error.is_some(),
    ) {
        return Err(SqlitePersistenceError::InvalidSkillApprovalJournal);
    }
    Ok(())
}

impl SkillApprovalJournalEntry {
    /// Creates one pending Skill execution plan.
    ///
    /// # Errors
    ///
    /// Returns [`SqlitePersistenceError::InvalidSkillApprovalJournal`] when
    /// the identities, timestamps or plan size break the entry rules.
    pub fn new(
        approval_id: u128,
        execution_id: u128,
        skill_id: &str,
        created_at_ms: u64,
        expires_at_ms: u64,
        plan: Vec<u8>,
    ) -> (r: Result<Self, SqlitePersistenceError>)
        ensures
            r is Ok <==> approval_ok(
                true,
                approval_id,
                execution_id,
                skill_id@,
                created_at_ms,
                created_at_ms,
                expires_at_ms,
                plan@.len(),
                false,
                false,
            ),
            r matches Ok(entry) ==> {
                &&& entry.spec@ == SKILL_APPROVAL_SPEC@
                &&& entry.approval_id == approval_id
                &&& entry.execution_id == execution_id
                &&& entry.skill_id@ == skill_id@
                &&& entry.status == SkillApprovalJournalStatus::Pending
                &&& entry.created_at_ms == created_at_ms
                &&& entry.updated_at_ms == created_at_ms
                &&& entry.expires_at_ms == expires_at_ms
                &&& entry.plan@ == plan@
                &&& entry.error is None
            },
            r is Err ==> r == Err::<Self, SqlitePersistenceError>(
                SqlitePersistenceError::InvalidSkillApprovalJournal,
            ),
    {
        let entry = SkillApprovalJournalEntry {
            spec: SKILL_APPROVAL_SPEC.to_owned(),
            approval_id,
            execution_id,
            skill_id: skill_id.to_owned(),
            status: SkillApprovalJournalStatus::Pending,
            created_at_ms,
            updated_at_ms: created_at_ms,
            expires_at_ms,
            plan,
            error: None,
        };
        match validate_skill_approval(&entry) {
            Ok(()) => Ok(entry),
            Err(e) => Err(e),
        }
    }
}

// ----------------------------------------------------------------------------
// Skill execution history
// ----------------------------------------------------------------------------

/// Error text of a history record: non-empty, at most 4 KiB, no control
/// characters.
pub open spec fn history_error_ok(error: Seq<char>) -> bool {
    error.len() > 0 && encode_utf8(error).len() <= MAX_HISTORY_ERROR_BYTES && !has_control_char(
        error,
    )
}

/// The fields of a history record are acceptable: non-nil execution, a
/// non-blank Skill identifier of at most 256 bytes without control
/// characters, `created <= updated`, and error text only on a failed
/// execution.
pub open spec fn history_fields_ok(
    execution_id: u128,
    skill_id: Seq<char>,
    status: SkillExecutionHistoryStatus,
    created_at_ms: u64,
    updated_at_ms: u64,
    error: Option<String>,
) -> bool {
    &&& execution_id != 0
    &&& name_ok(skill_id, MAX_HISTORY_SKILL_ID_BYTES as int)
    &&& updated_at_ms >= created_at_ms
    &&& match error {
        Some(e) => history_error_ok(e@) && status == SkillExecutionHistoryStatus::Failed,
        None => true,
    }
}

/// A history record that can be stored: known spec and acceptable fields.
pub open spec fn history_ok(record: SkillExecutionHistoryRecord) -> bool {
    record.spec@ == SKILL_EXECUTION_HISTORY_SPEC@ && history_fields_ok(
        record.execution_id,
        record.skill_id@,
        record.status,
        record.created_at_ms,
        record.updated_at_ms,
        record.error,
    )
}

/// Checks a Skill execution history record.
///
/// # Errors
///
/// Returns [`SqlitePersistenceError::InvalidSkillExecutionHistory`] unless
/// [`history_ok`] holds.
pub fn validate_history(record: &SkillExecutionHistoryRecord) -> (r: Result<
    (),
    SqlitePersistenceError,
>)
    ensures
        r is Ok <==> history_ok(*record),
        r is Err ==> r == Err::<(), SqlitePersistenceError>(
            SqlitePersistenceError::InvalidSkillExecutionHistory,
        ),
{
    let error_ok = match &record.error {
        Some(error) => {
            let s = error.as_str();
            proof {
                vstd::utf8::encode_utf8_decode_utf8(s@);
            }
            s.as_bytes().len() > 0 && s.as_bytes().len() <= MAX_HISTORY_ERROR_BYTES
                && !contains_control(s) && record.status == SkillExecutionHistoryStatus::Failed
        },
        None => true,
    };
    if !str_equal(record.spec.as_str(), SKILL_EXECUTION_HISTORY_SPEC) || record.execution_id == 0
        || !valid_name(record.skill_id.as_str(), MAX_HISTORY_SKILL_ID_BYTES)
        || record.updated_at_ms < record.created_at_ms || !error_ok {
        return Err(SqlitePersistenceError::InvalidSkillExecutionHistory);
    }
    Ok(())
}

impl SkillExecutionHistoryRecord {
    /// Creates one metadata-only Skill execution record.
    ///
    /// # Errors
    ///
    /// Returns [`SqlitePersistenceError::InvalidSkillExecutionHistory`] for
    /// counts beyond `u32::MAX` or a record that breaks [`history_ok`].
    pub fn new(
        execution_id: u128,
        skill_id: &str,
        status: SkillExecutionHistoryStatus,
        command_count: usize,
        agent_task_count: usize,
        created_at_ms: u64,
        updated_at_ms: u64,
        error: Option<String>,
    ) -> (r: Result<Self, SqlitePersistenceError>)
        ensures
            r is Ok <==> command_count <= u32::MAX && agent_task_count <= u32::MAX
                && history_fields_ok(
                execution_id,
                skill_id@,
                status,
                created_at_ms,
                updated_at_ms,
                error,
            ),
            r matches Ok(record) ==> {
                &&& history_ok(record)
                &&& record.spec@ == SKILL_EXECUTION_HISTORY_SPEC@
                &&& record.execution_id == execution_id
                &&& record.skill_id@ == skill_id@
                &&& record.status == status
                &&& record.command_count == command_count
                &&& record.agent_task_count == agent_task_count
                &&& record.created_at_ms == created_at_ms
                &&& record.updated_at_ms == updated_at_ms
                &&& record.error == error
            },
            r is Err ==> r == Err::<Self, SqlitePersistenceError>(
                SqlitePersistenceError::InvalidSkillExecutionHistory,
            ),
    {
        if command_count > u32::MAX as usize || agent_task_count > u32::MAX as usize {
            return Err(SqlitePersistenceError::InvalidSkillExecutionHistory);
        }
        let record = SkillExecutionHistoryRecord {
            spec: SKILL_EXECUTION_HISTORY_SPEC.to_owned(),
            execution_id,
            skill_id: skill_id.to_owned(),
            status,
            command_count: command_count as u32,
            agent_task_count: agent_task_count as u32,
            created_at_ms,
            updated_at_ms,
            error,
        };
        match validate_history(&record) {
            Ok(()) => Ok(record),
            Err(e) => Err(e),
        }
    }
}

// ----------------------------------------------------------------------------
// Approval transitions
// ----------------------------------------------------------------------------

/// Longest error text recorded when a Skill approval finishes (4 KiB).
pub const MAX_APPROVAL_ERROR_BYTES: usize = 4_096;

/// Largest page of pending Automation approvals.
pub const MAX_PENDING_PAGE: usize = 256;

/// `entry` with a new status and update time.
pub open spec fn skill_with(
    entry: SkillApprovalJournalEntry,
    status: SkillApprovalJournalStatus,
    now_ms: u64,
) -> SkillApprovalJournalEntry {
    SkillApprovalJournalEntry { status, updated_at_ms: now_ms, ..entry }
}

/// Resolving a stored Skill approval that must still be pending: what to
/// write back and whether it succeeded. A missing or resolved approval is
/// not pending; an expired one is marked expired.
pub open spec fn skill_pending_outcome(
    stored: Option<SkillApprovalJournalEntry>,
    now_ms: u64,
    target: SkillApprovalJournalStatus,
) -> (Option<SkillApprovalJournalEntry>, Result<(), SqlitePersistenceError>) {
    match stored {
        None => (None, Err(SqlitePersistenceError::SkillApprovalNotPending)),
        Some(e) => if e.status != SkillApprovalJournalStatus::Pending {
            (None, Err(SqlitePersistenceError::SkillApprovalNotPending))
        } else if e.expires_at_ms <= now_ms {
            (
                Some(skill_with(e, SkillApprovalJournalStatus::Expired, now_ms)),
                Err(SqlitePersistenceError::SkillApprovalExpired),
            )
        } else {
            (Some(skill_with(e, target, now_ms)), Ok(()))
        },
    }
}

fn resolve_skill_pending(
    stored: Option<SkillApprovalJournalEntry>,
    now_ms: u64,
    target: SkillApprovalJournalStatus,
) -> (r: (Option<SkillApprovalJournalEntry>, Result<(), SqlitePersistenceError>))
    ensures
        r == skill_pending_outcome(stored, now_ms, target),
{
    let mut entry = match stored {
        None => return (None, Err(SqlitePersistenceError::SkillApprovalNotPending)),
        Some(e) => e,
    };
    if entry.status != SkillApprovalJournalStatus::Pending {
        return (None, Err(SqlitePersistenceError::SkillApprovalNotPending));
    }
    if entry.expires_at_ms <= now_ms {
        entry.status = SkillApprovalJournalStatus::Expired;
        entry.updated_at_ms = now_ms;
        return (Some(entry), Err(SqlitePersistenceError::SkillApprovalExpired));
    }
    entry.status = target;
    entry.updated_at_ms = now_ms;
    (Some(entry), Ok(()))
}

/// Claims a stored Skill approval for execution: returns the entry to write
/// back, if any, and whether the claim succeeded (the claimed entry is then
/// the one written back) or why not.
pub fn claim_skill_approval(stored: Option<SkillApprovalJournalEntry>, now_ms: u64) -> (r: (
    Option<SkillApprovalJournalEntry>,
    Result<(), SqlitePersistenceError>,
))
    ensures
        r == skill_pending_outcome(stored, now_ms, SkillApprovalJournalStatus::Executing),
{
    resolve_skill_pending(stored, now_ms, SkillApprovalJournalStatus::Executing)
}

/// Rejects a stored Skill approval: returns the entry to write back, if any,
/// and whether the rejection succeeded or why not.
pub fn reject_skill_approval(stored: Option<SkillApprovalJournalEntry>, now_ms: u64) -> (r: (
    Option<SkillApprovalJournalEntry>,
    Result<(), SqlitePersistenceError>,
))
    ensures
        r == skill_pending_outcome(stored, now_ms, SkillApprovalJournalStatus::Rejected),
{
    resolve_skill_pending(stored, now_ms, SkillApprovalJournalStatus::Rejected)
}

/// A Skill approval may finish as completed, rejected or failed, with at
/// most 4 KiB of error text.
pub open spec fn skill_finish_ok(status: SkillApprovalJournalStatus, error: Option<String>) -> bool {
    (status == SkillApprovalJournalStatus::Completed || status == SkillApprovalJournalStatus::Rejected
        || status == SkillApprovalJournalStatus::Failed) && match error {
        Some(e) => encode_utf8(e@).len() <= MAX_APPROVAL_ERROR_BYTES,
        None => true,
    }
}

/// The finished entry of a claimed Skill approval, or why not.
pub open spec fn skill_finish_outcome(
    stored: Option<SkillApprovalJournalEntry>,
    status: SkillApprovalJournalStatus,
    now_ms: u64,
    error: Option<String>,
) -> Result<SkillApprovalJournalEntry, SqlitePersistenceError> {
    if !skill_finish_ok(status, error) {
        Err(SqlitePersistenceError::InvalidSkillApprovalJournal)
    } else {
        match stored {
            Some(e) => if e.status != SkillApprovalJournalStatus::Executing {
                Err(SqlitePersistenceError::SkillApprovalNotPending)
            } else {
                let done = SkillApprovalJournalEntry { error, ..skill_with(e, status, now_ms) };
                if skill_approval_ok(done) {
                    Ok(done)
                } else {
                    Err(SqlitePersistenceError::InvalidSkillApprovalJournal)
                }
            },
            None => Err(SqlitePersistenceError::SkillApprovalNotPending),
        }
    }
}

/// Finishes a claimed Skill approval; on `Ok` the host writes the entry back.
pub fn finish_skill_approval(
    stored: Option<SkillApprovalJournalEntry>,
    status: SkillApprovalJournalStatus,
    now_ms: u64,
    error: Option<String>,
) -> (r: Result<SkillApprovalJournalEntry, SqlitePersistenceError>)
    ensures
        r == skill_finish_outcome(stored, status, now_ms, error),
{
    let status_ok = match status {
        SkillApprovalJournalStatus::Completed | SkillApprovalJournalStatus::Rejected
        | SkillApprovalJournalStatus::Failed => true,
        _ => false,
    };
    let error_ok = match &error {
        Some(e) => e.as_str().as_bytes().len() <= MAX_APPROVAL_ERROR_BYTES,
        None => true,
    };
    if !status_ok || !error_ok {
        return Err(SqlitePersistenceError::InvalidSkillApprovalJournal);
    }
    let mut entry = match stored {
        Some(e) => e,
        None => return Err(SqlitePersistenceError::SkillApprovalNotPending),
    };
    if entry.status != SkillApprovalJournalStatus::Executing {
        return Err(SqlitePersistenceError::SkillApprovalNotPending);
    }
    entry.status = status;
    entry.updated_at_ms = now_ms;
    entry.error = error;
    match validate_skill_approval(&entry) {
        Ok(()) => Ok(entry),
        Err(e) => Err(e),
    }
}

/// After a restart: an executing approval was interrupted and a pending one
/// past its expiry expired; anything else is left alone.
pub open spec fn skill_recovery(
    entry: SkillApprovalJournalEntry,
    now_ms: u64,
) -> Option<SkillApprovalJournalEntry> {
    if entry.status == SkillApprovalJournalStatus::Executing {
        Some(skill_with(entry, SkillApprovalJournalStatus::Interrupted, now_ms))
    } else if entry.status == SkillApprovalJournalStatus::Pending && entry.expires_at_ms <= now_ms {
        Some(skill_with(entry, SkillApprovalJournalStatus::Expired, now_ms))
    } else {
        None
    }
}

/// The entry to write back for one stored Skill approval during recovery.
pub fn recover_skill_approval(entry: SkillApprovalJournalEntry, now_ms: u64) -> (r: Option<
    SkillApprovalJournalEntry,
>)
    ensures
        r == skill_recovery(entry, now_ms),
{
    let mut entry = entry;
    if entry.status == SkillApprovalJournalStatus::Executing {
        entry.status = SkillApprovalJournalStatus::Interrupted;
        entry.updated_at_ms = now_ms;
        return Some(entry);
    }
    if entry.status == SkillApprovalJournalStatus::Pending && entry.expires_at_ms <= now_ms {
        entry.status = SkillApprovalJournalStatus::Expired;
        entry.updated_at_ms = now_ms;
        return Some(entry);
    }
    None
}

/// `entry` with a new status and update time.
pub open spec fn automation_with(
    entry: AutomationApprovalEntry,
    status: AutomationApprovalStatus,
    now_ms: u64,
) -> AutomationApprovalEntry {
    AutomationApprovalEntry { status, updated_at_ms: now_ms, ..entry }
}

/// Resolving a stored Automation approval that must still be pending, as for
/// Skill approvals.
pub open spec fn automation_pending_outcome(
    stored: Option<AutomationApprovalEntry>,
    now_ms: u64,
    target: AutomationApprovalStatus,
) -> (Option<AutomationApprovalEntry>, Result<(), SqlitePersistenceError>) {
    match stored {
        None => (None, Err(SqlitePersistenceError::AutomationApprovalNotPending)),
        Some(e) => if e.status != AutomationApprovalStatus::Pending {
            (None, Err(SqlitePersistenceError::AutomationApprovalNotPending))
        } else if e.expires_at_ms <= now_ms {
            (
                Some(automation_with(e, AutomationApprovalStatus::Expired, now_ms)),
                Err(SqlitePersistenceError::AutomationApprovalExpired),
            )
        } else {
            (Some(automation_with(e, target, now_ms)), Ok(()))
        },
    }
}

fn resolve_automation_pending(
    stored: Option<AutomationApprovalEntry>,
    now_ms: u64,
    target: AutomationApprovalStatus,
) -> (r: (Option<AutomationApprovalEntry>, Result<(), SqlitePersistenceError>))
    ensures
        r == automation_pending_outcome(stored, now_ms, target),
{
    let mut entry = match stored {
        None => return (None, Err(SqlitePersistenceError::AutomationApprovalNotPending)),
        Some(e) => e,
    };
    if entry.status != AutomationApprovalStatus::Pending {
        return (None, Err(SqlitePersistenceError::AutomationApprovalNotPending));
    }
    if entry.expires_at_ms <= now_ms {
        entry.status = AutomationApprovalStatus::Expired;
        entry.updated_at_ms = now_ms;
        return (Some(entry), Err(SqlitePersistenceError::AutomationApprovalExpired));
    }
    entry.status = target;
    entry.updated_at_ms = now_ms;
    (Some(entry), Ok(()))
}

/// Claims a stored Automation approval for execution.
pub fn claim_automation_approval(stored: Option<AutomationApprovalEntry>, now_ms: u64) -> (r: (
    Option<AutomationApprovalEntry>,
    Result<(), SqlitePersistenceError>,
))
    ensures
        r == automation_pending_outcome(stored, now_ms, AutomationApprovalStatus::Executing),
{
    resolve_automation_pending(stored, now_ms, AutomationApprovalStatus::Executing)
}

/// Rejects a stored Automation approval.
pub fn reject_automation_approval(stored: Option<AutomationApprovalEntry>, now_ms: u64) -> (r: (
    Option<AutomationApprovalEntry>,
    Result<(), SqlitePersistenceError>,
))
    ensures
        r == automation_pending_outcome(stored, now_ms, AutomationApprovalStatus::Rejected),
{
    resolve_automation_pending(stored, now_ms, AutomationApprovalStatus::Rejected)
}

/// The finished entry of a claimed Automation approval, or why not: it may
/// finish as completed or failed, only from execution.
pub open spec fn automation_finish_outcome(
    stored: Option<AutomationApprovalEntry>,
    status: AutomationApprovalStatus,
    now_ms: u64,
    error: Option<String>,
) -> Result<AutomationApprovalEntry, SqlitePersistenceError> {
    if !(status == AutomationApprovalStatus::Completed || status == AutomationApprovalStatus::Failed) {
        Err(SqlitePersistenceError::InvalidAutomationApprovalJournal)
    } else {
        match stored {
            Some(e) => if e.status != AutomationApprovalStatus::Executing {
                Err(SqlitePersistenceError::AutomationApprovalNotPending)
            } else {
                Ok(AutomationApprovalEntry { error, ..automation_with(e, status, now_ms) })
            },
            None => Err(SqlitePersistenceError::AutomationApprovalNotPending),
        }
    }
}

/// Finishes a claimed Automation approval; on `Ok` the host writes the entry
/// back.
pub fn finish_automation_approval(
    stored: Option<AutomationApprovalEntry>,
    status: AutomationApprovalStatus,
    now_ms: u64,
    error: Option<String>,
) -> (r: Result<AutomationApprovalEntry, SqlitePersistenceError>)
    ensures
        r == automation_finish_outcome(stored, status, now_ms, error),
{
    if status != AutomationApprovalStatus::Completed && status != AutomationApprovalStatus::Failed {
        return Err(SqlitePersistenceError::InvalidAutomationApprovalJournal);
    }
    let mut entry = match stored {
        Some(e) => e,
        None => return Err(SqlitePersistenceError::AutomationApprovalNotPending),
    };
    if entry.status != AutomationApprovalStatus::Executing {
        return Err(SqlitePersistenceError::AutomationApprovalNotPending);
    }
    entry.status = status;
    entry.updated_at_ms = now_ms;
    entry.error = error;
    Ok(entry)
}

/// After a restart, as for Skill approvals.
pub open spec fn automation_recovery(entry: AutomationApprovalEntry, now_ms: u64) -> Option<
    AutomationApprovalEntry,
> {
    if entry.status == AutomationApprovalStatus::Executing {
        Some(automation_with(entry, AutomationApprovalStatus::Interrupted, now_ms))
    } else if entry.status == AutomationApprovalStatus::Pending && entry.expires_at_ms <= now_ms {
        Some(automation_with(entry, AutomationApprovalStatus::Expired, now_ms))
    } else {
        None
    }
}

/// The entry to write back for one stored Automation approval during
/// recovery.
pub fn recover_automation_approval(entry: AutomationApprovalEntry, now_ms: u64) -> (r: Option<
    AutomationApprovalEntry,
>)
    ensures
        r == automation_recovery(entry, now_ms),
{
    let mut entry = entry;
    if entry.status == AutomationApprovalStatus::Executing {
        entry.status = AutomationApprovalStatus::Interrupted;
        entry.updated_at_ms = now_ms;
        return Some(entry);
    }
    if entry.status == AutomationApprovalStatus::Pending && entry.expires_at_ms <= now_ms {
        entry.status = AutomationApprovalStatus::Expired;
        entry.updated_at_ms = now_ms;
        return Some(entry);
    }
    None
}

/// Checks the size of a page of pending Automation approvals.
///
/// # Errors
///
/// Returns [`SqlitePersistenceError::InvalidAutomationApprovalJournal`]
/// unless `1 <= limit <= 256`.
pub fn validate_pending_page(limit: usize) -> (r: Result<(), SqlitePersistenceError>)
    ensures
        r is Ok <==> 1 <= limit <= MAX_PENDING_PAGE,
        r is Err ==> r == Err::<(), SqlitePersistenceError>(
            SqlitePersistenceError::InvalidAutomationApprovalJournal,
        ),
{
    if limit == 0 || limit > MAX_PENDING_PAGE {
        return Err(SqlitePersistenceError::InvalidAutomationApprovalJournal);
    }
    Ok(())
}

// ----------------------------------------------------------------------------
// Laws
// ----------------------------------------------------------------------------

/// Law: a claim is single-use. Once a Skill approval was claimed, claiming or
/// rejecting the claimed entry again is refused as not pending, and nothing is
/// written.
pub proof fn law_skill_claim_single_use(stored: SkillApprovalJournalEntry, t0: u64, t1: u64)
    requires
        skill_pending_outcome(Some(stored), t0, SkillApprovalJournalStatus::Executing).1 is Ok,
    ensures
        ({
            let claimed = skill_pending_outcome(
                Some(stored),
                t0,
                SkillApprovalJournalStatus::Executing,
            ).0->0;
            &&& skill_pending_outcome(Some(claimed), t1, SkillApprovalJournalStatus::Executing)
                == (None::<SkillApprovalJournalEntry>, Err::<
                (),
                SqlitePersistenceError,
            >(SqlitePersistenceError::SkillApprovalNotPending))
            &&& skill_pending_outcome(Some(claimed), t1, SkillApprovalJournalStatus::Rejected)
                == (None::<SkillApprovalJournalEntry>, Err::<
                (),
                SqlitePersistenceError,
            >(SqlitePersistenceError::SkillApprovalNotPending))
        }),
{
}

/// Law: terminal states are one-way. A completed, rejected, expired, failed
/// or interrupted Skill approval can be neither claimed, rejected, finished
/// nor changed by recovery.
pub proof fn law_skill_terminal_one_way(
    entry: SkillApprovalJournalEntry,
    now_ms: u64,
    status: SkillApprovalJournalStatus,
    error: Option<String>,
)
    requires
        entry.status != SkillApprovalJournalStatus::Pending,
        entry.status != SkillApprovalJournalStatus::Executing,
    ensures
        skill_pending_outcome(Some(entry), now_ms, SkillApprovalJournalStatus::Executing).1 is Err,
        skill_pending_outcome(Some(entry), now_ms, SkillApprovalJournalStatus::Rejected).1 is Err,
        skill_finish_outcome(Some(entry), status, now_ms, error) is Err,
        skill_recovery(entry, now_ms) is None,
{
}

/// Law: recovery expires only stale pending approvals: a pending approval is
/// changed by recovery exactly when it is past its expiry, and then it is
/// expired.
pub proof fn law_skill_recovery_expires_only_stale(entry: SkillApprovalJournalEntry, now_ms: u64)
    requires
        entry.status == SkillApprovalJournalStatus::Pending,
    ensures
        (skill_recovery(entry, now_ms) is Some) == (entry.expires_at_ms <= now_ms),
        skill_recovery(entry, now_ms) matches Some(e) ==> e.status
            == SkillApprovalJournalStatus::Expired,
{
}

/// Law: an Automation approval claim is single-use, as for Skill approvals.
pub proof fn law_automation_claim_single_use(stored: AutomationApprovalEntry, t0: u64, t1: u64)
    requires
        automation_pending_outcome(Some(stored), t0, AutomationApprovalStatus::Executing).1 is Ok,
    ensures
        ({
            let claimed = automation_pending_outcome(
                Some(stored),
                t0,
                AutomationApprovalStatus::Executing,
            ).0->0;
            automation_pending_outcome(Some(claimed), t1, AutomationApprovalStatus::Executing)
                == (None::<AutomationApprovalEntry>, Err::<
                (),
                SqlitePersistenceError,
            >(SqlitePersistenceError::AutomationApprovalNotPending))
        }),
{
}

/// Law: recovery interrupts every executing Automation approval and expires
/// pending ones past their expiry, touching nothing else.
pub proof fn law_automation_recovery(entry: AutomationApprovalEntry, now_ms: u64)
    ensures
        entry.status == AutomationApprovalStatus::Executing ==> automation_recovery(entry, now_ms)
            == Some(automation_with(entry, AutomationApprovalStatus::Interrupted, now_ms)),
        (entry.status != AutomationApprovalStatus::Executing && entry.status
            != AutomationApprovalStatus::Pending) ==> automation_recovery(entry, now_ms) is None,
{
}

} // verus!
