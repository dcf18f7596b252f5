//! The journal of Agent tasks that Automation runs start: one task per run
//! and idempotency key, moving once from active to a terminal state.
//!
//! The runtime's admission of a task is read for its task and root task
//! identifiers only. Identifiers are UUIDs held as 128-bit integers.
use crate::error::SqlitePersistenceError;
use crate::journals::{agent_transition_allowed, valid_transition, AutomationAgentJournalStatus};
use crate::text::{blank, contains_control, has_control_char, is_blank, str_equal};
use vstd::prelude::*;
use vstd::utf8::encode_utf8;

verus! {

/// Payload version of journal rows.
pub const AUTOMATION_AGENT_JOURNAL_VERSION: u32 = 1;

/// Spec identifier of journal entries.
pub const AUTOMATION_AGENT_JOURNAL_SPEC: &'static str = "nimora.automation-agent-journal/1";

/// Longest model name.
pub const MAX_MODEL_BYTES: usize = 128;

/// Longest idempotency key.
pub const MAX_IDEMPOTENCY_KEY_BYTES: usize = 128;

/// Longest recorded error (4 KiB).
pub const MAX_AGENT_ERROR_BYTES: usize = 4_096;

/// Largest value storage holds (`i64::MAX`).
pub const MAX_STORED: u64 = 9_223_372_036_854_775_807;

/// The error recorded for tasks interrupted by a restart.
pub const RESTART_ERROR: &'static str = "desktop process restarted";

/// What storage answers a second row for one task.
pub const DUPLICATE_TASK: &'static str = "UNIQUE constraint failed: automation_agent_journal.task_id";

/// What storage answers a second task for one run and idempotency key.
pub const DUPLICATE_KEY: &'static str =
    "UNIQUE constraint failed: automation_agent_journal.run_id, automation_agent_journal.idempotency_key";

/// One Agent task started by an Automation run.
#[derive(Debug, Clone, PartialEq, Eq)]
pub struct AutomationAgentJournalEntry {
    pub spec: String,
    pub run_id: u128,
    pub idempotency_key: String,
    /// The admitted task's identifier.
    pub task_id: u128,
    /// The admitted task's root: the run that started it.
    pub root_task_id: u128,
    pub model: String,
    pub status: AutomationAgentJournalStatus,
    pub submitted_at_ms: u64,
    pub updated_at_ms: u64,
    pub error: Option<String>,
}

/// One row of the journal: an entry and its payload version.
#[derive(Debug, Clone, PartialEq, Eq)]
pub struct AgentJournalRow {
    pub schema_version: u32,
    pub entry: AutomationAgentJournalEntry,
}

/// The identity of a task is acceptable: a run that is the task's root, an
/// idempotency key of 1 to 128 bytes without control characters, and a
/// non-blank model name of at most 128 bytes.
pub open spec fn identity_ok(run_id: u128, idempotency_key: Seq<char>, root_task_id: u128, model: Seq<char>) -> bool {
    &&& run_id != 0
    &&& root_task_id == run_id
    &&& 0 < encode_utf8(idempotency_key).len() <= MAX_IDEMPOTENCY_KEY_BYTES
    &&& !has_control_char(idempotency_key)
    &&& !blank(model)
    &&& encode_utf8(model).len() <= MAX_MODEL_BYTES
}

fn identity_valid(run_id: u128, idempotency_key: &str, root_task_id: u128, model: &str) -> (r: bool)
    ensures
        r == identity_ok(run_id, idempotency_key@, root_task_id, model@),
{
    let key_len = idempotency_key.as_bytes().len();
    run_id != 0 && root_task_id == run_id && key_len > 0 && key_len <= MAX_IDEMPOTENCY_KEY_BYTES
        && !contains_control(idempotency_key) && !is_blank(model) && model.as_bytes().len()
        <= MAX_MODEL_BYTES
}

impl AutomationAgentJournalEntry {
    /// Creates the entry of one submitted task.
    ///
    /// # Errors
    ///
    /// [`SqlitePersistenceError::InvalidAutomationAgentJournal`] unless [`identity_ok`].
    pub fn new(
        run_id: u128,
        idempotency_key: &str,
        task_id: u128,
        root_task_id: u128,
        model: &str,
        submitted_at_ms: u64,
    ) -> (r: Result<Self, SqlitePersistenceError>)
        ensures
            identity_ok(run_id, idempotency_key@, root_task_id, model@) ==> (r matches Ok(e) && {
                &&& e.spec@ == AUTOMATION_AGENT_JOURNAL_SPEC@
                &&& e.run_id == run_id
                &&& e.idempotency_key@ == idempotency_key@
                &&& e.task_id == task_id
                &&& e.root_task_id == root_task_id
                &&& e.model@ == model@
                &&& e.status == AutomationAgentJournalStatus::Submitted
                &&& e.submitted_at_ms == submitted_at_ms
                &&& e.updated_at_ms == submitted_at_ms
                &&& e.error is None
            }),
            !identity_ok(run_id, idempotency_key@, root_task_id, model@) ==> r == Err::<
                Self,
                SqlitePersistenceError,
            >(SqlitePersistenceError::InvalidAutomationAgentJournal),
    {
        if !identity_valid(run_id, idempotency_key, root_task_id, model) {
            return Err(SqlitePersistenceError::InvalidAutomationAgentJournal);
        }
        Ok(
            AutomationAgentJournalEntry {
                spec: AUTOMATION_AGENT_JOURNAL_SPEC.to_owned(),
                run_id,
                idempotency_key: idempotency_key.to_owned(),
                task_id,
                root_task_id,
                model: model.to_owned(),
                status: AutomationAgentJournalStatus::Submitted,
                submitted_at_ms,
                updated_at_ms: submitted_at_ms,
                error: None,
            },
        )
    }
}

/// An optional error of at most 4 KiB.
pub open spec fn error_fits(error: Option<String>) -> bool {
    match error {
        Some(e) => encode_utf8(e@).len() <= MAX_AGENT_ERROR_BYTES,
        None => true,
    }
}

/// An entry that the journal keeps.
pub open spec fn entry_ok(entry: AutomationAgentJournalEntry) -> bool {
    &&& identity_ok(entry.run_id, entry.idempotency_key@, entry.root_task_id, entry.model@)
    &&& entry.spec@ == AUTOMATION_AGENT_JOURNAL_SPEC@
    &&& entry.submitted_at_ms <= entry.updated_at_ms
    &&& error_fits(entry.error)
}

/// Checks an entry.
///
/// # Errors
///
/// [`SqlitePersistenceError::InvalidAutomationAgentJournal`] unless [`entry_ok`].
pub fn validate_entry(entry: &AutomationAgentJournalEntry) -> (r: Result<(), SqlitePersistenceError>)
    ensures
        r is Ok <==> entry_ok(*entry),
        r is Err ==> r == Err::<(), SqlitePersistenceError>(
            SqlitePersistenceError::InvalidAutomationAgentJournal,
        ),
{
    if !identity_valid(
        entry.run_id,
        entry.idempotency_key.as_str(),
        entry.root_task_id,
        entry.model.as_str(),
    ) {
        return Err(SqlitePersistenceError::InvalidAutomationAgentJournal);
    }
    let error_ok = match &entry.error {
        Some(e) => e.as_str().as_bytes().len() <= MAX_AGENT_ERROR_BYTES,
        None => true,
    };
    if !str_equal(entry.spec.as_str(), AUTOMATION_AGENT_JOURNAL_SPEC) || entry.updated_at_ms
        < entry.submitted_at_ms || !error_ok {
        return Err(SqlitePersistenceError::InvalidAutomationAgentJournal);
    }
    Ok(())
}

/// Some row holds the task.
pub open spec fn has_task(rows: Seq<AgentJournalRow>, task_id: u128) -> bool {
    exists|i: int| 0 <= i < rows.len() && rows[i].entry.task_id == task_id
}

/// Some row holds the run's idempotency key.
pub open spec fn has_key(rows: Seq<AgentJournalRow>, run_id: u128, key: Seq<char>) -> bool {
    exists|i: int|
        0 <= i < rows.len() && rows[i].entry.run_id == run_id && rows[i].entry.idempotency_key@
            == key
}

fn find_task(rows: &Vec<AgentJournalRow>, task_id: u128) -> (r: Option<usize>)
    ensures
        match r {
            Some(i) => i < rows@.len() && rows@[i as int].entry.task_id == task_id,
            None => !has_task(rows@, task_id),
        },
{
    let mut i: usize = 0;
    while i < rows.len()
        invariant
            0 <= i <= rows@.len(),
            forall|k: int| 0 <= k < i ==> #[trigger] rows@[k].entry.task_id != task_id,
        decreases rows@.len() - i,
    {
        if rows[i].entry.task_id == task_id {
            return Some(i);
        }
        i = i + 1;
    }
    None
}

fn find_key(rows: &Vec<AgentJournalRow>, run_id: u128, key: &str) -> (r: Option<usize>)
    ensures
        match r {
            Some(i) => i < rows@.len() && rows@[i as int].entry.run_id == run_id
                && rows@[i as int].entry.idempotency_key@ == key@,
            None => !has_key(rows@, run_id, key@),
        },
{
    let mut i: usize = 0;
    while i < rows.len()
        invariant
            0 <= i <= rows@.len(),
            forall|k: int|
                0 <= k < i ==> !(#[trigger] rows@[k].entry.run_id == run_id
                    && rows@[k].entry.idempotency_key@ == key@),
        decreases rows@.len() - i,
    {
        if rows[i].entry.run_id == run_id && str_equal(rows[i].entry.idempotency_key.as_str(), key) {
            return Some(i);
        }
        i = i + 1;
    }
    None
}

/// Records one submitted task, once per task and per run and key.
///
/// # Errors
///
/// [`SqlitePersistenceError::InvalidAutomationAgentJournal`] for an entry
/// that breaks [`entry_ok`] or a time beyond storage range, and a storage
/// error for a second row of the task or of the run's key; the rows are then
/// unchanged.
pub fn submit(rows: &mut Vec<AgentJournalRow>, entry: AutomationAgentJournalEntry) -> (r: Result<
    (),
    SqlitePersistenceError,
>)
    ensures
        !entry_ok(entry) || entry.submitted_at_ms > MAX_STORED ==> r == Err::<
            (),
            SqlitePersistenceError,
        >(SqlitePersistenceError::InvalidAutomationAgentJournal),
        entry_ok(entry) && entry.submitted_at_ms <= MAX_STORED && has_task(old(rows)@, entry.task_id)
            ==> (r matches Err(SqlitePersistenceError::Sqlite(m)) && m@ == DUPLICATE_TASK@),
        entry_ok(entry) && entry.submitted_at_ms <= MAX_STORED && !has_task(old(rows)@, entry.task_id)
            && has_key(old(rows)@, entry.run_id, entry.idempotency_key@) ==> (r matches Err(
            SqlitePersistenceError::Sqlite(m),
        ) && m@ == DUPLICATE_KEY@),
        r is Err ==> final(rows)@ == old(rows)@,
        r is Ok <==> entry_ok(entry) && entry.submitted_at_ms <= MAX_STORED && !has_task(
            old(rows)@,
            entry.task_id,
        ) && !has_key(old(rows)@, entry.run_id, entry.idempotency_key@),
        r is Ok ==> final(rows)@ == old(rows)@.push(
            AgentJournalRow { schema_version: AUTOMATION_AGENT_JOURNAL_VERSION, entry },
        ),
{
    validate_entry(&entry)?;
    if entry.submitted_at_ms > MAX_STORED {
        return Err(SqlitePersistenceError::InvalidAutomationAgentJournal);
    }
    if find_task(rows, entry.task_id).is_some() {
        return Err(SqlitePersistenceError::Sqlite(DUPLICATE_TASK.to_owned()));
    }
    if find_key(rows, entry.run_id, entry.idempotency_key.as_str()).is_some() {
        return Err(SqlitePersistenceError::Sqlite(DUPLICATE_KEY.to_owned()));
    }
    rows.push(AgentJournalRow { schema_version: AUTOMATION_AGENT_JOURNAL_VERSION, entry });
    Ok(())
}

/// What decoding a row fails with, if anything.
pub open spec fn decode_error(row: AgentJournalRow) -> Option<SqlitePersistenceError> {
    if row.schema_version != AUTOMATION_AGENT_JOURNAL_VERSION {
        Some(SqlitePersistenceError::UnsupportedAutomationAgentJournalVersion(row.schema_version))
    } else if !entry_ok(row.entry) {
        Some(SqlitePersistenceError::InvalidAutomationAgentJournal)
    } else {
        None
    }
}

fn copy_entry(e: &AutomationAgentJournalEntry) -> (c: AutomationAgentJournalEntry)
    ensures
        c.spec@ == e.spec@,
        c.run_id == e.run_id,
        c.idempotency_key@ == e.idempotency_key@,
        c.task_id == e.task_id,
        c.root_task_id == e.root_task_id,
        c.model@ == e.model@,
        c.status == e.status,
        c.submitted_at_ms == e.submitted_at_ms,
        c.updated_at_ms == e.updated_at_ms,
        opt_text(c.error) == opt_text(e.error),
{
    AutomationAgentJournalEntry {
        spec: e.spec.clone(),
        run_id: e.run_id,
        idempotency_key: e.idempotency_key.clone(),
        task_id: e.task_id,
        root_task_id: e.root_task_id,
        model: e.model.clone(),
        status: e.status,
        submitted_at_ms: e.submitted_at_ms,
        updated_at_ms: e.updated_at_ms,
        error: match &e.error {
            Some(text) => Some(text.clone()),
            None => None,
        },
    }
}

/// The characters of an optional text.
pub open spec fn opt_text(s: Option<String>) -> Option<Seq<char>> {
    match s {
        Some(t) => Some(t@),
        None => None,
    }
}

/// The entry `c` states what `e` states.
pub open spec fn same_entry(c: AutomationAgentJournalEntry, e: AutomationAgentJournalEntry) -> bool {
    &&& c.spec@ == e.spec@
    &&& c.run_id == e.run_id
    &&& c.idempotency_key@ == e.idempotency_key@
    &&& c.task_id == e.task_id
    &&& c.root_task_id == e.root_task_id
    &&& c.model@ == e.model@
    &&& c.status == e.status
    &&& c.submitted_at_ms == e.submitted_at_ms
    &&& c.updated_at_ms == e.updated_at_ms
    &&& opt_text(c.error) == opt_text(e.error)
}

/// Decodes one row.
///
/// # Errors
///
/// [`SqlitePersistenceError::UnsupportedAutomationAgentJournalVersion`] for
/// another payload version, and
/// [`SqlitePersistenceError::InvalidAutomationAgentJournal`] for an entry that
/// breaks [`entry_ok`].
pub fn decode_row(row: &AgentJournalRow) -> (r: Result<AutomationAgentJournalEntry, SqlitePersistenceError>)
    ensures
        match decode_error(*row) {
            Some(e) => r == Err::<AutomationAgentJournalEntry, SqlitePersistenceError>(e),
            None => r matches Ok(c) && same_entry(c, row.entry),
        },
{
    if row.schema_version != AUTOMATION_AGENT_JOURNAL_VERSION {
        return Err(
            SqlitePersistenceError::UnsupportedAutomationAgentJournalVersion(row.schema_version),
        );
    }
    validate_entry(&row.entry)?;
    Ok(copy_entry(&row.entry))
}

/// Finds the task submitted under a run's idempotency key.
///
/// # Errors
///
/// The errors of [`decode_row`] for its row.
pub fn get_by_key(rows: &Vec<AgentJournalRow>, run_id: u128, idempotency_key: &str) -> (r: Result<
    Option<AutomationAgentJournalEntry>,
    SqlitePersistenceError,
>)
    ensures
        !has_key(rows@, run_id, idempotency_key@) ==> r == Ok::<
            Option<AutomationAgentJournalEntry>,
            SqlitePersistenceError,
        >(None),
        has_key(rows@, run_id, idempotency_key@) ==> exists|i: int|
            0 <= i < rows@.len() && rows@[i].entry.run_id == run_id
                && rows@[i].entry.idempotency_key@ == idempotency_key@ && match decode_error(
                rows@[i],
            ) {
                Some(e) => r == Err::<Option<AutomationAgentJournalEntry>, SqlitePersistenceError>(
                    e,
                ),
                None => r matches Ok(Some(c)) && same_entry(c, rows@[i].entry),
            },
{
    match find_key(rows, run_id, idempotency_key) {
        None => Ok(None),
        Some(i) => match decode_row(&rows[i]) {
            Ok(e) => Ok(Some(e)),
            Err(e) => Err(e),
        },
    }
}

/// Finds a task by its identifier.
///
/// # Errors
///
/// The errors of [`decode_row`] for its row.
pub fn get_by_task_id(rows: &Vec<AgentJournalRow>, task_id: u128) -> (r: Result<
    Option<AutomationAgentJournalEntry>,
    SqlitePersistenceError,
>)
    ensures
        !has_task(rows@, task_id) ==> r == Ok::<
            Option<AutomationAgentJournalEntry>,
            SqlitePersistenceError,
        >(None),
        has_task(rows@, task_id) ==> exists|i: int|
            0 <= i < rows@.len() && rows@[i].entry.task_id == task_id && match decode_error(
                rows@[i],
            ) {
                Some(e) => r == Err::<Option<AutomationAgentJournalEntry>, SqlitePersistenceError>(
                    e,
                ),
                None => r matches Ok(Some(c)) && same_entry(c, rows@[i].entry),
            },
{
    match find_task(rows, task_id) {
        None => Ok(None),
        Some(i) => match decode_row(&rows[i]) {
            Ok(e) => Ok(Some(e)),
            Err(e) => Err(e),
        },
    }
}

/// An optional error a transition can record: absent, or 1 to 4096 bytes.
pub open spec fn transition_error_ok(error: Option<Seq<char>>) -> bool {
    match error {
        Some(e) => 0 < encode_utf8(e).len() <= MAX_AGENT_ERROR_BYTES,
        None => true,
    }
}

/// A stored entry may move to `status` at `updated_at_ms` with `error`.
pub open spec fn transition_ok(
    entry: AutomationAgentJournalEntry,
    status: AutomationAgentJournalStatus,
    updated_at_ms: u64,
    error: Option<Seq<char>>,
) -> bool {
    &&& entry.updated_at_ms <= updated_at_ms
    &&& transition_error_ok(error)
    &&& agent_transition_allowed(entry.status, status)
    &&& updated_at_ms <= MAX_STORED
}

/// Moves an active task to `status` at `updated_at_ms`, recording `error`.
///
/// # Errors
///
/// [`SqlitePersistenceError::InvalidAutomationAgentJournal`] for an unknown
/// task, a stored entry that does not decode, or a transition that breaks
/// [`transition_ok`]; the rows are then unchanged. A row of another payload
/// version fails with its decoding error.
pub fn transition(
    rows: &mut Vec<AgentJournalRow>,
    task_id: u128,
    status: AutomationAgentJournalStatus,
    updated_at_ms: u64,
    error: Option<&str>,
) -> (r: Result<(), SqlitePersistenceError>)
    ensures
        r is Err ==> final(rows)@ == old(rows)@,
        !has_task(old(rows)@, task_id) ==> r == Err::<(), SqlitePersistenceError>(
            SqlitePersistenceError::InvalidAutomationAgentJournal,
        ),
        r is Ok ==> exists|i: int|
            0 <= i < old(rows)@.len() && old(rows)@[i].entry.task_id == task_id && decode_error(
                old(rows)@[i],
            ) is None && transition_ok(
                old(rows)@[i].entry,
                status,
                updated_at_ms,
                match error {
                    Some(e) => Some(e@),
                    None => None,
                },
            ) && final(rows)@.len() == old(rows)@.len() && (forall|k: int|
                0 <= k < old(rows)@.len() && k != i ==> #[trigger] final(rows)@[k] == old(
                    rows,
                )@[k]) && {
                let n = final(rows)@[i].entry;
                let o = old(rows)@[i].entry;
                &&& final(rows)@[i].schema_version == old(rows)@[i].schema_version
                &&& n.status == status
                &&& n.updated_at_ms == updated_at_ms
                &&& opt_text(n.error) == match error {
                    Some(e) => Some(e@),
                    None => None,
                }
                &&& n.spec@ == o.spec@ && n.run_id == o.run_id && n.idempotency_key@
                    == o.idempotency_key@ && n.task_id == o.task_id && n.root_task_id
                    == o.root_task_id && n.model@ == o.model@ && n.submitted_at_ms
                    == o.submitted_at_ms
            },
        has_task(old(rows)@, task_id) ==> exists|i: int|
            0 <= i < old(rows)@.len() && old(rows)@[i].entry.task_id == task_id && (r is Ok
                <==> decode_error(old(rows)@[i]) is None && transition_ok(
                old(rows)@[i].entry,
                status,
                updated_at_ms,
                match error {
                    Some(e) => Some(e@),
                    None => None,
                },
            )),
{
    let i = match find_task(rows, task_id) {
        Some(i) => i,
        None => {
            return Err(SqlitePersistenceError::InvalidAutomationAgentJournal);
        },
    };
    let current = decode_row(&rows[i])?;
    let error_ok = match error {
        Some(e) => e.as_bytes().len() > 0 && e.as_bytes().len() <= MAX_AGENT_ERROR_BYTES,
        None => true,
    };
    if updated_at_ms < current.updated_at_ms || !error_ok || !valid_transition(
        current.status,
        status,
    ) {
        return Err(SqlitePersistenceError::InvalidAutomationAgentJournal);
    }
    if updated_at_ms > MAX_STORED {
        return Err(SqlitePersistenceError::InvalidAutomationAgentJournal);
    }
    let ghost o = rows@;
    let version = rows[i].schema_version;
    let new_entry = AutomationAgentJournalEntry {
        status,
        updated_at_ms,
        error: match error {
            Some(e) => Some(e.to_owned()),
            None => None,
        },
        ..current
    };
    rows.set(i, AgentJournalRow { schema_version: version, entry: new_entry });
    proof {
        assert forall|k: int| 0 <= k < o.len() && k != i implies #[trigger] rows@[k] == o[k] by {}
    }
    Ok(())
}

/// A task that is still in flight.
pub open spec fn active(status: AutomationAgentJournalStatus) -> bool {
    status == AutomationAgentJournalStatus::Submitted || status
        == AutomationAgentJournalStatus::WaitingForConfirmation
}

/// The number of active tasks.
pub open spec fn active_count(rows: Seq<AgentJournalRow>) -> nat
    decreases rows.len(),
{
    if rows.len() == 0 {
        0
    } else {
        active_count(rows.drop_last()) + if active(rows.last().entry.status) {
            1nat
        } else {
            0nat
        }
    }
}

/// An active row can be interrupted at `at_ms`.
pub open spec fn interruptible(row: AgentJournalRow, at_ms: u64) -> bool {
    decode_error(row) is None && row.entry.updated_at_ms <= at_ms && at_ms <= MAX_STORED
}

/// The row after a restart at `at_ms`: an active task is interrupted with
/// the restart error; others are unchanged.
pub open spec fn restarted(row: AgentJournalRow, new_row: AgentJournalRow, at_ms: u64) -> bool {
    if active(row.entry.status) {
        &&& new_row.schema_version == row.schema_version
        &&& new_row.entry.status == AutomationAgentJournalStatus::Interrupted
        &&& new_row.entry.updated_at_ms == at_ms
        &&& opt_text(new_row.entry.error) == Some(RESTART_ERROR@)
        &&& new_row.entry.spec@ == row.entry.spec@
        &&& new_row.entry.run_id == row.entry.run_id
        &&& new_row.entry.idempotency_key@ == row.entry.idempotency_key@
        &&& new_row.entry.task_id == row.entry.task_id
        &&& new_row.entry.root_task_id == row.entry.root_task_id
        &&& new_row.entry.model@ == row.entry.model@
        &&& new_row.entry.submitted_at_ms == row.entry.submitted_at_ms
    } else {
        new_row == row
    }
}

/// After a restart, interrupts every task left active, one at a time, and
/// counts them.
///
/// # Errors
///
/// The error of the first active row, in table order, that cannot be
/// interrupted at `at_ms` (a row that does not decode, was updated later, or
/// a time beyond storage range); the rows before it stay interrupted.
pub fn recover_active(rows: &mut Vec<AgentJournalRow>, at_ms: u64) -> (r: Result<
    usize,
    SqlitePersistenceError,
>)
    ensures
        final(rows)@.len() == old(rows)@.len(),
        (forall|k: int|
            0 <= k < old(rows)@.len() && active(#[trigger] old(rows)@[k].entry.status)
                ==> interruptible(old(rows)@[k], at_ms)) ==> {
            &&& r == Ok::<usize, SqlitePersistenceError>(active_count(old(rows)@) as usize)
            &&& forall|k: int|
                0 <= k < old(rows)@.len() ==> restarted(old(rows)@[k], #[trigger] final(rows)@[k], at_ms)
        },
        r is Err ==> exists|k: int|
            0 <= k < old(rows)@.len() && active(#[trigger] old(rows)@[k].entry.status)
                && !interruptible(old(rows)@[k], at_ms),
{
    let ghost o = rows@;
    let mut count: usize = 0;
    let mut i: usize = 0;
    while i < rows.len()
        invariant
            0 <= i <= rows@.len(),
            rows@.len() == o.len(),
            o == old(rows)@,
            count == active_count(o.take(i as int)),
            count <= i,
            forall|k: int|
                0 <= k < i ==> active(#[trigger] o[k].entry.status) ==> interruptible(o[k], at_ms),
            forall|k: int| 0 <= k < i ==> restarted(o[k], #[trigger] rows@[k], at_ms),
            forall|k: int| i <= k < rows@.len() ==> #[trigger] rows@[k] == o[k],
        decreases rows@.len() - i,
    {
        proof {
            assert(o.take(i + 1).drop_last() =~= o.take(i as int));
        }
        let status = rows[i].entry.status;
        if status == AutomationAgentJournalStatus::Submitted || status
            == AutomationAgentJournalStatus::WaitingForConfirmation {
            let current = match decode_row(&rows[i]) {
                Ok(c) => c,
                Err(e) => {
                    return Err(e);
                },
            };
            if at_ms < current.updated_at_ms || at_ms > MAX_STORED {
                return Err(SqlitePersistenceError::InvalidAutomationAgentJournal);
            }
            let version = rows[i].schema_version;
            let new_entry = AutomationAgentJournalEntry {
                status: AutomationAgentJournalStatus::Interrupted,
                updated_at_ms: at_ms,
                error: Some(RESTART_ERROR.to_owned()),
                ..current
            };
            rows.set(i, AgentJournalRow { schema_version: version, entry: new_entry });
            count = count + 1;
        }
        i = i + 1;
    }
    proof {
        assert(o.take(o.len() as int) =~= o);
    }
    Ok(count)
}

/// Law: a restart leaves no task active, and never rewrites a finished one.
pub proof fn law_restart_leaves_nothing_active(
    before: Seq<AgentJournalRow>,
    after: Seq<AgentJournalRow>,
    at_ms: u64,
)
    requires
        before.len() == after.len(),
        forall|k: int| 0 <= k < before.len() ==> restarted(before[k], #[trigger] after[k], at_ms),
    ensures
        forall|k: int| 0 <= k < after.len() ==> !active(#[trigger] after[k].entry.status),
        forall|k: int|
            0 <= k < after.len() && !active(#[trigger] before[k].entry.status) ==> after[k]
                == before[k],
{
    assert forall|k: int| 0 <= k < after.len() implies !active(#[trigger] after[k].entry.status) by {
        assert(restarted(before[k], after[k], at_ms));
    }
    assert forall|k: int|
        0 <= k < after.len() && !active(#[trigger] before[k].entry.status) implies after[k]
        == before[k] by {
        assert(restarted(before[k], after[k], at_ms));
    }
}

/// Largest number of tasks listed for one run.
pub const MAX_TASKS_PER_RUN: usize = 64;

/// `a` is listed before `b`: submitted earlier, or at the same time with the
/// smaller task identifier (canonical UUID text orders as the integer).
pub open spec fn listed_before(a: AgentJournalRow, b: AgentJournalRow) -> bool {
    a.entry.submitted_at_ms < b.entry.submitted_at_ms || (a.entry.submitted_at_ms
        == b.entry.submitted_at_ms && a.entry.task_id < b.entry.task_id)
}

/// No two rows hold one task.
pub open spec fn distinct_tasks(rows: Seq<AgentJournalRow>) -> bool {
    forall|i: int, j: int|
        0 <= i < rows.len() && 0 <= j < rows.len() && i != j ==> #[trigger] rows[i].entry.task_id
            != #[trigger] rows[j].entry.task_id
}

/// `picked` indexes the first `limit` tasks of `run_id` in listing order.
pub open spec fn run_page(rows: Seq<AgentJournalRow>, run_id: u128, limit: nat, picked: Seq<usize>) -> bool {
    &&& picked.len() <= limit
    &&& forall|k: int|
        0 <= k < picked.len() ==> #[trigger] picked[k] < rows.len() && rows[picked[k] as int].entry.run_id
            == run_id
    &&& forall|a: int, b: int|
        0 <= a < b < picked.len() ==> listed_before(
            rows[#[trigger] picked[a] as int],
            rows[#[trigger] picked[b] as int],
        )
    &&& picked.len() < limit ==> forall|j: usize|
        j < rows.len() && rows[j as int].entry.run_id == run_id ==> #[trigger] picked.contains(j)
    &&& picked.len() > 0 ==> forall|j: int|
        0 <= j < rows.len() && rows[j].entry.run_id == run_id && !picked.contains(j as usize)
            ==> listed_before(rows[picked.last() as int], #[trigger] rows[j])
}

fn is_listed_before(a: &AgentJournalRow, b: &AgentJournalRow) -> (r: bool)
    ensures
        r == listed_before(*a, *b),
{
    a.entry.submitted_at_ms < b.entry.submitted_at_ms || (a.entry.submitted_at_ms
        == b.entry.submitted_at_ms && a.entry.task_id < b.entry.task_id)
}

proof fn lemma_listed_transitive(a: AgentJournalRow, b: AgentJournalRow, c: AgentJournalRow)
    requires
        listed_before(a, b),
        listed_before(b, c),
    ensures
        listed_before(a, c),
{
}

/// Picks the first `limit` tasks of `run_id` in listing order.
pub fn select_run_tasks(rows: &Vec<AgentJournalRow>, run_id: u128, limit: usize) -> (r: Vec<usize>)
    ensures
        r@.len() <= limit,
        forall|k: int| 0 <= k < r@.len() ==> #[trigger] r@[k] < rows@.len(),
        distinct_tasks(rows@) ==> run_page(rows@, run_id, limit as nat, r@),
{
    let mut picked: Vec<usize> = Vec::new();
    let mut exhausted = false;
    while !exhausted && picked.len() < limit
        invariant
            picked@.len() <= limit,
            forall|k: int|
                0 <= k < picked@.len() ==> #[trigger] picked@[k] < rows@.len()
                    && rows@[picked@[k] as int].entry.run_id == run_id,
            forall|a: int, b: int|
                0 <= a < b < picked@.len() ==> listed_before(
                    rows@[#[trigger] picked@[a] as int],
                    rows@[#[trigger] picked@[b] as int],
                ),
            distinct_tasks(rows@) && picked@.len() > 0 ==> forall|j: int|
                0 <= j < rows@.len() && rows@[j].entry.run_id == run_id && !listed_before(
                    rows@[picked@.last() as int],
                    #[trigger] rows@[j],
                ) ==> picked@.contains(j as usize),
            exhausted && picked@.len() == 0 ==> forall|j: int|
                0 <= j < rows@.len() ==> #[trigger] rows@[j].entry.run_id != run_id,
            exhausted && picked@.len() > 0 ==> forall|j: int|
                0 <= j < rows@.len() && rows@[j].entry.run_id == run_id ==> !listed_before(
                    rows@[picked@.last() as int],
                    #[trigger] rows@[j],
                ),
        decreases limit - picked@.len(), if exhausted { 0int } else { 1int },
    {
        let mut best: Option<usize> = None;
        let mut i: usize = 0;
        while i < rows.len()
            invariant
                0 <= i <= rows@.len(),
                forall|k: int| 0 <= k < picked@.len() ==> #[trigger] picked@[k] < rows@.len(),
                match best {
                    Some(b) => b < i && rows@[b as int].entry.run_id == run_id && (picked@.len() > 0
                        ==> listed_before(rows@[picked@.last() as int], rows@[b as int])) && (
                    picked@.len() == 0 ==> forall|j: int|
                        0 <= j < i && rows@[j].entry.run_id == run_id ==> !listed_before(
                            #[trigger] rows@[j],
                            rows@[b as int],
                        )) && (picked@.len() > 0 ==> forall|j: int|
                        0 <= j < i && rows@[j].entry.run_id == run_id && listed_before(
                            rows@[picked@.last() as int],
                            #[trigger] rows@[j],
                        ) ==> !listed_before(rows@[j], rows@[b as int])),
                    None => (picked@.len() == 0 ==> forall|j: int|
                        0 <= j < i ==> #[trigger] rows@[j].entry.run_id != run_id) && (picked@.len()
                        > 0 ==> forall|j: int|
                        0 <= j < i && rows@[j].entry.run_id == run_id ==> !listed_before(
                            rows@[picked@.last() as int],
                            #[trigger] rows@[j],
                        )),
                },
            decreases rows@.len() - i,
        {
            let candidate = rows[i].entry.run_id == run_id && (picked.len() == 0 || is_listed_before(
                &rows[picked[picked.len() - 1]],
                &rows[i],
            ));
            if candidate {
                let take = match best {
                    None => true,
                    Some(b) => is_listed_before(&rows[i], &rows[b]),
                };
                if take {
                    proof {
                        if let Some(b) = best {
                            if picked@.len() == 0 {
                                assert forall|j: int|
                                    0 <= j < i && rows@[j].entry.run_id == run_id implies !listed_before(
                                    #[trigger] rows@[j],
                                    rows@[i as int],
                                ) by {
                                    if listed_before(rows@[j], rows@[i as int]) {
                                        lemma_listed_transitive(rows@[j], rows@[i as int], rows@[b as int]);
                                    }
                                }
                            } else {
                                assert forall|j: int|
                                    0 <= j < i && rows@[j].entry.run_id == run_id && listed_before(
                                        rows@[picked@.last() as int],
                                        #[trigger] rows@[j],
                                    ) implies !listed_before(rows@[j], rows@[i as int]) by {
                                    if listed_before(rows@[j], rows@[i as int]) {
                                        lemma_listed_transitive(rows@[j], rows@[i as int], rows@[b as int]);
                                    }
                                }
                            }
                        }
                    }
                    best = Some(i);
                }
            }
            i = i + 1;
        }
        match best {
            None => {
                exhausted = true;
            },
            Some(b) => {
                let ghost before = picked@;
                picked.push(b);
                proof {
                    assert(picked@.last() == b);
                    assert forall|a: int, c: int|
                        0 <= a < c < picked@.len() implies listed_before(
                        rows@[#[trigger] picked@[a] as int],
                        rows@[#[trigger] picked@[c] as int],
                    ) by {
                        if c < before.len() {
                            assert(picked@[a] == before[a] && picked@[c] == before[c]);
                        } else if before.len() > 0 {
                            assert(picked@[a] == before[a]);
                            if a < before.len() - 1 {
                                assert(listed_before(rows@[before[a] as int], rows@[before.last() as int]));
                                lemma_listed_transitive(
                                    rows@[before[a] as int],
                                    rows@[before.last() as int],
                                    rows@[b as int],
                                );
                            }
                        }
                    }
                    assert forall|k: int|
                        0 <= k < picked@.len() implies #[trigger] picked@[k] < rows@.len()
                        && rows@[picked@[k] as int].entry.run_id == run_id by {
                        if k < before.len() {
                            assert(picked@[k] == before[k]);
                        }
                    }
                    if distinct_tasks(rows@) {
                        assert forall|j: int|
                            0 <= j < rows@.len() && rows@[j].entry.run_id == run_id && !listed_before(
                                rows@[b as int],
                                #[trigger] rows@[j],
                            ) implies picked@.contains(j as usize) by {
                            if before.len() > 0 && !listed_before(rows@[before.last() as int], rows@[j]) {
                                assert(before.contains(j as usize));
                                let k = choose|k: int| 0 <= k < before.len() && before[k] == j as usize;
                                assert(picked@[k] == j as usize);
                            } else {
                                assert(!listed_before(rows@[j], rows@[b as int]));
                                if j != b {
                                    assert(rows@[j].entry.task_id != rows@[b as int].entry.task_id);
                                }
                                assert(picked@[picked@.len() - 1] == j as usize);
                            }
                        }
                    }
                }
            },
        }
    }
    proof {
        if distinct_tasks(rows@) {
            if picked@.len() < limit {
                assert forall|j: usize|
                    j < rows@.len() && rows@[j as int].entry.run_id == run_id implies #[trigger] picked@.contains(
                    j,
                ) by {
                    let jj = j as int;
                    assert(rows@[jj].entry.run_id == run_id);
                    if picked@.len() > 0 {
                        assert(!listed_before(rows@[picked@.last() as int], rows@[jj]));
                    }
                }
            }
        }
    }
    picked
}

/// The tasks of one run, in listing order (at most 64).
///
/// # Errors
///
/// The error of the first listed row that fails to decode.
pub fn list_by_run(rows: &Vec<AgentJournalRow>, run_id: u128) -> (r: Result<
    Vec<AutomationAgentJournalEntry>,
    SqlitePersistenceError,
>)
    ensures
        distinct_tasks(rows@) ==> exists|picked: Seq<usize>|
            run_page(rows@, run_id, MAX_TASKS_PER_RUN as nat, picked) && match r {
                Ok(entries) => entries@.len() == picked.len() && (forall|k: int|
                    0 <= k < picked.len() ==> decode_error(rows@[#[trigger] picked[k] as int])
                        is None && same_entry(entries@[k], rows@[picked[k] as int].entry)),
                Err(e) => exists|k: int|
                    0 <= k < picked.len() && decode_error(rows@[picked[k] as int]) == Some(e)
                        && forall|m: int|
                        0 <= m < k ==> decode_error(rows@[#[trigger] picked[m] as int]) is None,
            },
{
    let picked = select_run_tasks(rows, run_id, MAX_TASKS_PER_RUN);
    let mut entries: Vec<AutomationAgentJournalEntry> = Vec::new();
    let mut k: usize = 0;
    while k < picked.len()
        invariant
            distinct_tasks(rows@) ==> run_page(rows@, run_id, MAX_TASKS_PER_RUN as nat, picked@),
            0 <= k <= picked@.len(),
            entries@.len() == k,
            forall|m: int| 0 <= m < picked@.len() ==> #[trigger] picked@[m] < rows@.len(),
            forall|m: int|
                0 <= m < k ==> decode_error(rows@[#[trigger] picked@[m] as int]) is None
                    && same_entry(entries@[m], rows@[picked@[m] as int].entry),
        decreases picked@.len() - k,
    {
        match decode_row(&rows[picked[k]]) {
            Ok(entry) => {
                let ghost before = entries@;
                entries.push(entry);
                proof {
                    assert forall|m: int| 0 <= m < k + 1 implies decode_error(
                        rows@[#[trigger] picked@[m] as int],
                    ) is None && same_entry(entries@[m], rows@[picked@[m] as int].entry) by {
                        if m < k {
                            assert(entries@[m] == before[m]);
                        }
                    }
                }
            },
            Err(e) => {
                proof {
                    if distinct_tasks(rows@) {
                        assert(run_page(rows@, run_id, MAX_TASKS_PER_RUN as nat, picked@) && exists|
                            k2: int,
                        |
                            0 <= k2 < picked@.len() && decode_error(rows@[picked@[k2] as int])
                                == Some(e) && forall|m: int|
                                0 <= m < k2 ==> decode_error(rows@[#[trigger] picked@[m] as int])
                                    is None);
                    }
                }
                return Err(e);
            },
        }
        k = k + 1;
    }
    proof {
        if distinct_tasks(rows@) {
            assert(run_page(rows@, run_id, MAX_TASKS_PER_RUN as nat, picked@) && entries@.len()
                == picked@.len() && (forall|m: int|
                0 <= m < picked@.len() ==> decode_error(rows@[#[trigger] picked@[m] as int]) is None
                    && same_entry(entries@[m], rows@[picked@[m] as int].entry)));
        }
    }
    Ok(entries)
}

} // verus!
