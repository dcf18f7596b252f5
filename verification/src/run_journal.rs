//! The Automation run journal: a run is recorded before any action is
//! dispatched, completed once with its immutable result, interrupted when a
//! crash left it running, and listed newest first.
//!
//! The journal table is modelled by its rows ([`AutomationJournalRow`]); a
//! finished run is held by its identity beside its serialized text
//! ([`AutomationRunRecord`]). Identifiers are UUIDs held as 128-bit integers.
use crate::error::SqlitePersistenceError;
use crate::journals::AutomationJournalStatus;
use crate::text::{blank, is_blank, str_equal};
use crate::paging::{self, ListingKey};
use vstd::prelude::*;
use vstd::utf8::encode_utf8;

verus! {

/// Payload version of journal rows.
pub const AUTOMATION_JOURNAL_VERSION: u32 = 1;

/// Spec identifier of journal entries.
pub const AUTOMATION_JOURNAL_ENTRY_SPEC: &'static str = "nimora.automation-journal-entry/1";

/// Longest interruption reason (4 KiB).
pub const MAX_INTERRUPTION_REASON_BYTES: usize = 4_096;

/// Largest page of run history.
pub const MAX_AUTOMATION_HISTORY_PAGE_SIZE: usize = 100;

/// What storage answers a second row for one run.
pub const DUPLICATE_RUN: &'static str = "UNIQUE constraint failed: automation_run_journal.run_id";

/// Largest value storage holds (`i64::MAX`).
pub const MAX_STORED: u64 = 9_223_372_036_854_775_807;

/// The identity of a run about to start.
#[derive(Debug, Clone, PartialEq, Eq)]
pub struct AutomationRunStart {
    pub run_id: u128,
    pub automation_id: String,
    pub trace_id: u128,
    pub event_id: String,
    pub started_at_ms: u64,
}

/// A finished run: its identity, beside the run serialized as text.
#[derive(Debug, Clone, PartialEq, Eq)]
pub struct AutomationRunRecord {
    pub run_id: u128,
    pub automation_id: String,
    pub trace_id: u128,
    pub event_id: String,
    pub payload: String,
}

/// One row of the run journal.
#[derive(Debug, Clone, PartialEq, Eq)]
pub struct AutomationJournalRow {
    pub run_id: u128,
    pub automation_id: String,
    pub trace_id: u128,
    pub event_id: String,
    pub status: AutomationJournalStatus,
    pub started_at_ms: i64,
    pub updated_at_ms: i64,
    pub schema_version: u32,
    pub payload: Option<AutomationRunRecord>,
    pub interruption_reason: Option<String>,
}

/// A journal entry as it is handed out.
#[derive(Debug, Clone, PartialEq, Eq)]
pub struct AutomationJournalEntry {
    pub spec: String,
    pub run_id: u128,
    pub automation_id: String,
    pub trace_id: u128,
    pub event_id: String,
    pub status: AutomationJournalStatus,
    pub started_at_ms: u64,
    pub updated_at_ms: u64,
    pub result: Option<AutomationRunRecord>,
    pub interruption_reason: Option<String>,
}

/// The mathematical content of a run record.
pub open spec fn record_view(r: AutomationRunRecord) -> (u128, Seq<char>, u128, Seq<char>, Seq<char>) {
    (r.run_id, r.automation_id@, r.trace_id, r.event_id@, r.payload@)
}

/// The mathematical content of an optional run record.
pub open spec fn opt_record_view(r: Option<AutomationRunRecord>) -> Option<
    (u128, Seq<char>, u128, Seq<char>, Seq<char>),
> {
    match r {
        Some(x) => Some(record_view(x)),
        None => None,
    }
}

/// The characters of an optional text.
pub open spec fn opt_text(s: Option<String>) -> Option<Seq<char>> {
    match s {
        Some(t) => Some(t@),
        None => None,
    }
}

/// No two rows belong to one run.
pub open spec fn distinct_runs(rows: Seq<AutomationJournalRow>) -> bool {
    forall|i: int, j: int|
        0 <= i < rows.len() && 0 <= j < rows.len() && i != j ==> #[trigger] rows[i].run_id
            != #[trigger] rows[j].run_id
}

fn copy_text(s: &String) -> (r: String)
    ensures
        r@ == s@,
{
    s.clone()
}

fn copy_record(r: &AutomationRunRecord) -> (c: AutomationRunRecord)
    ensures
        record_view(c) == record_view(*r),
{
    AutomationRunRecord {
        run_id: r.run_id,
        automation_id: copy_text(&r.automation_id),
        trace_id: r.trace_id,
        event_id: copy_text(&r.event_id),
        payload: copy_text(&r.payload),
    }
}

// ----------------------------------------------------------------------------
// Writes
// ----------------------------------------------------------------------------

/// A start names a run, a trace, an Automation and an event.
pub open spec fn start_ok(start: AutomationRunStart) -> bool {
    &&& start.run_id != 0
    &&& start.trace_id != 0
    &&& !blank(start.automation_id@)
    &&& !blank(start.event_id@)
}

/// Checks a run start.
///
/// # Errors
///
/// [`SqlitePersistenceError::InvalidAutomationJournal`] unless [`start_ok`].
pub fn validate_start(start: &AutomationRunStart) -> (r: Result<(), SqlitePersistenceError>)
    ensures
        r is Ok <==> start_ok(*start),
        r is Err ==> r == Err::<(), SqlitePersistenceError>(
            SqlitePersistenceError::InvalidAutomationJournal,
        ),
{
    if start.run_id == 0 || start.trace_id == 0 || is_blank(start.automation_id.as_str())
        || is_blank(start.event_id.as_str()) {
        return Err(SqlitePersistenceError::InvalidAutomationJournal);
    }
    Ok(())
}

/// The row of a run that has just started.
pub open spec fn started_row(row: AutomationJournalRow, start: AutomationRunStart) -> bool {
    &&& row.run_id == start.run_id
    &&& row.automation_id@ == start.automation_id@
    &&& row.trace_id == start.trace_id
    &&& row.event_id@ == start.event_id@
    &&& row.status == AutomationJournalStatus::Running
    &&& row.started_at_ms == start.started_at_ms
    &&& row.updated_at_ms == start.started_at_ms
    &&& row.schema_version == AUTOMATION_JOURNAL_VERSION
    &&& row.payload is None
    &&& row.interruption_reason is None
}

/// Some row belongs to `run_id`.
pub open spec fn has_run(rows: Seq<AutomationJournalRow>, run_id: u128) -> bool {
    exists|i: int| 0 <= i < rows.len() && rows[i].run_id == run_id
}

fn find_run(rows: &Vec<AutomationJournalRow>, run_id: u128) -> (r: Option<usize>)
    ensures
        match r {
            Some(i) => i < rows@.len() && rows@[i as int].run_id == run_id,
            None => !has_run(rows@, run_id),
        },
{
    let mut i: usize = 0;
    while i < rows.len()
        invariant
            0 <= i <= rows@.len(),
            forall|k: int| 0 <= k < i ==> #[trigger] rows@[k].run_id != run_id,
        decreases rows@.len() - i,
    {
        if rows[i].run_id == run_id {
            return Some(i);
        }
        i = i + 1;
    }
    None
}

/// Records a run before any of its actions is dispatched.
///
/// # Errors
///
/// [`SqlitePersistenceError::InvalidAutomationJournal`] for a start that
/// breaks [`start_ok`] or a time beyond storage range, and a storage error
/// when the run is already recorded; the rows are then unchanged.
pub fn start_run(rows: &mut Vec<AutomationJournalRow>, start: &AutomationRunStart) -> (r: Result<
    (),
    SqlitePersistenceError,
>)
    ensures
        !start_ok(*start) || start.started_at_ms > MAX_STORED ==> r == Err::<
            (),
            SqlitePersistenceError,
        >(SqlitePersistenceError::InvalidAutomationJournal),
        start_ok(*start) && start.started_at_ms <= MAX_STORED && has_run(old(rows)@, start.run_id)
            ==> (r matches Err(SqlitePersistenceError::Sqlite(m)) && m@ == DUPLICATE_RUN@),
        r is Err ==> final(rows)@ == old(rows)@,
        start_ok(*start) && start.started_at_ms <= MAX_STORED && !has_run(
            old(rows)@,
            start.run_id,
        ) ==> r is Ok,
        r is Ok ==> final(rows)@.len() == old(rows)@.len() + 1 && final(rows)@.drop_last() == old(rows)@ && started_row(final(rows)@.last(), *start),
        distinct_runs(old(rows)@) ==> distinct_runs(final(rows)@),
{
    validate_start(start)?;
    if start.started_at_ms > MAX_STORED {
        return Err(SqlitePersistenceError::InvalidAutomationJournal);
    }
    if find_run(rows, start.run_id).is_some() {
        return Err(SqlitePersistenceError::Sqlite(DUPLICATE_RUN.to_owned()));
    }
    let ghost o = rows@;
    rows.push(
        AutomationJournalRow {
            run_id: start.run_id,
            automation_id: copy_text(&start.automation_id),
            trace_id: start.trace_id,
            event_id: copy_text(&start.event_id),
            status: AutomationJournalStatus::Running,
            started_at_ms: start.started_at_ms as i64,
            updated_at_ms: start.started_at_ms as i64,
            schema_version: AUTOMATION_JOURNAL_VERSION,
            payload: None,
            interruption_reason: None,
        },
    );
    proof {
        assert(rows@.drop_last() =~= o);
        if distinct_runs(o) {
            assert forall|i: int, j: int|
                0 <= i < rows@.len() && 0 <= j < rows@.len() && i != j implies #[trigger] rows@[i].run_id
                != #[trigger] rows@[j].run_id by {
                if i < o.len() && j < o.len() {
                    assert(rows@[i] == o[i] && rows@[j] == o[j]);
                } else if i == o.len() {
                    assert(rows@[j] == o[j]);
                } else if j == o.len() {
                    assert(rows@[i] == o[i]);
                }
            }
        }
    }
    Ok(())
}

/// The run's row is still running under the same identity and started no
/// later than `completed_at_ms`.
pub open spec fn completes(row: AutomationJournalRow, run: AutomationRunRecord, completed_at_ms: u64) -> bool {
    &&& row.run_id == run.run_id
    &&& row.automation_id@ == run.automation_id@
    &&& row.trace_id == run.trace_id
    &&& row.event_id@ == run.event_id@
    &&& row.status == AutomationJournalStatus::Running
    &&& row.started_at_ms <= completed_at_ms
}

/// Completes the running row of `run` with its immutable result.
///
/// # Errors
///
/// [`SqlitePersistenceError::InvalidAutomationJournal`] for a time beyond
/// storage range, or when no running row matches the run's identity and time;
/// the rows are then unchanged.
pub fn complete_run(
    rows: &mut Vec<AutomationJournalRow>,
    run: AutomationRunRecord,
    completed_at_ms: u64,
) -> (r: Result<(), SqlitePersistenceError>)
    ensures
        completed_at_ms > MAX_STORED ==> r is Err,
        distinct_runs(old(rows)@) && completed_at_ms <= MAX_STORED && (exists|i: int|
            0 <= i < old(rows)@.len() && #[trigger] completes(old(rows)@[i], run, completed_at_ms))
            ==> r is Ok,
        r is Err ==> r == Err::<(), SqlitePersistenceError>(
            SqlitePersistenceError::InvalidAutomationJournal,
        ) && final(rows)@ == old(rows)@,
        r is Ok ==> exists|i: int|
            0 <= i < old(rows)@.len() && completes(old(rows)@[i], run, completed_at_ms) && final(rows)@.len() == old(rows)@.len() && (forall|k: int|
                0 <= k < old(rows)@.len() && k != i ==> #[trigger] final(rows)@[k] == old(rows)@[k]) && {
                let n = final(rows)@[i];
                &&& n.status == AutomationJournalStatus::Completed
                &&& n.updated_at_ms == completed_at_ms
                &&& opt_record_view(n.payload) == Some(record_view(run))
                &&& n.run_id == old(rows)@[i].run_id
                &&& n.automation_id@ == old(rows)@[i].automation_id@
                &&& n.trace_id == old(rows)@[i].trace_id
                &&& n.event_id@ == old(rows)@[i].event_id@
                &&& n.started_at_ms == old(rows)@[i].started_at_ms
                &&& n.schema_version == old(rows)@[i].schema_version
                &&& opt_text(n.interruption_reason) == opt_text(old(rows)@[i].interruption_reason)
            },
        distinct_runs(old(rows)@) ==> distinct_runs(final(rows)@),
{
    let ghost o = rows@;
    let ghost rec = run;
    if completed_at_ms > MAX_STORED {
        return Err(SqlitePersistenceError::InvalidAutomationJournal);
    }
    let i = match find_run(rows, run.run_id) {
        Some(i) => i,
        None => {
            return Err(SqlitePersistenceError::InvalidAutomationJournal);
        },
    };
    let row = &rows[i];
    if !str_equal(row.automation_id.as_str(), run.automation_id.as_str()) || row.trace_id
        != run.trace_id || !str_equal(row.event_id.as_str(), run.event_id.as_str()) || row.status
        != AutomationJournalStatus::Running || row.started_at_ms > completed_at_ms as i64 {
        proof {
            if distinct_runs(o) {
                assert forall|k: int| 0 <= k < o.len() implies !#[trigger] completes(
                    o[k],
                    rec,
                    completed_at_ms,
                ) by {
                    if k != i && o[k].run_id == rec.run_id {
                        assert(o[k].run_id == o[i as int].run_id);
                    }
                }
            }
        }
        return Err(SqlitePersistenceError::InvalidAutomationJournal);
    }
    let old_row = rows.remove(i);
    let updated = AutomationJournalRow {
        status: AutomationJournalStatus::Completed,
        updated_at_ms: completed_at_ms as i64,
        payload: Some(run),
        ..old_row
    };
    rows.insert(i, updated);
    proof {
        assert forall|k: int| 0 <= k < o.len() && k != i implies #[trigger] rows@[k] == o[k] by {}
        if distinct_runs(o) {
            assert forall|a: int, b: int|
                0 <= a < rows@.len() && 0 <= b < rows@.len() && a != b implies #[trigger] rows@[a].run_id
                != #[trigger] rows@[b].run_id by {
                assert(rows@[a].run_id == o[a].run_id);
                assert(rows@[b].run_id == o[b].run_id);
            }
        }
    }
    Ok(())
}

/// A reason an interruption can be recorded with.
pub open spec fn interruption_reason_ok(reason: Seq<char>) -> bool {
    !blank(reason) && encode_utf8(reason).len() <= MAX_INTERRUPTION_REASON_BYTES
}

/// The row after a recovery at `recovered_at_ms`: a running row is
/// interrupted with `reason`, keeping its later update time; others are unchanged.
pub open spec fn recovered(
    row: AutomationJournalRow,
    new_row: AutomationJournalRow,
    recovered_at_ms: u64,
    reason: Seq<char>,
) -> bool {
    if row.status == AutomationJournalStatus::Running {
        &&& new_row.status == AutomationJournalStatus::Interrupted
        &&& new_row.updated_at_ms == if row.updated_at_ms >= recovered_at_ms {
            row.updated_at_ms as int
        } else {
            recovered_at_ms as int
        }
        &&& opt_text(new_row.interruption_reason) == Some(reason)
        &&& new_row.run_id == row.run_id
        &&& new_row.automation_id@ == row.automation_id@
        &&& new_row.trace_id == row.trace_id
        &&& new_row.event_id@ == row.event_id@
        &&& new_row.started_at_ms == row.started_at_ms
        &&& new_row.schema_version == row.schema_version
        &&& opt_record_view(new_row.payload) == opt_record_view(row.payload)
    } else {
        new_row == row
    }
}

/// The number of running rows.
pub open spec fn running_rows(rows: Seq<AutomationJournalRow>) -> nat
    decreases rows.len(),
{
    if rows.len() == 0 {
        0
    } else {
        running_rows(rows.drop_last()) + if rows.last().status == AutomationJournalStatus::Running {
            1nat
        } else {
            0nat
        }
    }
}

/// Marks every run that a crash left running as interrupted and counts them.
///
/// # Errors
///
/// [`SqlitePersistenceError::InvalidAutomationJournal`] for a blank or
/// oversized reason or a time beyond storage range; the rows are then unchanged.
pub fn recover_running(rows: &mut Vec<AutomationJournalRow>, recovered_at_ms: u64, reason: &str) -> (r:
    Result<usize, SqlitePersistenceError>)
    ensures
        !(interruption_reason_ok(reason@) && recovered_at_ms <= MAX_STORED) ==> r == Err::<
            usize,
            SqlitePersistenceError,
        >(SqlitePersistenceError::InvalidAutomationJournal) && final(rows)@ == old(rows)@,
        interruption_reason_ok(reason@) && recovered_at_ms <= MAX_STORED ==> {
            &&& r == Ok::<usize, SqlitePersistenceError>(running_rows(old(rows)@) as usize)
            &&& final(rows)@.len() == old(rows)@.len()
            &&& forall|k: int|
                0 <= k < old(rows)@.len() ==> recovered(
                    old(rows)@[k],
                    #[trigger] final(rows)@[k],
                    recovered_at_ms,
                    reason@,
                )
        },
        distinct_runs(old(rows)@) ==> distinct_runs(final(rows)@),
{
    if is_blank(reason) || reason.as_bytes().len() > MAX_INTERRUPTION_REASON_BYTES
        || recovered_at_ms > MAX_STORED {
        return Err(SqlitePersistenceError::InvalidAutomationJournal);
    }
    let at = recovered_at_ms as i64;
    let ghost o = rows@;
    let mut count: usize = 0;
    let mut i: usize = 0;
    while i < rows.len()
        invariant
            0 <= i <= rows@.len(),
            rows@.len() == o.len(),
            o == old(rows)@,
            at == recovered_at_ms,
            count == running_rows(o.take(i as int)),
            count <= i,
            forall|k: int| 0 <= k < i ==> recovered(o[k], #[trigger] rows@[k], recovered_at_ms, reason@),
            forall|k: int| i <= k < rows@.len() ==> #[trigger] rows@[k] == o[k],
        decreases rows@.len() - i,
    {
        proof {
            assert(o.take(i + 1).drop_last() =~= o.take(i as int));
        }
        if rows[i].status == AutomationJournalStatus::Running {
            let row = rows.remove(i);
            let updated = if row.updated_at_ms >= at {
                row.updated_at_ms
            } else {
                at
            };
            let new_row = AutomationJournalRow {
                status: AutomationJournalStatus::Interrupted,
                updated_at_ms: updated,
                interruption_reason: Some(reason.to_owned()),
                ..row
            };
            rows.insert(i, new_row);
            count = count + 1;
        }
        i = i + 1;
    }
    proof {
        assert(o.take(o.len() as int) =~= o);
        if distinct_runs(o) {
            assert forall|a: int, b: int|
                0 <= a < rows@.len() && 0 <= b < rows@.len() && a != b implies #[trigger] rows@[a].run_id
                != #[trigger] rows@[b].run_id by {
                assert(recovered(o[a], rows@[a], recovered_at_ms, reason@));
                assert(recovered(o[b], rows@[b], recovered_at_ms, reason@));
            }
        }
    }
    Ok(count)
}

/// A row that a deletion of terminal history removes: it is not running
/// and, when a run is named, belongs to it.
pub open spec fn deleted_by(row: AutomationJournalRow, run_id: Option<u128>) -> bool {
    row.status != AutomationJournalStatus::Running && match run_id {
        Some(id) => row.run_id == id,
        None => true,
    }
}

/// The rows that survive a deletion of terminal history.
pub open spec fn surviving(rows: Seq<AutomationJournalRow>, run_id: Option<u128>) -> Seq<
    AutomationJournalRow,
> {
    rows.filter(|row: AutomationJournalRow| !deleted_by(row, run_id))
}

/// Deletes one terminal run, or all terminal history, and counts the rows
/// deleted. Running rows are always kept.
pub fn delete_terminal(rows: &mut Vec<AutomationJournalRow>, run_id: Option<u128>) -> (r: usize)
    ensures
        final(rows)@ == surviving(old(rows)@, run_id),
        final(rows)@.len() <= old(rows)@.len(),
        r == old(rows)@.len() - final(rows)@.len(),
{
    let before_len = rows.len();
    let ghost o = rows@;
    let ghost mut j: int = 0;
    let mut i: usize = 0;
    while i < rows.len()
        invariant
            0 <= j <= o.len(),
            rows@ == surviving(o.take(j), run_id) + o.skip(j),
            i == surviving(o.take(j), run_id).len(),
        decreases rows@.len() - i,
    {
        proof {
            reveal_with_fuel(Seq::filter, 1);
            assert(o.take(j + 1).drop_last() =~= o.take(j));
            assert(o.skip(j)[0] == o[j]);
            assert(rows@[i as int] == o[j]);
        }
        let doomed = rows[i].status != AutomationJournalStatus::Running && match run_id {
            Some(id) => rows[i].run_id == id,
            None => true,
        };
        if doomed {
            rows.remove(i);
            proof {
                assert(rows@ =~= surviving(o.take(j + 1), run_id) + o.skip(j + 1));
            }
        } else {
            i = i + 1;
            proof {
                assert(rows@ =~= surviving(o.take(j + 1), run_id) + o.skip(j + 1));
            }
        }
        proof {
            j = j + 1;
        }
    }
    proof {
        assert(o.take(j) =~= o) by {
            assert(o.skip(j).len() == 0);
        }
        assert(rows@ =~= surviving(o, run_id));
        lemma_filter_shorter(o, |row: AutomationJournalRow| !deleted_by(row, run_id));
    }
    before_len - rows.len()
}

proof fn lemma_filter_shorter(rows: Seq<AutomationJournalRow>, f: spec_fn(AutomationJournalRow) -> bool)
    ensures
        rows.filter(f).len() <= rows.len(),
    decreases rows.len(),
{
    reveal_with_fuel(Seq::filter, 1);
    if rows.len() > 0 {
        lemma_filter_shorter(rows.drop_last(), f);
    }
}

// ----------------------------------------------------------------------------
// Reads
// ----------------------------------------------------------------------------

/// A stored row's status agrees with its result and interruption reason, and
/// it was not updated before it started.
pub open spec fn row_consistent(row: AutomationJournalRow) -> bool {
    &&& match row.status {
        AutomationJournalStatus::Running => row.payload is None && row.interruption_reason is None,
        AutomationJournalStatus::Completed => (row.payload matches Some(run) && run.run_id
            == row.run_id && run.automation_id@ == row.automation_id@ && run.trace_id
            == row.trace_id && run.event_id@ == row.event_id@) && row.interruption_reason is None,
        AutomationJournalStatus::Interrupted => row.payload is None && (
        row.interruption_reason matches Some(reason) && !blank(reason@)),
    }
    &&& row.started_at_ms <= row.updated_at_ms
}

/// The entry handed out for a row.
pub open spec fn entry_of(entry: AutomationJournalEntry, row: AutomationJournalRow) -> bool {
    &&& entry.spec@ == AUTOMATION_JOURNAL_ENTRY_SPEC@
    &&& entry.run_id == row.run_id
    &&& entry.automation_id@ == row.automation_id@
    &&& entry.trace_id == row.trace_id
    &&& entry.event_id@ == row.event_id@
    &&& entry.status == row.status
    &&& entry.started_at_ms == row.started_at_ms
    &&& entry.updated_at_ms == row.updated_at_ms
    &&& opt_record_view(entry.result) == opt_record_view(row.payload)
    &&& opt_text(entry.interruption_reason) == opt_text(row.interruption_reason)
}

/// What decoding a row gives: the error it fails with, if any.
pub open spec fn decode_error(row: AutomationJournalRow) -> Option<SqlitePersistenceError> {
    if row.schema_version != AUTOMATION_JOURNAL_VERSION {
        Some(SqlitePersistenceError::UnsupportedAutomationJournalVersion(row.schema_version))
    } else if row.started_at_ms < 0 || row.updated_at_ms < 0 || !row_consistent(row) {
        Some(SqlitePersistenceError::InvalidAutomationJournal)
    } else {
        None
    }
}

/// Decodes one stored row into its entry.
///
/// # Errors
///
/// [`SqlitePersistenceError::UnsupportedAutomationJournalVersion`] for another
/// payload version, and [`SqlitePersistenceError::InvalidAutomationJournal`]
/// for a negative time or a row that breaks [`row_consistent`].
pub fn decode_row(row: &AutomationJournalRow) -> (r: Result<AutomationJournalEntry, SqlitePersistenceError>)
    ensures
        match decode_error(*row) {
            Some(e) => r == Err::<AutomationJournalEntry, SqlitePersistenceError>(e),
            None => r matches Ok(entry) && entry_of(entry, *row),
        },
{
    if row.schema_version != AUTOMATION_JOURNAL_VERSION {
        return Err(SqlitePersistenceError::UnsupportedAutomationJournalVersion(row.schema_version));
    }
    if row.started_at_ms < 0 || row.updated_at_ms < 0 {
        return Err(SqlitePersistenceError::InvalidAutomationJournal);
    }
    let consistent = match row.status {
        AutomationJournalStatus::Running => row.payload.is_none() && row.interruption_reason.is_none(),
        AutomationJournalStatus::Completed => {
            let matches = match &row.payload {
                Some(run) => run.run_id == row.run_id && str_equal(
                    run.automation_id.as_str(),
                    row.automation_id.as_str(),
                ) && run.trace_id == row.trace_id && str_equal(
                    run.event_id.as_str(),
                    row.event_id.as_str(),
                ),
                None => false,
            };
            matches && row.interruption_reason.is_none()
        },
        AutomationJournalStatus::Interrupted => {
            let reason_ok = match &row.interruption_reason {
                Some(reason) => !is_blank(reason.as_str()),
                None => false,
            };
            row.payload.is_none() && reason_ok
        },
    };
    if !consistent || row.updated_at_ms < row.started_at_ms {
        return Err(SqlitePersistenceError::InvalidAutomationJournal);
    }
    let result = match &row.payload {
        Some(run) => Some(copy_record(run)),
        None => None,
    };
    let reason = match &row.interruption_reason {
        Some(text) => Some(copy_text(text)),
        None => None,
    };
    Ok(
        AutomationJournalEntry {
            spec: AUTOMATION_JOURNAL_ENTRY_SPEC.to_owned(),
            run_id: row.run_id,
            automation_id: copy_text(&row.automation_id),
            trace_id: row.trace_id,
            event_id: copy_text(&row.event_id),
            status: row.status,
            started_at_ms: row.started_at_ms as u64,
            updated_at_ms: row.updated_at_ms as u64,
            result,
            interruption_reason: reason,
        },
    )
}

/// Loads the entry of one run.
///
/// # Errors
///
/// The errors of [`decode_row`] for the run's row.
pub fn get_entry(rows: &Vec<AutomationJournalRow>, run_id: u128) -> (r: Result<
    Option<AutomationJournalEntry>,
    SqlitePersistenceError,
>)
    ensures
        !has_run(rows@, run_id) ==> r == Ok::<Option<AutomationJournalEntry>, SqlitePersistenceError>(
            None,
        ),
        has_run(rows@, run_id) ==> exists|i: int|
            0 <= i < rows@.len() && rows@[i].run_id == run_id && match decode_error(rows@[i]) {
                Some(e) => r == Err::<Option<AutomationJournalEntry>, SqlitePersistenceError>(e),
                None => r matches Ok(Some(entry)) && entry_of(entry, rows@[i]),
            },
{
    match find_run(rows, run_id) {
        None => Ok(None),
        Some(i) => match decode_row(&rows[i]) {
            Ok(entry) => Ok(Some(entry)),
            Err(e) => Err(e),
        },
    }
}

// ----------------------------------------------------------------------------
// History pages
// ----------------------------------------------------------------------------

/// The listing keys of the rows: start time, then run identifier.
pub open spec fn run_keys(rows: Seq<AutomationJournalRow>) -> Seq<ListingKey> {
    rows.map_values(|r: AutomationJournalRow| (r.started_at_ms, r.run_id))
}

/// `picked` indexes the newest `limit` runs, newest first: later start
/// first, and the larger run identifier first among equal starts.
pub open spec fn newest_page(rows: Seq<AutomationJournalRow>, limit: nat, picked: Seq<usize>) -> bool {
    paging::newest_page(run_keys(rows), limit, picked)
}

/// Picks the newest `limit` runs, newest first.
pub fn select_newest(rows: &Vec<AutomationJournalRow>, limit: usize) -> (r: Vec<usize>)
    ensures
        r@.len() <= limit,
        forall|k: int| 0 <= k < r@.len() ==> #[trigger] r@[k] < rows@.len(),
        distinct_runs(rows@) ==> newest_page(rows@, limit as nat, r@),
{
    let mut keys: Vec<ListingKey> = Vec::new();
    let mut i: usize = 0;
    while i < rows.len()
        invariant
            0 <= i <= rows@.len(),
            keys@ == run_keys(rows@.take(i as int)),
        decreases rows@.len() - i,
    {
        keys.push((rows[i].started_at_ms, rows[i].run_id));
        proof {
            assert(rows@.take(i + 1) == rows@.take(i as int).push(rows@[i as int]));
        }
        i = i + 1;
    }
    proof {
        assert(rows@.take(rows@.len() as int) == rows@);
        if distinct_runs(rows@) {
            assert forall|a: int, b: int|
                0 <= a < keys@.len() && 0 <= b < keys@.len() && a != b implies #[trigger] keys@[a].1
                != #[trigger] keys@[b].1 by {
                assert(rows@[a].run_id != rows@[b].run_id);
            }
        }
    }
    paging::select_newest(&keys, limit)
}

/// Checks the size of a page of history.
///
/// # Errors
///
/// [`SqlitePersistenceError::InvalidAutomationJournal`] unless `1 <= limit <= 100`.
pub fn validate_history_page(limit: usize) -> (r: Result<(), SqlitePersistenceError>)
    ensures
        r is Ok <==> 1 <= limit <= MAX_AUTOMATION_HISTORY_PAGE_SIZE,
        r is Err ==> r == Err::<(), SqlitePersistenceError>(
            SqlitePersistenceError::InvalidAutomationJournal,
        ),
{
    if limit == 0 || limit > MAX_AUTOMATION_HISTORY_PAGE_SIZE {
        return Err(SqlitePersistenceError::InvalidAutomationJournal);
    }
    Ok(())
}

/// The entries of the newest `limit` runs, newest first.
///
/// # Errors
///
/// [`SqlitePersistenceError::InvalidAutomationJournal`] for a page size
/// outside `1..=100`, and the error of the first listed row that fails to decode.
pub fn list_entries(rows: &Vec<AutomationJournalRow>, limit: usize) -> (r: Result<
    Vec<AutomationJournalEntry>,
    SqlitePersistenceError,
>)
    ensures
        !(1 <= limit <= MAX_AUTOMATION_HISTORY_PAGE_SIZE) ==> r == Err::<
            Vec<AutomationJournalEntry>,
            SqlitePersistenceError,
        >(SqlitePersistenceError::InvalidAutomationJournal),
        1 <= limit <= MAX_AUTOMATION_HISTORY_PAGE_SIZE && distinct_runs(rows@) ==> exists|
            picked: Seq<usize>,
        |
            newest_page(rows@, limit as nat, picked) && match r {
                Ok(entries) => entries@.len() == picked.len() && (forall|k: int|
                    0 <= k < picked.len() ==> decode_error(rows@[#[trigger] picked[k] as int]) is None
                        && entry_of(entries@[k], rows@[picked[k] as int])),
                Err(e) => exists|k: int|
                    0 <= k < picked.len() && decode_error(rows@[picked[k] as int]) == Some(e)
                        && forall|m: int|
                        0 <= m < k ==> decode_error(rows@[#[trigger] picked[m] as int]) is None,
            },
{
    validate_history_page(limit)?;
    let picked = select_newest(rows, limit);
    let mut entries: Vec<AutomationJournalEntry> = Vec::new();
    let mut k: usize = 0;
    while k < picked.len()
        invariant
            1 <= limit <= MAX_AUTOMATION_HISTORY_PAGE_SIZE,
            distinct_runs(rows@) ==> newest_page(rows@, limit as nat, picked@),
            0 <= k <= picked@.len(),
            entries@.len() == k,
            forall|m: int| 0 <= m < picked@.len() ==> #[trigger] picked@[m] < rows@.len(),
            forall|m: int|
                0 <= m < k ==> decode_error(rows@[#[trigger] picked@[m] as int]) is None && entry_of(
                    entries@[m],
                    rows@[picked@[m] as int],
                ),
        decreases picked@.len() - k,
    {
        match decode_row(&rows[picked[k]]) {
            Ok(entry) => {
                let ghost before = entries@;
                entries.push(entry);
                proof {
                    assert forall|m: int| 0 <= m < k + 1 implies decode_error(
                        rows@[#[trigger] picked@[m] as int],
                    ) is None && entry_of(entries@[m], rows@[picked@[m] as int]) by {
                        if m < k {
                            assert(entries@[m] == before[m]);
                        }
                    }
                }
            },
            Err(e) => {
                proof {
                    assert forall|m: int| 0 <= m < k implies decode_error(
                        rows@[#[trigger] picked@[m] as int],
                    ) is None by {
                        assert(entry_of(entries@[m], rows@[picked@[m] as int]));
                    }
                    if distinct_runs(rows@) {
                        assert(newest_page(rows@, limit as nat, picked@) && exists|k2: int|
                            0 <= k2 < picked@.len() && decode_error(rows@[picked@[k2] as int])
                                == Some(e) && forall|m: int|
                                0 <= m < k2 ==> decode_error(rows@[#[trigger] picked@[m] as int])
                                    is None);
                    }
                }
                return Err(e);
            },
        }
        k = k + 1;
    }
    proof {
        if distinct_runs(rows@) {
            assert(newest_page(rows@, limit as nat, picked@) && entries@.len() == picked@.len() && (
            forall|m: int|
                0 <= m < picked@.len() ==> decode_error(rows@[#[trigger] picked@[m] as int]) is None
                    && entry_of(entries@[m], rows@[picked@[m] as int])));
        }
    }
    Ok(entries)
}

/// Law: deleting terminal history never removes a running row.
pub proof fn law_running_rows_survive_deletion(
    rows: Seq<AutomationJournalRow>,
    run_id: Option<u128>,
    i: int,
)
    requires
        0 <= i < rows.len(),
        rows[i].status == AutomationJournalStatus::Running,
    ensures
        surviving(rows, run_id).contains(rows[i]),
{
    rows.lemma_filter_contains(|row: AutomationJournalRow| !deleted_by(row, run_id), i);
}

/// Law: a recovery leaves no run running, and completes nothing.
pub proof fn law_recovery_leaves_nothing_running(
    before: Seq<AutomationJournalRow>,
    after: Seq<AutomationJournalRow>,
    recovered_at_ms: u64,
    reason: Seq<char>,
)
    requires
        before.len() == after.len(),
        forall|k: int|
            0 <= k < before.len() ==> recovered(before[k], #[trigger] after[k], recovered_at_ms, reason),
    ensures
        forall|k: int|
            0 <= k < after.len() ==> #[trigger] after[k].status != AutomationJournalStatus::Running,
        forall|k: int|
            0 <= k < after.len() && #[trigger] after[k].status == AutomationJournalStatus::Completed
                ==> before[k].status == AutomationJournalStatus::Completed,
{
    assert forall|k: int| 0 <= k < after.len() implies #[trigger] after[k].status
        != AutomationJournalStatus::Running by {
        assert(recovered(before[k], after[k], recovered_at_ms, reason));
    }
    assert forall|k: int|
        0 <= k < after.len() && #[trigger] after[k].status == AutomationJournalStatus::Completed
            implies before[k].status == AutomationJournalStatus::Completed by {
        assert(recovered(before[k], after[k], recovered_at_ms, reason));
    }
}

} // verus!
