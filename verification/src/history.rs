//! Decisions of the Agent history store: completed Agent tasks kept once
//! each, listed newest first behind a stable `(created_at_ms, task_id)`
//! cursor, and deleted on request.
//!
//! A record is read for its task's identity, status, Provider and creation
//! time, and for its model, prompt, response and completion time.
//! Identifiers are UUIDs held as 128-bit integers.
use crate::auto_mode::AgentTaskStatus;
use crate::error::SqlitePersistenceError;
use crate::paging::{self, ListingKey};
use crate::records::to_i64;
use crate::text::{blank, is_blank, str_equal};
use vstd::prelude::*;
use vstd::string::StringSliceAdditionalSpecFns;
use vstd::utf8::encode_utf8;

verus! {

/// Spec identifier of Agent history records.
pub const AGENT_HISTORY_SPEC: &'static str = "nimora.agent-history/1";

/// Schema version of stored Agent history.
pub const AGENT_HISTORY_VERSION: u32 = 1;

/// Largest prompt or response kept, in UTF-8 bytes.
pub const MAX_AGENT_HISTORY_CONTENT_BYTES: usize = 262_144;

/// Largest number of records one page lists.
pub const MAX_AGENT_HISTORY_PAGE: usize = 200;

/// What storage answers a second record of one task.
pub const DUPLICATE_HISTORY: &'static str = "UNIQUE constraint failed: agent_history.task_id";

/// One completed Agent task with what was asked and answered.
#[derive(Debug, Clone, PartialEq, Eq)]
pub struct AgentHistoryRecord {
    pub spec: String,
    pub task_id: u128,
    pub trace_id: u128,
    pub provider_id: String,
    pub task_status: AgentTaskStatus,
    pub task_created_at_ms: u64,
    pub model: String,
    pub prompt: String,
    pub response: String,
    pub completed_at_ms: u64,
}

/// The content of a record, as [`AgentHistoryRecord::new`] checks it: a
/// succeeded task, a non-blank model of at most 128 bytes, a non-empty prompt
/// and a response within the content bound, completed no earlier than created.
pub open spec fn content_ok(
    task_status: AgentTaskStatus,
    task_created_at_ms: u64,
    model: Seq<char>,
    prompt: Seq<char>,
    response: Seq<char>,
    completed_at_ms: u64,
) -> bool {
    &&& task_status == AgentTaskStatus::Succeeded
    &&& !blank(model)
    &&& encode_utf8(model).len() <= 128
    &&& encode_utf8(prompt).len() > 0
    &&& encode_utf8(prompt).len() <= MAX_AGENT_HISTORY_CONTENT_BYTES
    &&& encode_utf8(response).len() <= MAX_AGENT_HISTORY_CONTENT_BYTES
    &&& completed_at_ms >= task_created_at_ms
}

fn check_content(
    task_status: AgentTaskStatus,
    task_created_at_ms: u64,
    model: &str,
    prompt: &str,
    response: &str,
    completed_at_ms: u64,
) -> (r: bool)
    ensures
        r == content_ok(task_status, task_created_at_ms, model@, prompt@, response@, completed_at_ms),
{
    task_status == AgentTaskStatus::Succeeded && !is_blank(model) && model.as_bytes().len() <= 128
        && prompt.as_bytes().len() > 0 && prompt.as_bytes().len() <= MAX_AGENT_HISTORY_CONTENT_BYTES
        && response.as_bytes().len() <= MAX_AGENT_HISTORY_CONTENT_BYTES && completed_at_ms
        >= task_created_at_ms
}

/// A stored record is acceptable: the known spec and acceptable content.
pub open spec fn history_ok(record: AgentHistoryRecord) -> bool {
    &&& record.spec@ == AGENT_HISTORY_SPEC@
    &&& content_ok(
        record.task_status,
        record.task_created_at_ms,
        record.model@,
        record.prompt@,
        record.response@,
        record.completed_at_ms,
    )
}

impl AgentHistoryRecord {
    /// Creates one bounded record of a completed Agent task.
    ///
    /// # Errors
    ///
    /// [`SqlitePersistenceError::InvalidAgentHistory`] unless [`content_ok`].
    pub fn new(
        task_id: u128,
        trace_id: u128,
        provider_id: &str,
        task_status: AgentTaskStatus,
        task_created_at_ms: u64,
        model: &str,
        prompt: &str,
        response: &str,
        completed_at_ms: u64,
    ) -> (r: Result<Self, SqlitePersistenceError>)
        ensures
            content_ok(task_status, task_created_at_ms, model@, prompt@, response@, completed_at_ms)
                ==> (r matches Ok(h) && {
                &&& h.spec@ == AGENT_HISTORY_SPEC@
                &&& h.task_id == task_id
                &&& h.trace_id == trace_id
                &&& h.provider_id@ == provider_id@
                &&& h.task_status == task_status
                &&& h.task_created_at_ms == task_created_at_ms
                &&& h.model@ == model@
                &&& h.prompt@ == prompt@
                &&& h.response@ == response@
                &&& h.completed_at_ms == completed_at_ms
            }),
            !content_ok(task_status, task_created_at_ms, model@, prompt@, response@, completed_at_ms)
                ==> r == Err::<Self, SqlitePersistenceError>(
                SqlitePersistenceError::InvalidAgentHistory,
            ),
    {
        if !check_content(task_status, task_created_at_ms, model, prompt, response, completed_at_ms) {
            return Err(SqlitePersistenceError::InvalidAgentHistory);
        }
        Ok(
            AgentHistoryRecord {
                spec: AGENT_HISTORY_SPEC.to_owned(),
                task_id,
                trace_id,
                provider_id: provider_id.to_owned(),
                task_status,
                task_created_at_ms,
                model: model.to_owned(),
                prompt: prompt.to_owned(),
                response: response.to_owned(),
                completed_at_ms,
            },
        )
    }
}

/// Checks a record before it is stored or after it is read.
///
/// # Errors
///
/// [`SqlitePersistenceError::InvalidAgentHistory`] unless [`history_ok`].
pub fn validate_agent_history(record: &AgentHistoryRecord) -> (r: Result<(), SqlitePersistenceError>)
    ensures
        history_ok(*record) ==> r is Ok,
        !history_ok(*record) ==> r == Err::<(), SqlitePersistenceError>(
            SqlitePersistenceError::InvalidAgentHistory,
        ),
{
    if !str_equal(record.spec.as_str(), AGENT_HISTORY_SPEC) || !check_content(
        record.task_status,
        record.task_created_at_ms,
        record.model.as_str(),
        record.prompt.as_str(),
        record.response.as_str(),
        record.completed_at_ms,
    ) {
        return Err(SqlitePersistenceError::InvalidAgentHistory);
    }
    Ok(())
}

/// One row of the history table: its indexed columns beside the record.
#[derive(Debug, Clone, PartialEq, Eq)]
pub struct AgentHistoryRow {
    pub task_id: u128,
    pub created_at_ms: i64,
    pub completed_at_ms: i64,
    pub schema_version: u32,
    pub record: AgentHistoryRecord,
}

/// The mathematical content of a record.
pub open spec fn history_view(h: AgentHistoryRecord) -> (
    Seq<char>,
    u128,
    u128,
    Seq<char>,
    AgentTaskStatus,
    u64,
    Seq<char>,
    Seq<char>,
    Seq<char>,
    u64,
) {
    (
        h.spec@,
        h.task_id,
        h.trace_id,
        h.provider_id@,
        h.task_status,
        h.task_created_at_ms,
        h.model@,
        h.prompt@,
        h.response@,
        h.completed_at_ms,
    )
}

fn copy_record(h: &AgentHistoryRecord) -> (r: AgentHistoryRecord)
    ensures
        history_view(r) == history_view(*h),
{
    AgentHistoryRecord {
        spec: h.spec.clone(),
        task_id: h.task_id,
        trace_id: h.trace_id,
        provider_id: h.provider_id.clone(),
        task_status: h.task_status,
        task_created_at_ms: h.task_created_at_ms,
        model: h.model.clone(),
        prompt: h.prompt.clone(),
        response: h.response.clone(),
        completed_at_ms: h.completed_at_ms,
    }
}

/// Some row holds the task.
pub open spec fn has_task(rows: Seq<AgentHistoryRow>, task_id: u128) -> bool {
    exists|i: int| 0 <= i < rows.len() && rows[i].task_id == task_id
}

/// No two rows hold one task (the table's primary key).
pub open spec fn distinct_tasks(rows: Seq<AgentHistoryRow>) -> bool {
    forall|i: int, j: int|
        0 <= i < rows.len() && 0 <= j < rows.len() && i != j ==> #[trigger] rows[i].task_id
            != #[trigger] rows[j].task_id
}

/// The row that stores `record`.
pub open spec fn stores_history(row: AgentHistoryRow, record: AgentHistoryRecord) -> bool {
    &&& row.task_id == record.task_id
    &&& row.created_at_ms as int == record.task_created_at_ms as int
    &&& row.completed_at_ms as int == record.completed_at_ms as int
    &&& row.schema_version == AGENT_HISTORY_VERSION
    &&& history_view(row.record) == history_view(record)
}

/// Stores a completed record once per task.
///
/// # Errors
///
/// [`SqlitePersistenceError::InvalidAgentHistory`] unless [`history_ok`] and
/// both times fit storage; a storage error when the task is already kept.
/// The rows are then unchanged.
pub fn insert_history(rows: &mut Vec<AgentHistoryRow>, record: &AgentHistoryRecord) -> (r: Result<
    (),
    SqlitePersistenceError,
>)
    ensures
        !history_ok(*record) || record.task_created_at_ms > i64::MAX || record.completed_at_ms
            > i64::MAX ==> r == Err::<(), SqlitePersistenceError>(
            SqlitePersistenceError::InvalidAgentHistory,
        ),
        history_ok(*record) && record.task_created_at_ms <= i64::MAX && record.completed_at_ms
            <= i64::MAX ==> if has_task(old(rows)@, record.task_id) {
            r matches Err(SqlitePersistenceError::Sqlite(m)) && m@ == DUPLICATE_HISTORY@
        } else {
            r is Ok
        },
        r is Err ==> final(rows)@ == old(rows)@,
        r is Ok ==> final(rows)@.len() == old(rows)@.len() + 1 && final(rows)@.drop_last() == old(
            rows,
        )@ && stores_history(final(rows)@.last(), *record),
        distinct_tasks(old(rows)@) ==> distinct_tasks(final(rows)@),
{
    validate_agent_history(record)?;
    let created = to_i64(record.task_created_at_ms, SqlitePersistenceError::InvalidAgentHistory)?;
    let completed = to_i64(record.completed_at_ms, SqlitePersistenceError::InvalidAgentHistory)?;
    let mut i: usize = 0;
    while i < rows.len()
        invariant
            0 <= i <= rows@.len(),
            history_ok(*record),
            record.task_created_at_ms <= i64::MAX,
            record.completed_at_ms <= i64::MAX,
            forall|j: int| 0 <= j < i ==> #[trigger] rows@[j].task_id != record.task_id,
        decreases rows@.len() - i,
    {
        if rows[i].task_id == record.task_id {
            return Err(SqlitePersistenceError::Sqlite(DUPLICATE_HISTORY.to_owned()));
        }
        i = i + 1;
    }
    let ghost o = rows@;
    rows.push(
        AgentHistoryRow {
            task_id: record.task_id,
            created_at_ms: created,
            completed_at_ms: completed,
            schema_version: AGENT_HISTORY_VERSION,
            record: copy_record(record),
        },
    );
    proof {
        assert(rows@.drop_last() =~= o);
    }
    Ok(())
}

/// What a listing orders a row by: creation time, then task identifier.
pub open spec fn history_key(row: AgentHistoryRow) -> ListingKey {
    (row.created_at_ms, row.task_id)
}

/// The cursor as a listing key. Without a cursor every row is listed (the
/// store's default cursor, the largest time and a text above any UUID, lets
/// every row pass).
pub open spec fn cursor_key(before: Option<(u64, u128)>) -> Option<ListingKey> {
    match before {
        Some((ms, id)) => Some((ms as i64, id)),
        None => None,
    }
}

/// The listing keys of the rows.
pub open spec fn history_keys(rows: Seq<AgentHistoryRow>) -> Seq<ListingKey> {
    rows.map_values(|row: AgentHistoryRow| history_key(row))
}

/// What listing the record of a row fails with, if anything.
pub open spec fn history_row_error(row: AgentHistoryRow) -> Option<SqlitePersistenceError> {
    if row.schema_version != AGENT_HISTORY_VERSION {
        Some(SqlitePersistenceError::UnsupportedAgentHistoryVersion(row.schema_version))
    } else if !history_ok(row.record) {
        Some(SqlitePersistenceError::InvalidAgentHistory)
    } else {
        None
    }
}

fn keys_of(rows: &Vec<AgentHistoryRow>) -> (r: Vec<ListingKey>)
    ensures
        r@ == history_keys(rows@),
        distinct_tasks(rows@) ==> paging::distinct_ids(r@),
{
    let mut keys: Vec<ListingKey> = Vec::new();
    let mut i: usize = 0;
    while i < rows.len()
        invariant
            0 <= i <= rows@.len(),
            keys@ == history_keys(rows@.take(i as int)),
        decreases rows@.len() - i,
    {
        keys.push((rows[i].created_at_ms, rows[i].task_id));
        proof {
            assert(rows@.take(i + 1) == rows@.take(i as int).push(rows@[i as int]));
            assert(keys@ =~= history_keys(rows@.take(i + 1)));
        }
        i = i + 1;
    }
    proof {
        assert(rows@.take(rows@.len() as int) == rows@);
    }
    keys
}

/// `r` is what listing the candidate rows picked for the page answers.
pub open spec fn page_answer(
    r: Result<Vec<AgentHistoryRecord>, SqlitePersistenceError>,
    rows: Seq<AgentHistoryRow>,
    cands: Seq<usize>,
    picked: Seq<usize>,
) -> bool {
    match r {
        Ok(listed) => listed@.len() == picked.len() && forall|k: int|
            0 <= k < picked.len() ==> history_row_error(rows[cands[#[trigger] picked[k] as int] as int])
                is None && history_view(listed@[k]) == history_view(
                rows[cands[picked[k] as int] as int].record,
            ),
        Err(e) => exists|k: int|
            0 <= k < picked.len() && history_row_error(rows[cands[picked[k] as int] as int]) == Some(
                e,
            ) && forall|m: int|
                0 <= m < k ==> history_row_error(rows[cands[#[trigger] picked[m] as int] as int])
                    is None,
    }
}

/// Lists the newest `limit` records strictly behind the cursor, newest first:
/// latest creation first, and the larger task identifier first among equal
/// creation times.
///
/// # Errors
///
/// [`SqlitePersistenceError::InvalidAgentHistory`] for a page size outside
/// `1..=200` or a cursor time beyond storage range; and the error of the first
/// listed row that fails to load.
pub fn list_history(
    rows: &Vec<AgentHistoryRow>,
    before: Option<(u64, u128)>,
    limit: usize,
) -> (r: Result<Vec<AgentHistoryRecord>, SqlitePersistenceError>)
    ensures
        !(1 <= limit <= MAX_AGENT_HISTORY_PAGE) || (before matches Some((ms, _)) && ms > i64::MAX)
            ==> r == Err::<Vec<AgentHistoryRecord>, SqlitePersistenceError>(
            SqlitePersistenceError::InvalidAgentHistory,
        ),
        1 <= limit <= MAX_AGENT_HISTORY_PAGE && !(before matches Some((ms, _)) && ms > i64::MAX)
            && distinct_tasks(rows@) ==> exists|cands: Seq<usize>, picked: Seq<usize>|
            paging::page_before(history_keys(rows@), cursor_key(before), limit as nat, cands, picked)
                && page_answer(r, rows@, cands, picked),
{
    if limit == 0 || limit > MAX_AGENT_HISTORY_PAGE {
        return Err(SqlitePersistenceError::InvalidAgentHistory);
    }
    let bound: Option<ListingKey> = match before {
        Some((ms, id)) => {
            let stored = to_i64(ms, SqlitePersistenceError::InvalidAgentHistory)?;
            Some((stored, id))
        },
        None => None,
    };
    let keys = keys_of(rows);
    let (cands, picked) = paging::select_page_before(&keys, bound, limit);
    let mut listed: Vec<AgentHistoryRecord> = Vec::new();
    let mut k: usize = 0;
    while k < picked.len()
        invariant
            1 <= limit <= MAX_AGENT_HISTORY_PAGE,
            !(before matches Some((ms, _)) && ms > i64::MAX),
            bound == cursor_key(before),
            keys@ == history_keys(rows@),
            paging::candidates(keys@, bound, cands@),
            distinct_tasks(rows@) ==> paging::page_before(keys@, bound, limit as nat, cands@, picked@),
            0 <= k <= picked@.len(),
            forall|m: int| 0 <= m < picked@.len() ==> #[trigger] picked@[m] < cands@.len(),
            listed@.len() == k,
            forall|m: int|
                0 <= m < k ==> history_row_error(rows@[cands@[#[trigger] picked@[m] as int] as int])
                    is None && history_view(listed@[m]) == history_view(
                    rows@[cands@[picked@[m] as int] as int].record,
                ),
        decreases picked@.len() - k,
    {
        let row = &rows[cands[picked[k]]];
        if row.schema_version != AGENT_HISTORY_VERSION {
            proof {
                assert(page_answer(
                    Err(SqlitePersistenceError::UnsupportedAgentHistoryVersion(row.schema_version)),
                    rows@,
                    cands@,
                    picked@,
                ));
            }
            return Err(SqlitePersistenceError::UnsupportedAgentHistoryVersion(row.schema_version));
        }
        if validate_agent_history(&row.record).is_err() {
            proof {
                assert(page_answer(
                    Err(SqlitePersistenceError::InvalidAgentHistory),
                    rows@,
                    cands@,
                    picked@,
                ));
            }
            return Err(SqlitePersistenceError::InvalidAgentHistory);
        }
        let ghost prior = listed@;
        listed.push(copy_record(&row.record));
        proof {
            assert forall|m: int| 0 <= m < k + 1 implies history_row_error(
                rows@[cands@[#[trigger] picked@[m] as int] as int],
            ) is None && history_view(listed@[m]) == history_view(
                rows@[cands@[picked@[m] as int] as int].record,
            ) by {
                if m < k {
                    assert(listed@[m] == prior[m]);
                }
            }
        }
        k = k + 1;
    }
    proof {
        assert(page_answer(Ok(listed), rows@, cands@, picked@));
    }
    Ok(listed)
}

/// The rows that do not hold the task.
pub open spec fn without_task(rows: Seq<AgentHistoryRow>, task_id: u128) -> Seq<AgentHistoryRow> {
    rows.filter(|row: AgentHistoryRow| row.task_id != task_id)
}

/// Deletes the task's record and tells whether exactly one row went.
pub fn delete_history(rows: &mut Vec<AgentHistoryRow>, task_id: u128) -> (r: bool)
    ensures
        final(rows)@ == without_task(old(rows)@, task_id),
        final(rows)@.len() <= old(rows)@.len(),
        r == (old(rows)@.len() - final(rows)@.len() == 1),
{
    let before_len = rows.len();
    let ghost o = rows@;
    let ghost mut j: int = 0;
    let mut i: usize = 0;
    while i < rows.len()
        invariant
            0 <= j <= o.len(),
            rows@ == without_task(o.take(j), task_id) + o.skip(j),
            i == without_task(o.take(j), task_id).len(),
        decreases rows@.len() - i,
    {
        proof {
            reveal_with_fuel(Seq::filter, 1);
            assert(o.take(j + 1).drop_last() =~= o.take(j));
            assert(o.skip(j)[0] == o[j]);
            assert(rows@[i as int] == o[j]);
        }
        if rows[i].task_id == task_id {
            rows.remove(i);
            proof {
                assert(rows@ =~= without_task(o.take(j + 1), task_id) + o.skip(j + 1));
            }
        } else {
            i = i + 1;
            proof {
                assert(rows@ =~= without_task(o.take(j + 1), task_id) + o.skip(j + 1));
            }
        }
        proof {
            j = j + 1;
        }
    }
    proof {
        assert(o.take(j) =~= o) by {
            assert(o.skip(j).len() == 0);
        }
        assert(rows@ =~= without_task(o, task_id));
        o.filter_lemma(|row: AgentHistoryRow| row.task_id != task_id);
    }
    before_len - rows.len() == 1
}

/// Deletes every record and tells how many went.
pub fn delete_all_history(rows: &mut Vec<AgentHistoryRow>) -> (r: u64)
    ensures
        final(rows)@.len() == 0,
        r == old(rows)@.len(),
{
    let n = rows.len();
    rows.clear();
    n as u64
}

} // verus!
