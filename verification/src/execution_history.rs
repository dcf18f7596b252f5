//! Decisions of the Skill execution history store: one record per execution,
//! whose status converges once from waiting for approval, listed newest first
//! behind a stable `(created_at_ms, execution_id)` cursor.
use crate::error::SqlitePersistenceError;
use crate::journal_entries::{history_ok, validate_history, SkillExecutionHistoryRecord};
use crate::journals::SkillExecutionHistoryStatus;
use crate::paging::{self, ListingKey};
use crate::records::to_i64;
use crate::text::str_equal;
use vstd::prelude::*;

verus! {

/// Schema version of stored execution history.
pub const EXECUTION_HISTORY_VERSION: u32 = 1;

/// Largest number of records one page lists.
pub const MAX_EXECUTION_PAGE: usize = 200;

/// One row of the execution history table: its indexed columns beside the record.
#[derive(Debug, Clone, PartialEq, Eq)]
pub struct ExecutionHistoryRow {
    pub execution_id: u128,
    pub skill_id: String,
    pub status: SkillExecutionHistoryStatus,
    pub created_at_ms: i64,
    pub updated_at_ms: i64,
    pub schema_version: u32,
    pub record: SkillExecutionHistoryRecord,
}

/// The mathematical content of a record.
pub open spec fn execution_view(r: SkillExecutionHistoryRecord) -> (
    Seq<char>,
    u128,
    Seq<char>,
    SkillExecutionHistoryStatus,
    u32,
    u32,
    u64,
    u64,
    Option<Seq<char>>,
) {
    (
        r.spec@,
        r.execution_id,
        r.skill_id@,
        r.status,
        r.command_count,
        r.agent_task_count,
        r.created_at_ms,
        r.updated_at_ms,
        match r.error {
            Some(e) => Some(e@),
            None => None,
        },
    )
}

fn copy_execution(r: &SkillExecutionHistoryRecord) -> (c: SkillExecutionHistoryRecord)
    ensures
        execution_view(c) == execution_view(*r),
{
    SkillExecutionHistoryRecord {
        spec: r.spec.clone(),
        execution_id: r.execution_id,
        skill_id: r.skill_id.clone(),
        status: r.status,
        command_count: r.command_count,
        agent_task_count: r.agent_task_count,
        created_at_ms: r.created_at_ms,
        updated_at_ms: r.updated_at_ms,
        error: match &r.error {
            Some(e) => Some(e.clone()),
            None => None,
        },
    }
}

/// The row stores the record.
pub open spec fn stores_execution(row: ExecutionHistoryRow, record: SkillExecutionHistoryRecord) -> bool {
    &&& row.execution_id == record.execution_id
    &&& row.skill_id@ == record.skill_id@
    &&& row.status == record.status
    &&& row.created_at_ms as int == record.created_at_ms as int
    &&& row.updated_at_ms as int == record.updated_at_ms as int
    &&& row.schema_version == EXECUTION_HISTORY_VERSION
    &&& execution_view(row.record) == execution_view(record)
}

/// Row `i` is the first one of the execution.
pub open spec fn first_execution(rows: Seq<ExecutionHistoryRow>, id: u128, i: int) -> bool {
    &&& 0 <= i < rows.len()
    &&& rows[i].execution_id == id
    &&& forall|j: int| 0 <= j < i ==> #[trigger] rows[j].execution_id != id
}

/// Some row holds the execution.
pub open spec fn has_execution(rows: Seq<ExecutionHistoryRow>, id: u128) -> bool {
    exists|i: int| 0 <= i < rows.len() && rows[i].execution_id == id
}

/// The stored execution may still converge to the record: same Skill, same
/// creation time, and still waiting for approval.
pub open spec fn may_converge(row: ExecutionHistoryRow, record: SkillExecutionHistoryRecord) -> bool {
    &&& row.skill_id@ == record.skill_id@
    &&& row.created_at_ms as int == record.created_at_ms as int
    &&& row.status == SkillExecutionHistoryStatus::WaitingForApproval
}

/// Records an execution, or advances the status of one still waiting for
/// approval; an execution that has left that state, or whose Skill or
/// creation time differs, is kept as it is.
///
/// # Errors
///
/// [`SqlitePersistenceError::InvalidSkillExecutionHistory`] unless
/// [`history_ok`] and both times fit storage; the rows are then unchanged.
pub fn save_execution(rows: &mut Vec<ExecutionHistoryRow>, record: &SkillExecutionHistoryRecord) -> (r:
    Result<(), SqlitePersistenceError>)
    ensures
        !history_ok(*record) || record.created_at_ms > i64::MAX || record.updated_at_ms > i64::MAX
            ==> r == Err::<(), SqlitePersistenceError>(
            SqlitePersistenceError::InvalidSkillExecutionHistory,
        ),
        r is Err ==> final(rows)@ == old(rows)@,
        history_ok(*record) && record.created_at_ms <= i64::MAX && record.updated_at_ms
            <= i64::MAX ==> r is Ok && if has_execution(old(rows)@, record.execution_id) {
            exists|i: int|
                first_execution(old(rows)@, record.execution_id, i) && if may_converge(
                    old(rows)@[i],
                    *record,
                ) {
                    final(rows)@.len() == old(rows)@.len() && stores_execution(
                        final(rows)@[i],
                        *record,
                    ) && forall|j: int|
                        0 <= j < old(rows)@.len() && j != i ==> #[trigger] final(rows)@[j] == old(
                            rows,
                        )@[j]
                } else {
                    final(rows)@ == old(rows)@
                }
        } else {
            final(rows)@.len() == old(rows)@.len() + 1 && final(rows)@.drop_last() == old(rows)@
                && stores_execution(final(rows)@.last(), *record)
        },
{
    validate_history(record)?;
    let created = to_i64(record.created_at_ms, SqlitePersistenceError::InvalidSkillExecutionHistory)?;
    let updated = to_i64(record.updated_at_ms, SqlitePersistenceError::InvalidSkillExecutionHistory)?;
    let row = ExecutionHistoryRow {
        execution_id: record.execution_id,
        skill_id: record.skill_id.clone(),
        status: record.status,
        created_at_ms: created,
        updated_at_ms: updated,
        schema_version: EXECUTION_HISTORY_VERSION,
        record: copy_execution(record),
    };
    let mut i: usize = 0;
    while i < rows.len()
        invariant
            0 <= i <= rows@.len(),
            rows@ == old(rows)@,
            history_ok(*record),
            record.created_at_ms <= i64::MAX,
            record.updated_at_ms <= i64::MAX,
            created == record.created_at_ms as i64,
            stores_execution(row, *record),
            forall|j: int| 0 <= j < i ==> #[trigger] rows@[j].execution_id != record.execution_id,
        decreases rows@.len() - i,
    {
        if rows[i].execution_id == record.execution_id {
            proof {
                assert(first_execution(rows@, record.execution_id, i as int));
            }
            if str_equal(rows[i].skill_id.as_str(), record.skill_id.as_str())
                && rows[i].created_at_ms == created && rows[i].status
                == SkillExecutionHistoryStatus::WaitingForApproval {
                rows.set(i, row);
            }
            return Ok(());
        }
        i = i + 1;
    }
    let ghost o = rows@;
    rows.push(row);
    proof {
        assert(rows@.drop_last() =~= o);
    }
    Ok(())
}

/// What a listing orders a row by: creation time, then execution identifier.
pub open spec fn execution_keys(rows: Seq<ExecutionHistoryRow>) -> Seq<ListingKey> {
    rows.map_values(|row: ExecutionHistoryRow| (row.created_at_ms, row.execution_id))
}

/// No two rows hold one execution (the table's primary key).
pub open spec fn distinct_executions(rows: Seq<ExecutionHistoryRow>) -> bool {
    forall|i: int, j: int|
        0 <= i < rows.len() && 0 <= j < rows.len() && i != j ==> #[trigger] rows[i].execution_id
            != #[trigger] rows[j].execution_id
}

fn keys_of(rows: &Vec<ExecutionHistoryRow>) -> (r: Vec<ListingKey>)
    ensures
        r@ == execution_keys(rows@),
        distinct_executions(rows@) ==> paging::distinct_ids(r@),
{
    let mut keys: Vec<ListingKey> = Vec::new();
    let mut i: usize = 0;
    while i < rows.len()
        invariant
            0 <= i <= rows@.len(),
            keys@ == execution_keys(rows@.take(i as int)),
        decreases rows@.len() - i,
    {
        keys.push((rows[i].created_at_ms, rows[i].execution_id));
        proof {
            assert(rows@.take(i + 1) == rows@.take(i as int).push(rows@[i as int]));
            assert(keys@ =~= execution_keys(rows@.take(i + 1)));
        }
        i = i + 1;
    }
    proof {
        assert(rows@.take(rows@.len() as int) == rows@);
    }
    keys
}

/// What listing the record of a row fails with, if anything.
pub open spec fn execution_row_error(row: ExecutionHistoryRow) -> Option<SqlitePersistenceError> {
    if row.schema_version != EXECUTION_HISTORY_VERSION {
        Some(SqlitePersistenceError::UnsupportedSkillExecutionHistoryVersion(row.schema_version))
    } else if !history_ok(row.record) {
        Some(SqlitePersistenceError::InvalidSkillExecutionHistory)
    } else {
        None
    }
}

/// The cursor as a listing key (no cursor lists every row).
pub open spec fn execution_cursor(before: Option<(u64, u128)>) -> Option<ListingKey> {
    match before {
        Some((ms, id)) => Some((ms as i64, id)),
        None => None,
    }
}

/// Lists the newest `limit` executions strictly behind the cursor, newest
/// first: latest creation first, the larger execution identifier first among
/// equal creation times.
///
/// # Errors
///
/// [`SqlitePersistenceError::InvalidSkillExecutionHistory`] for a page size
/// outside `1..=200` or a cursor time beyond storage range; and the error of
/// the first listed row that fails to load.
pub fn list_executions(
    rows: &Vec<ExecutionHistoryRow>,
    before: Option<(u64, u128)>,
    limit: usize,
) -> (r: Result<Vec<SkillExecutionHistoryRecord>, SqlitePersistenceError>)
    ensures
        !(1 <= limit <= MAX_EXECUTION_PAGE) || (before matches Some((ms, _)) && ms > i64::MAX)
            ==> r == Err::<Vec<SkillExecutionHistoryRecord>, SqlitePersistenceError>(
            SqlitePersistenceError::InvalidSkillExecutionHistory,
        ),
        1 <= limit <= MAX_EXECUTION_PAGE && !(before matches Some((ms, _)) && ms > i64::MAX)
            && distinct_executions(rows@) ==> exists|cands: Seq<usize>, picked: Seq<usize>|
            paging::page_before(
                execution_keys(rows@),
                execution_cursor(before),
                limit as nat,
                cands,
                picked,
            ) && match r {
                Ok(listed) => listed@.len() == picked.len() && forall|k: int|
                    0 <= k < picked.len() ==> execution_row_error(
                        rows[cands[#[trigger] picked[k] as int] as int],
                    ) is None && execution_view(listed@[k]) == execution_view(
                        rows[cands[picked[k] as int] as int].record,
                    ),
                Err(e) => exists|k: int|
                    0 <= k < picked.len() && execution_row_error(
                        rows[cands[picked[k] as int] as int],
                    ) == Some(e) && forall|m: int|
                        0 <= m < k ==> execution_row_error(
                            rows[cands[#[trigger] picked[m] as int] as int],
                        ) is None,
            },
{
    if limit == 0 || limit > MAX_EXECUTION_PAGE {
        return Err(SqlitePersistenceError::InvalidSkillExecutionHistory);
    }
    let bound: Option<ListingKey> = match before {
        Some((ms, id)) => {
            let stored = to_i64(ms, SqlitePersistenceError::InvalidSkillExecutionHistory)?;
            Some((stored, id))
        },
        None => None,
    };
    let keys = keys_of(rows);
    let (cands, picked) = paging::select_page_before(&keys, bound, limit);
    let mut listed: Vec<SkillExecutionHistoryRecord> = Vec::new();
    let mut k: usize = 0;
    while k < picked.len()
        invariant
            1 <= limit <= MAX_EXECUTION_PAGE,
            !(before matches Some((ms, _)) && ms > i64::MAX),
            bound == execution_cursor(before),
            keys@ == execution_keys(rows@),
            paging::candidates(keys@, bound, cands@),
            distinct_executions(rows@) ==> paging::page_before(
                keys@,
                bound,
                limit as nat,
                cands@,
                picked@,
            ),
            0 <= k <= picked@.len(),
            forall|m: int| 0 <= m < picked@.len() ==> #[trigger] picked@[m] < cands@.len(),
            listed@.len() == k,
            forall|m: int|
                0 <= m < k ==> execution_row_error(rows@[cands@[#[trigger] picked@[m] as int] as int])
                    is None && execution_view(listed@[m]) == execution_view(
                    rows@[cands@[picked@[m] as int] as int].record,
                ),
        decreases picked@.len() - k,
    {
        let row = &rows[cands[picked[k]]];
        let failure = if row.schema_version != EXECUTION_HISTORY_VERSION {
            Some(SqlitePersistenceError::UnsupportedSkillExecutionHistoryVersion(row.schema_version))
        } else if validate_history(&row.record).is_err() {
            Some(SqlitePersistenceError::InvalidSkillExecutionHistory)
        } else {
            None
        };
        match failure {
            Some(e) => {
                proof {
                    if distinct_executions(rows@) {
                        assert(exists|k2: int|
                            0 <= k2 < picked@.len() && execution_row_error(
                                rows@[cands@[picked@[k2] as int] as int],
                            ) == Some(e) && forall|m: int|
                                0 <= m < k2 ==> execution_row_error(
                                    rows@[cands@[#[trigger] picked@[m] as int] as int],
                                ) is None);
                    }
                }
                return Err(e);
            },
            None => {},
        }
        let ghost prior = listed@;
        listed.push(copy_execution(&row.record));
        proof {
            assert forall|m: int| 0 <= m < k + 1 implies execution_row_error(
                rows@[cands@[#[trigger] picked@[m] as int] as int],
            ) is None && execution_view(listed@[m]) == execution_view(
                rows@[cands@[picked@[m] as int] as int].record,
            ) by {
                if m < k {
                    assert(listed@[m] == prior[m]);
                }
            }
        }
        k = k + 1;
    }
    Ok(listed)
}

/// The rows of other executions.
pub open spec fn without_execution(rows: Seq<ExecutionHistoryRow>, id: u128) -> Seq<
    ExecutionHistoryRow,
> {
    rows.filter(|row: ExecutionHistoryRow| row.execution_id != id)
}

/// Deletes the execution's record and tells whether exactly one row went.
pub fn delete_execution(rows: &mut Vec<ExecutionHistoryRow>, id: u128) -> (r: bool)
    ensures
        final(rows)@ == without_execution(old(rows)@, id),
        final(rows)@.len() <= old(rows)@.len(),
        r == (old(rows)@.len() - final(rows)@.len() == 1),
{
    let before_len = rows.len();
    let ghost o = rows@;
    let ghost mut j: int = 0;
    let mut i: usize = 0;
    while i < rows.len()
        invariant
            0 <= j <= o.len(),
            rows@ == without_execution(o.take(j), id) + o.skip(j),
            i == without_execution(o.take(j), id).len(),
        decreases rows@.len() - i,
    {
        proof {
            reveal_with_fuel(Seq::filter, 1);
            assert(o.take(j + 1).drop_last() =~= o.take(j));
            assert(o.skip(j)[0] == o[j]);
            assert(rows@[i as int] == o[j]);
        }
        if rows[i].execution_id == id {
            rows.remove(i);
            proof {
                assert(rows@ =~= without_execution(o.take(j + 1), id) + o.skip(j + 1));
            }
        } else {
            i = i + 1;
            proof {
                assert(rows@ =~= without_execution(o.take(j + 1), id) + o.skip(j + 1));
            }
        }
        proof {
            j = j + 1;
        }
    }
    proof {
        assert(o.take(j) =~= o) by {
            assert(o.skip(j).len() == 0);
        }
        assert(rows@ =~= without_execution(o, id));
        o.filter_lemma(|row: ExecutionHistoryRow| row.execution_id != id);
    }
    before_len - rows.len() == 1
}

/// Deletes every record and tells how many went.
pub fn delete_all_executions(rows: &mut Vec<ExecutionHistoryRow>) -> (r: u64)
    ensures
        final(rows)@.len() == 0,
        r == old(rows)@.len(),
{
    let n = rows.len();
    rows.clear();
    n as u64
}

/// An execution's status converges once: after it leaves waiting for
/// approval, a save of the same execution changes nothing.
pub proof fn law_settled_execution_is_kept(row: ExecutionHistoryRow, record: SkillExecutionHistoryRecord)
    requires
        row.status != SkillExecutionHistoryStatus::WaitingForApproval,
    ensures
        !may_converge(row, record),
{
}

} // verus!
