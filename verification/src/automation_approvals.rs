//! Decisions of the Automation approval journal: plans of Automation runs
//! inserted once as pending, counted and listed oldest first while
//! unexpired, claimed or rejected at most once, finished after a claim, and
//! recovered after a restart.
//!
//! Rows are found by their status columns and their entries checked as
//! stored before an outcome is written back; otherwise the journal stays as
//! it was.
use crate::error::SqlitePersistenceError;
use crate::journal_entries::{
    automation_approval_ok, validate_automation_approval, AutomationApprovalEntry,
};
use crate::journals::AutomationApprovalStatus;
use crate::paging::{self, ListingKey};
use crate::records::to_i64;
use vstd::prelude::*;

verus! {

/// Payload version of stored Automation approvals.
pub const AUTOMATION_APPROVAL_VERSION: u32 = 1;

/// Largest page of pending Automation approvals.
pub const MAX_PENDING_AUTOMATION_PAGE: usize = 256;

/// What storage answers a second approval with one identity.
pub const DUPLICATE_AUTOMATION_APPROVAL: &'static str =
    "UNIQUE constraint failed: automation_approval_journal.approval_id";

/// What storage answers a second approval for one run.
pub const DUPLICATE_AUTOMATION_RUN: &'static str =
    "UNIQUE constraint failed: automation_approval_journal.run_id";

/// One row of the journal: its indexed columns beside the entry.
#[derive(Debug, Clone, PartialEq, Eq)]
pub struct AutomationApprovalRow {
    pub approval_id: u128,
    pub run_id: u128,
    pub status: AutomationApprovalStatus,
    pub created_at_ms: i64,
    pub updated_at_ms: i64,
    pub expires_at_ms: i64,
    pub schema_version: u32,
    pub entry: AutomationApprovalEntry,
}

/// What loading the entry of a row fails with, if anything.
pub open spec fn automation_row_error(row: AutomationApprovalRow) -> Option<SqlitePersistenceError> {
    if row.schema_version != AUTOMATION_APPROVAL_VERSION {
        Some(SqlitePersistenceError::UnsupportedAutomationApprovalJournalVersion(row.schema_version))
    } else if !automation_approval_ok(row.entry) {
        Some(SqlitePersistenceError::InvalidAutomationApprovalJournal)
    } else {
        None
    }
}

fn check_row(row: &AutomationApprovalRow) -> (r: Result<(), SqlitePersistenceError>)
    ensures
        match automation_row_error(*row) {
            Some(e) => r == Err::<(), SqlitePersistenceError>(e),
            None => r is Ok,
        },
{
    if row.schema_version != AUTOMATION_APPROVAL_VERSION {
        return Err(
            SqlitePersistenceError::UnsupportedAutomationApprovalJournalVersion(row.schema_version),
        );
    }
    validate_automation_approval(&row.entry)
}

/// The mathematical content of an entry.
pub open spec fn automation_entry_view(e: AutomationApprovalEntry) -> (
    Seq<char>,
    u128,
    u128,
    Seq<char>,
    AutomationApprovalStatus,
    u64,
    u64,
    u64,
    Seq<u8>,
    Option<Seq<char>>,
) {
    (
        e.spec@,
        e.approval_id,
        e.run_id,
        e.automation_id@,
        e.status,
        e.created_at_ms,
        e.updated_at_ms,
        e.expires_at_ms,
        e.plan@,
        match e.error {
            Some(s) => Some(s@),
            None => None,
        },
    )
}

fn copy_bytes(v: &Vec<u8>) -> (r: Vec<u8>)
    ensures
        r@ == v@,
{
    let mut out: Vec<u8> = Vec::new();
    let mut i: usize = 0;
    while i < v.len()
        invariant
            0 <= i <= v@.len(),
            out@ == v@.take(i as int),
        decreases v@.len() - i,
    {
        out.push(v[i]);
        proof {
            assert(v@.take(i + 1) == v@.take(i as int).push(v@[i as int]));
        }
        i = i + 1;
    }
    proof {
        assert(v@.take(v@.len() as int) == v@);
    }
    out
}

fn copy_entry(e: &AutomationApprovalEntry) -> (r: AutomationApprovalEntry)
    ensures
        automation_entry_view(r) == automation_entry_view(*e),
{
    AutomationApprovalEntry {
        spec: e.spec.clone(),
        approval_id: e.approval_id,
        run_id: e.run_id,
        automation_id: e.automation_id.clone(),
        status: e.status,
        created_at_ms: e.created_at_ms,
        updated_at_ms: e.updated_at_ms,
        expires_at_ms: e.expires_at_ms,
        plan: copy_bytes(&e.plan),
        error: match &e.error {
            Some(s) => Some(s.clone()),
            None => None,
        },
    }
}

// ----------------------------------------------------------------------------
// Insert, count, list
// ----------------------------------------------------------------------------

/// Some row holds the approval identity.
pub open spec fn has_approval(rows: Seq<AutomationApprovalRow>, approval_id: u128) -> bool {
    exists|i: int| 0 <= i < rows.len() && rows[i].approval_id == approval_id
}

/// Some row holds the run.
pub open spec fn has_run(rows: Seq<AutomationApprovalRow>, run_id: u128) -> bool {
    exists|i: int| 0 <= i < rows.len() && rows[i].run_id == run_id
}

/// The row that a new pending entry is inserted as; its update column starts
/// at the creation time.
pub open spec fn inserted_row(row: AutomationApprovalRow, entry: AutomationApprovalEntry) -> bool {
    &&& row.approval_id == entry.approval_id
    &&& row.run_id == entry.run_id
    &&& row.status == AutomationApprovalStatus::Pending
    &&& row.created_at_ms as int == entry.created_at_ms as int
    &&& row.updated_at_ms as int == entry.created_at_ms as int
    &&& row.expires_at_ms as int == entry.expires_at_ms as int
    &&& row.schema_version == AUTOMATION_APPROVAL_VERSION
    &&& automation_entry_view(row.entry) == automation_entry_view(entry)
}

/// Inserts a pending plan once.
///
/// # Errors
///
/// [`SqlitePersistenceError::InvalidAutomationApprovalJournal`] for an entry that
/// breaks [`automation_approval_ok`], is not pending, or has a time beyond storage
/// range; a storage error for an identity or run already kept. The rows
/// are then unchanged.
pub fn insert_automation_approval(rows: &mut Vec<AutomationApprovalRow>, entry: &AutomationApprovalEntry) -> (r:
    Result<(), SqlitePersistenceError>)
    ensures
        !automation_approval_ok(*entry) || entry.status != AutomationApprovalStatus::Pending
            || entry.created_at_ms > i64::MAX || entry.expires_at_ms > i64::MAX ==> r == Err::<
            (),
            SqlitePersistenceError,
        >(SqlitePersistenceError::InvalidAutomationApprovalJournal),
        automation_approval_ok(*entry) && entry.status == AutomationApprovalStatus::Pending
            && entry.created_at_ms <= i64::MAX && entry.expires_at_ms <= i64::MAX ==> if has_approval(
            old(rows)@,
            entry.approval_id,
        ) {
            r matches Err(SqlitePersistenceError::Sqlite(m)) && m@ == DUPLICATE_AUTOMATION_APPROVAL@
        } else if has_run(old(rows)@, entry.run_id) {
            r matches Err(SqlitePersistenceError::Sqlite(m)) && m@ == DUPLICATE_AUTOMATION_RUN@
        } else {
            r is Ok
        },
        r is Err ==> final(rows)@ == old(rows)@,
        r is Ok ==> final(rows)@.len() == old(rows)@.len() + 1 && final(rows)@.drop_last() == old(
            rows,
        )@ && inserted_row(final(rows)@.last(), *entry),
{
    validate_automation_approval(entry)?;
    if entry.status != AutomationApprovalStatus::Pending {
        return Err(SqlitePersistenceError::InvalidAutomationApprovalJournal);
    }
    let created = to_i64(entry.created_at_ms, SqlitePersistenceError::InvalidAutomationApprovalJournal)?;
    let expires = to_i64(entry.expires_at_ms, SqlitePersistenceError::InvalidAutomationApprovalJournal)?;
    let mut i: usize = 0;
    while i < rows.len()
        invariant
            0 <= i <= rows@.len(),
            automation_approval_ok(*entry),
            entry.status == AutomationApprovalStatus::Pending,
            entry.created_at_ms <= i64::MAX,
            entry.expires_at_ms <= i64::MAX,
            forall|j: int| 0 <= j < i ==> #[trigger] rows@[j].approval_id != entry.approval_id,
        decreases rows@.len() - i,
    {
        if rows[i].approval_id == entry.approval_id {
            return Err(SqlitePersistenceError::Sqlite(DUPLICATE_AUTOMATION_APPROVAL.to_owned()));
        }
        i = i + 1;
    }
    let mut k: usize = 0;
    while k < rows.len()
        invariant
            0 <= k <= rows@.len(),
            automation_approval_ok(*entry),
            entry.status == AutomationApprovalStatus::Pending,
            entry.created_at_ms <= i64::MAX,
            entry.expires_at_ms <= i64::MAX,
            !has_approval(rows@, entry.approval_id),
            forall|j: int| 0 <= j < k ==> #[trigger] rows@[j].run_id != entry.run_id,
        decreases rows@.len() - k,
    {
        if rows[k].run_id == entry.run_id {
            return Err(SqlitePersistenceError::Sqlite(DUPLICATE_AUTOMATION_RUN.to_owned()));
        }
        k = k + 1;
    }
    let ghost o = rows@;
    rows.push(
        AutomationApprovalRow {
            approval_id: entry.approval_id,
            run_id: entry.run_id,
            status: AutomationApprovalStatus::Pending,
            created_at_ms: created,
            updated_at_ms: created,
            expires_at_ms: expires,
            schema_version: AUTOMATION_APPROVAL_VERSION,
            entry: copy_entry(entry),
        },
    );
    proof {
        assert(rows@.drop_last() =~= o);
    }
    Ok(())
}

/// The row awaits a decision at `now`: pending and not yet expired, by its
/// columns.
pub open spec fn awaiting(row: AutomationApprovalRow, now: u64) -> bool {
    row.status == AutomationApprovalStatus::Pending && row.expires_at_ms > now
}

/// The number of rows awaiting a decision among the first `n`.
pub open spec fn awaiting_count(rows: Seq<AutomationApprovalRow>, now: u64, n: int) -> nat
    decreases n,
{
    if n <= 0 {
        0
    } else {
        awaiting_count(rows, now, n - 1) + if awaiting(rows[n - 1], now) {
            1nat
        } else {
            0nat
        }
    }
}

proof fn lemma_awaiting_count_bound(rows: Seq<AutomationApprovalRow>, now: u64, n: int)
    requires
        0 <= n,
    ensures
        awaiting_count(rows, now, n) <= n,
    decreases n,
{
    if n > 0 {
        lemma_awaiting_count_bound(rows, now, n - 1);
    }
}

/// Counts the plans awaiting a decision at `now_ms`.
///
/// # Errors
///
/// [`SqlitePersistenceError::InvalidAutomationApprovalJournal`] for a time beyond
/// storage range.
pub fn pending_automation_count(rows: &Vec<AutomationApprovalRow>, now_ms: u64) -> (r: Result<
    usize,
    SqlitePersistenceError,
>)
    ensures
        now_ms > i64::MAX ==> r == Err::<usize, SqlitePersistenceError>(
            SqlitePersistenceError::InvalidAutomationApprovalJournal,
        ),
        now_ms <= i64::MAX ==> (r matches Ok(n) && n == awaiting_count(
            rows@,
            now_ms,
            rows@.len() as int,
        )),
{
    let now = to_i64(now_ms, SqlitePersistenceError::InvalidAutomationApprovalJournal)?;
    let mut count: usize = 0;
    let mut i: usize = 0;
    while i < rows.len()
        invariant
            0 <= i <= rows@.len(),
            now == now_ms,
            count == awaiting_count(rows@, now_ms, i as int),
        decreases rows@.len() - i,
    {
        proof {
            lemma_awaiting_count_bound(rows@, now_ms, i as int);
        }
        if rows[i].status == AutomationApprovalStatus::Pending && rows[i].expires_at_ms > now {
            count = count + 1;
        }
        i = i + 1;
    }
    Ok(count)
}

/// What a pending listing orders by: creation time, then approval identity.
pub open spec fn approval_key(row: AutomationApprovalRow) -> ListingKey {
    (row.created_at_ms, row.approval_id)
}

/// `cands` lists, in table order, every row awaiting a decision at `now`.
pub open spec fn awaiting_rows(rows: Seq<AutomationApprovalRow>, now: u64, cands: Seq<usize>) -> bool {
    &&& forall|a: int, b: int| 0 <= a < b < cands.len() ==> #[trigger] cands[a] < #[trigger] cands[b]
    &&& forall|k: int| 0 <= k < cands.len() ==> #[trigger] cands[k] < rows.len() && awaiting(rows[cands[k] as int], now)
    &&& forall|j: usize| j < rows.len() && awaiting(rows[j as int], now) ==> #[trigger] cands.contains(j)
}

/// The keys of the candidate rows.
pub open spec fn awaiting_keys(rows: Seq<AutomationApprovalRow>, cands: Seq<usize>) -> Seq<ListingKey> {
    cands.map_values(|j: usize| approval_key(rows[j as int]))
}

fn collect_awaiting(rows: &Vec<AutomationApprovalRow>, now_ms: u64, now: i64) -> (r: (
    Vec<usize>,
    Vec<ListingKey>,
))
    requires
        now == now_ms,
    ensures
        awaiting_rows(rows@, now_ms, r.0@),
        r.1@ == awaiting_keys(rows@, r.0@),
{
    let mut cands: Vec<usize> = Vec::new();
    let mut keys: Vec<ListingKey> = Vec::new();
    let mut i: usize = 0;
    while i < rows.len()
        invariant
            0 <= i <= rows@.len(),
            now == now_ms,
            forall|a: int, b: int|
                0 <= a < b < cands@.len() ==> #[trigger] cands@[a] < #[trigger] cands@[b],
            forall|k: int|
                0 <= k < cands@.len() ==> #[trigger] cands@[k] < i && awaiting(
                    rows@[cands@[k] as int],
                    now_ms,
                ),
            forall|j: usize| j < i && awaiting(rows@[j as int], now_ms) ==> #[trigger] cands@.contains(j),
            keys@ == awaiting_keys(rows@, cands@),
        decreases rows@.len() - i,
    {
        if rows[i].status == AutomationApprovalStatus::Pending && rows[i].expires_at_ms > now {
            let ghost before = cands@;
            cands.push(i);
            keys.push((rows[i].created_at_ms, rows[i].approval_id));
            proof {
                assert(keys@ =~= awaiting_keys(rows@, cands@));
                assert forall|j: usize| j < i + 1 && awaiting(rows@[j as int], now_ms) implies #[trigger] cands@.contains(j) by {
                    if j == i {
                        assert(cands@[before.len() as int] == j);
                    } else {
                        assert(before.contains(j));
                        let k = choose|k: int| 0 <= k < before.len() && before[k] == j;
                        assert(cands@[k] == j);
                    }
                }
            }
        }
        i = i + 1;
    }
    (cands, keys)
}

/// Lists the plans awaiting a decision at `now_ms`, oldest first (creation
/// time, then approval identity), at most `limit`.
///
/// # Errors
///
/// [`SqlitePersistenceError::InvalidAutomationApprovalJournal`] for a page size
/// outside `1..=256` or a time beyond storage range, and the error of the
/// first listed row that fails to load.
pub fn list_pending_automation_approvals(rows: &Vec<AutomationApprovalRow>, now_ms: u64, limit: usize) -> (r:
    Result<Vec<AutomationApprovalEntry>, SqlitePersistenceError>)
    ensures
        !(1 <= limit <= MAX_PENDING_AUTOMATION_PAGE) || now_ms > i64::MAX ==> r == Err::<
            Vec<AutomationApprovalEntry>,
            SqlitePersistenceError,
        >(SqlitePersistenceError::InvalidAutomationApprovalJournal),
        1 <= limit <= MAX_PENDING_AUTOMATION_PAGE && now_ms <= i64::MAX ==> exists|
            cands: Seq<usize>,
            order: Seq<usize>,
        |
            awaiting_rows(rows@, now_ms, cands) && paging::oldest_first(
                awaiting_keys(rows@, cands),
                order,
            ) && ({
                let n = if order.len() < limit {
                    order.len() as int
                } else {
                    limit as int
                };
                match r {
                    Ok(listed) => listed@.len() == n && forall|k: int|
                        0 <= k < n ==> automation_row_error(rows@[cands[#[trigger] order[k] as int] as int])
                            is None && automation_entry_view(listed@[k]) == automation_entry_view(
                            rows@[cands[order[k] as int] as int].entry,
                        ),
                    Err(e) => exists|k: int|
                        0 <= k < n && automation_row_error(rows@[cands[order[k] as int] as int]) == Some(
                            e,
                        ) && forall|m: int|
                            0 <= m < k ==> automation_row_error(
                                rows@[cands[#[trigger] order[m] as int] as int],
                            ) is None,
                }
            }),
{
    if limit == 0 || limit > MAX_PENDING_AUTOMATION_PAGE {
        return Err(SqlitePersistenceError::InvalidAutomationApprovalJournal);
    }
    let now = to_i64(now_ms, SqlitePersistenceError::InvalidAutomationApprovalJournal)?;
    let (cands, keys) = collect_awaiting(rows, now_ms, now);
    let order = paging::sorted_oldest_first(&keys);
    let n = if order.len() < limit {
        order.len()
    } else {
        limit
    };
    let mut listed: Vec<AutomationApprovalEntry> = Vec::new();
    let mut k: usize = 0;
    while k < n
        invariant
            1 <= limit <= MAX_PENDING_AUTOMATION_PAGE,
            now_ms <= i64::MAX,
            awaiting_rows(rows@, now_ms, cands@),
            keys@ == awaiting_keys(rows@, cands@),
            paging::oldest_first(keys@, order@),
            n == (if order@.len() < limit {
                order@.len() as int
            } else {
                limit as int
            }),
            0 <= k <= n,
            listed@.len() == k,
            forall|m: int|
                0 <= m < k ==> automation_row_error(rows@[cands@[#[trigger] order@[m] as int] as int])
                    is None && automation_entry_view(listed@[m]) == automation_entry_view(
                    rows@[cands@[order@[m] as int] as int].entry,
                ),
        decreases n - k,
    {
        let row = &rows[cands[order[k]]];
        match check_row(row) {
            Err(e) => {
                proof {
                    assert(exists|k2: int|
                        0 <= k2 < n && automation_row_error(rows@[cands@[order@[k2] as int] as int])
                            == Some(e) && forall|m: int|
                            0 <= m < k2 ==> automation_row_error(
                                rows@[cands@[#[trigger] order@[m] as int] as int],
                            ) is None);
                }
                return Err(e);
            },
            Ok(()) => {},
        }
        let ghost prior = listed@;
        listed.push(copy_entry(&row.entry));
        proof {
            assert forall|m: int| 0 <= m < k + 1 implies automation_row_error(
                rows@[cands@[#[trigger] order@[m] as int] as int],
            ) is None && automation_entry_view(listed@[m]) == automation_entry_view(
                rows@[cands@[order@[m] as int] as int].entry,
            ) by {
                if m < k {
                    assert(listed@[m] == prior[m]);
                }
            }
        }
        k = k + 1;
    }
    Ok(listed)
}

// ----------------------------------------------------------------------------
// Claim, reject, finish
// ----------------------------------------------------------------------------

/// The row after `entry` was written over it: new status, update time and
/// payload; the other columns stay.
pub open spec fn written(old_row: AutomationApprovalRow, new_row: AutomationApprovalRow, entry: AutomationApprovalEntry) -> bool {
    &&& new_row.approval_id == old_row.approval_id
    &&& new_row.run_id == old_row.run_id
    &&& new_row.status == entry.status
    &&& new_row.created_at_ms == old_row.created_at_ms
    &&& new_row.updated_at_ms as int == entry.updated_at_ms as int
    &&& new_row.expires_at_ms == old_row.expires_at_ms
    &&& new_row.schema_version == old_row.schema_version
    &&& automation_entry_view(new_row.entry) == automation_entry_view(entry)
}

/// Only row `i` changed, and it took `entry`.
pub open spec fn rewrote(
    old_rows: Seq<AutomationApprovalRow>,
    new_rows: Seq<AutomationApprovalRow>,
    i: int,
    entry: AutomationApprovalEntry,
) -> bool {
    &&& new_rows.len() == old_rows.len()
    &&& written(old_rows[i], new_rows[i], entry)
    &&& forall|j: int| 0 <= j < old_rows.len() && j != i ==> #[trigger] new_rows[j] == old_rows[j]
}

/// Writes `entry` over row `i`.
fn write_back(rows: &mut Vec<AutomationApprovalRow>, i: usize, entry: AutomationApprovalEntry) -> (r:
    Result<(), SqlitePersistenceError>)
    requires
        i < old(rows)@.len(),
    ensures
        !automation_approval_ok(entry) || entry.updated_at_ms > i64::MAX ==> r == Err::<
            (),
            SqlitePersistenceError,
        >(SqlitePersistenceError::InvalidAutomationApprovalJournal) && final(rows)@ == old(rows)@,
        automation_approval_ok(entry) && entry.updated_at_ms <= i64::MAX ==> r is Ok && rewrote(
            old(rows)@,
            final(rows)@,
            i as int,
            entry,
        ),
{
    validate_automation_approval(&entry)?;
    let updated = to_i64(entry.updated_at_ms, SqlitePersistenceError::InvalidAutomationApprovalJournal)?;
    let row = AutomationApprovalRow {
        approval_id: rows[i].approval_id,
        run_id: rows[i].run_id,
        status: entry.status,
        created_at_ms: rows[i].created_at_ms,
        updated_at_ms: updated,
        expires_at_ms: rows[i].expires_at_ms,
        schema_version: rows[i].schema_version,
        entry,
    };
    rows.set(i, row);
    Ok(())
}

/// Row `i` is the first pending row of the approval identity, by its columns.
pub open spec fn first_pending(rows: Seq<AutomationApprovalRow>, approval_id: u128, i: int) -> bool {
    &&& 0 <= i < rows.len()
    &&& rows[i].approval_id == approval_id
    &&& rows[i].status == AutomationApprovalStatus::Pending
    &&& forall|j: int|
        0 <= j < i ==> !(#[trigger] rows[j].approval_id == approval_id && rows[j].status
            == AutomationApprovalStatus::Pending)
}

/// Some pending row holds the approval identity.
pub open spec fn has_pending(rows: Seq<AutomationApprovalRow>, approval_id: u128) -> bool {
    exists|i: int|
        0 <= i < rows.len() && rows[i].approval_id == approval_id && rows[i].status
            == AutomationApprovalStatus::Pending
}

/// `r` and the rows after it answer resolving the entry of pending row `i`
/// at `now` toward `target`: expired past its expiry (written, and answered
/// as expired); otherwise moved to `target`.
pub open spec fn pending_resolution(
    r: Result<AutomationApprovalEntry, SqlitePersistenceError>,
    old_rows: Seq<AutomationApprovalRow>,
    new_rows: Seq<AutomationApprovalRow>,
    i: int,
    now: u64,
    target: AutomationApprovalStatus,
) -> bool {
    let e = old_rows[i].entry;
    let w = AutomationApprovalEntry {
        status: if e.expires_at_ms <= now {
            AutomationApprovalStatus::Expired
        } else {
            target
        },
        updated_at_ms: now,
        ..e
    };
    if !automation_approval_ok(w) || now > i64::MAX {
        r == Err::<AutomationApprovalEntry, SqlitePersistenceError>(
            SqlitePersistenceError::InvalidAutomationApprovalJournal,
        ) && new_rows == old_rows
    } else if e.expires_at_ms <= now {
        r == Err::<AutomationApprovalEntry, SqlitePersistenceError>(
            SqlitePersistenceError::AutomationApprovalExpired,
        ) && rewrote(old_rows, new_rows, i, w)
    } else {
        (r matches Ok(c) && automation_entry_view(c) == automation_entry_view(w)) && rewrote(
            old_rows,
            new_rows,
            i,
            w,
        )
    }
}

proof fn lemma_ok_by_view(a: AutomationApprovalEntry, b: AutomationApprovalEntry)
    requires
        automation_entry_view(a) == automation_entry_view(b),
    ensures
        automation_approval_ok(a) == automation_approval_ok(b),
{
}

fn resolve_pending(
    rows: &mut Vec<AutomationApprovalRow>,
    approval_id: u128,
    now_ms: u64,
    target: AutomationApprovalStatus,
) -> (r: Result<AutomationApprovalEntry, SqlitePersistenceError>)
    ensures
        !has_pending(old(rows)@, approval_id) ==> r == Err::<
            AutomationApprovalEntry,
            SqlitePersistenceError,
        >(SqlitePersistenceError::AutomationApprovalNotPending) && final(rows)@ == old(rows)@,
        has_pending(old(rows)@, approval_id) ==> exists|i: int|
            first_pending(old(rows)@, approval_id, i) && match automation_row_error(old(rows)@[i]) {
                Some(e) => r == Err::<AutomationApprovalEntry, SqlitePersistenceError>(e)
                    && final(rows)@ == old(rows)@,
                None => pending_resolution(r, old(rows)@, final(rows)@, i, now_ms, target),
            },
{
    let mut i: usize = 0;
    while i < rows.len()
        invariant
            0 <= i <= rows@.len(),
            rows@ == old(rows)@,
            forall|j: int|
                0 <= j < i ==> !(#[trigger] rows@[j].approval_id == approval_id && rows@[j].status
                    == AutomationApprovalStatus::Pending),
        decreases rows@.len() - i,
    {
        if rows[i].approval_id == approval_id && rows[i].status == AutomationApprovalStatus::Pending {
            proof {
                assert(first_pending(rows@, approval_id, i as int));
            }
            check_row(&rows[i])?;
            let ghost e = rows@[i as int].entry;
            let expired = rows[i].entry.expires_at_ms <= now_ms;
            let mut w = copy_entry(&rows[i].entry);
            w.status = if expired {
                AutomationApprovalStatus::Expired
            } else {
                target
            };
            w.updated_at_ms = now_ms;
            let answer = copy_entry(&w);
            proof {
                let expect = AutomationApprovalEntry {
                    status: if e.expires_at_ms <= now_ms {
                        AutomationApprovalStatus::Expired
                    } else {
                        target
                    },
                    updated_at_ms: now_ms,
                    ..e
                };
                assert(automation_entry_view(w) == automation_entry_view(expect));
                lemma_ok_by_view(w, expect);
            }
            write_back(rows, i, w)?;
            if expired {
                return Err(SqlitePersistenceError::AutomationApprovalExpired);
            }
            return Ok(answer);
        }
        i = i + 1;
    }
    Err(SqlitePersistenceError::AutomationApprovalNotPending)
}

/// Claims a pending plan for execution at `now_ms`.
///
/// # Errors
///
/// [`SqlitePersistenceError::AutomationApprovalNotPending`] when no pending
/// row holds the plan; the errors of loading its row; and those of
/// [`pending_resolution`] (an expired plan is written as expired).
pub fn claim_automation(rows: &mut Vec<AutomationApprovalRow>, approval_id: u128, now_ms: u64) -> (r:
    Result<AutomationApprovalEntry, SqlitePersistenceError>)
    ensures
        !has_pending(old(rows)@, approval_id) ==> r == Err::<
            AutomationApprovalEntry,
            SqlitePersistenceError,
        >(SqlitePersistenceError::AutomationApprovalNotPending) && final(rows)@ == old(rows)@,
        has_pending(old(rows)@, approval_id) ==> exists|i: int|
            first_pending(old(rows)@, approval_id, i) && match automation_row_error(old(rows)@[i]) {
                Some(e) => r == Err::<AutomationApprovalEntry, SqlitePersistenceError>(e)
                    && final(rows)@ == old(rows)@,
                None => pending_resolution(
                    r,
                    old(rows)@,
                    final(rows)@,
                    i,
                    now_ms,
                    AutomationApprovalStatus::Executing,
                ),
            },
{
    resolve_pending(rows, approval_id, now_ms, AutomationApprovalStatus::Executing)
}

/// Rejects a pending plan at `now_ms`.
///
/// # Errors
///
/// As [`claim_automation`].
pub fn reject_automation(rows: &mut Vec<AutomationApprovalRow>, approval_id: u128, now_ms: u64) -> (r:
    Result<AutomationApprovalEntry, SqlitePersistenceError>)
    ensures
        !has_pending(old(rows)@, approval_id) ==> r == Err::<
            AutomationApprovalEntry,
            SqlitePersistenceError,
        >(SqlitePersistenceError::AutomationApprovalNotPending) && final(rows)@ == old(rows)@,
        has_pending(old(rows)@, approval_id) ==> exists|i: int|
            first_pending(old(rows)@, approval_id, i) && match automation_row_error(old(rows)@[i]) {
                Some(e) => r == Err::<AutomationApprovalEntry, SqlitePersistenceError>(e)
                    && final(rows)@ == old(rows)@,
                None => pending_resolution(
                    r,
                    old(rows)@,
                    final(rows)@,
                    i,
                    now_ms,
                    AutomationApprovalStatus::Rejected,
                ),
            },
{
    resolve_pending(rows, approval_id, now_ms, AutomationApprovalStatus::Rejected)
}

/// An Automation approval may finish as completed or failed.
pub open spec fn automation_finish_status(status: AutomationApprovalStatus) -> bool {
    status == AutomationApprovalStatus::Completed || status == AutomationApprovalStatus::Failed
}

/// Row `i` is the first executing row of the approval identity, by its columns.
pub open spec fn first_executing(rows: Seq<AutomationApprovalRow>, approval_id: u128, i: int) -> bool {
    &&& 0 <= i < rows.len()
    &&& rows[i].approval_id == approval_id
    &&& rows[i].status == AutomationApprovalStatus::Executing
    &&& forall|j: int|
        0 <= j < i ==> !(#[trigger] rows[j].approval_id == approval_id && rows[j].status
            == AutomationApprovalStatus::Executing)
}

/// Some executing row holds the approval identity.
pub open spec fn has_executing(rows: Seq<AutomationApprovalRow>, approval_id: u128) -> bool {
    exists|i: int|
        0 <= i < rows.len() && rows[i].approval_id == approval_id && rows[i].status
            == AutomationApprovalStatus::Executing
}

/// `r` and the rows after it answer finishing the claimed entry of row `i`.
pub open spec fn finish_resolution(
    r: Result<(), SqlitePersistenceError>,
    old_rows: Seq<AutomationApprovalRow>,
    new_rows: Seq<AutomationApprovalRow>,
    i: int,
    status: AutomationApprovalStatus,
    now: u64,
    error: Option<String>,
) -> bool {
    let done = AutomationApprovalEntry { status, updated_at_ms: now, error, ..old_rows[i].entry };
    if !automation_approval_ok(done) || now > i64::MAX {
        r == Err::<(), SqlitePersistenceError>(SqlitePersistenceError::InvalidAutomationApprovalJournal)
            && new_rows == old_rows
    } else {
        r is Ok && rewrote(old_rows, new_rows, i, done)
    }
}

/// Finishes a claimed plan as completed or failed.
///
/// # Errors
///
/// [`SqlitePersistenceError::InvalidAutomationApprovalJournal`] for another
/// status; [`SqlitePersistenceError::AutomationApprovalNotPending`]
/// when no executing row holds the plan; the errors of loading its row; then
/// those of [`finish_resolution`].
pub fn finish_automation(
    rows: &mut Vec<AutomationApprovalRow>,
    approval_id: u128,
    status: AutomationApprovalStatus,
    now_ms: u64,
    error: Option<String>,
) -> (r: Result<(), SqlitePersistenceError>)
    ensures
        !automation_finish_status(status) ==> r == Err::<
            (),
            SqlitePersistenceError,
        >(SqlitePersistenceError::InvalidAutomationApprovalJournal) && final(rows)@ == old(rows)@,
        automation_finish_status(status) && !has_executing(
            old(rows)@,
            approval_id,
        ) ==> r == Err::<(), SqlitePersistenceError>(SqlitePersistenceError::AutomationApprovalNotPending)
            && final(rows)@ == old(rows)@,
        automation_finish_status(status) && has_executing(
            old(rows)@,
            approval_id,
        ) ==> exists|i: int|
            first_executing(old(rows)@, approval_id, i) && match automation_row_error(old(rows)@[i]) {
                Some(e) => r == Err::<(), SqlitePersistenceError>(e) && final(rows)@ == old(rows)@,
                None => finish_resolution(r, old(rows)@, final(rows)@, i, status, now_ms, error),
            },
{
    if status != AutomationApprovalStatus::Completed && status != AutomationApprovalStatus::Failed {
        return Err(SqlitePersistenceError::InvalidAutomationApprovalJournal);
    }
    let mut i: usize = 0;
    while i < rows.len()
        invariant
            0 <= i <= rows@.len(),
            rows@ == old(rows)@,
            automation_finish_status(status),
            forall|j: int|
                0 <= j < i ==> !(#[trigger] rows@[j].approval_id == approval_id && rows@[j].status
                    == AutomationApprovalStatus::Executing),
        decreases rows@.len() - i,
    {
        if rows[i].approval_id == approval_id && rows[i].status
            == AutomationApprovalStatus::Executing {
            proof {
                assert(first_executing(rows@, approval_id, i as int));
            }
            check_row(&rows[i])?;
            let ghost e = rows@[i as int].entry;
            let ghost err = error;
            let mut done = copy_entry(&rows[i].entry);
            done.status = status;
            done.updated_at_ms = now_ms;
            done.error = error;
            proof {
                let expect = AutomationApprovalEntry {
                    status,
                    updated_at_ms: now_ms,
                    error: err,
                    ..e
                };
                assert(automation_entry_view(done) == automation_entry_view(expect));
                lemma_ok_by_view(done, expect);
            }
            return write_back(rows, i, done);
        }
        i = i + 1;
    }
    Err(SqlitePersistenceError::AutomationApprovalNotPending)
}

// ----------------------------------------------------------------------------
// Recovery
// ----------------------------------------------------------------------------

/// Recovery looks at the row: pending or executing by its status column.
pub open spec fn targeted(row: AutomationApprovalRow) -> bool {
    row.status == AutomationApprovalStatus::Pending || row.status
        == AutomationApprovalStatus::Executing
}

/// What recovery makes of a looked-at entry: an executing one is
/// interrupted, any other one past its expiry expired.
pub open spec fn store_recovery(entry: AutomationApprovalEntry, now: u64) -> Option<
    AutomationApprovalEntry,
> {
    if entry.status == AutomationApprovalStatus::Executing {
        Some(
            AutomationApprovalEntry {
                status: AutomationApprovalStatus::Interrupted,
                updated_at_ms: now,
                ..entry
            },
        )
    } else if entry.expires_at_ms <= now {
        Some(
            AutomationApprovalEntry {
                status: AutomationApprovalStatus::Expired,
                updated_at_ms: now,
                ..entry
            },
        )
    } else {
        None
    }
}

/// What recovery writes over the row, if anything.
pub open spec fn recovery_write(row: AutomationApprovalRow, now: u64) -> Option<AutomationApprovalEntry> {
    if targeted(row) {
        store_recovery(row.entry, now)
    } else {
        None
    }
}

fn recover_entry(entry: &AutomationApprovalEntry, now_ms: u64) -> (r: Option<
    AutomationApprovalEntry,
>)
    ensures
        match store_recovery(*entry, now_ms) {
            Some(w) => r matches Some(x) && automation_entry_view(x) == automation_entry_view(w),
            None => r is None,
        },
{
    let next = if entry.status == AutomationApprovalStatus::Executing {
        AutomationApprovalStatus::Interrupted
    } else if entry.expires_at_ms <= now_ms {
        AutomationApprovalStatus::Expired
    } else {
        return None;
    };
    let mut w = copy_entry(entry);
    w.status = next;
    w.updated_at_ms = now_ms;
    Some(w)
}

/// What recovering the row fails with, if anything.
pub open spec fn recovery_error(row: AutomationApprovalRow, now: u64) -> Option<SqlitePersistenceError> {
    if !targeted(row) {
        None
    } else {
        match automation_row_error(row) {
            Some(e) => Some(e),
            None => match store_recovery(row.entry, now) {
                Some(w) => if !automation_approval_ok(w) || now > i64::MAX {
                    Some(SqlitePersistenceError::InvalidAutomationApprovalJournal)
                } else {
                    None
                },
                None => None,
            },
        }
    }
}

/// The row after recovery.
pub open spec fn recovered(old_row: AutomationApprovalRow, new_row: AutomationApprovalRow, now: u64) -> bool {
    match recovery_write(old_row, now) {
        Some(w) => written(old_row, new_row, w),
        None => new_row == old_row,
    }
}

/// How many of the first `n` rows recovery rewrites.
pub open spec fn recovered_count(rows: Seq<AutomationApprovalRow>, now: u64, n: int) -> nat
    decreases n,
{
    if n <= 0 {
        0
    } else {
        recovered_count(rows, now, n - 1) + if recovery_write(rows[n - 1], now) is Some {
            1nat
        } else {
            0nat
        }
    }
}

proof fn lemma_recovered_count_bound(rows: Seq<AutomationApprovalRow>, now: u64, n: int)
    requires
        0 <= n,
    ensures
        recovered_count(rows, now, n) <= n,
    decreases n,
{
    if n > 0 {
        lemma_recovered_count_bound(rows, now, n - 1);
    }
}

/// After a restart, interrupts every executing plan and expires every pending
/// plan past its expiry, all or nothing, and tells how many it rewrote.
///
/// # Errors
///
/// The [`recovery_error`] of the first row that has one; the rows are then
/// unchanged.
pub fn recover_automation(rows: &mut Vec<AutomationApprovalRow>, now_ms: u64) -> (r: Result<
    usize,
    SqlitePersistenceError,
>)
    ensures
        r matches Err(e) ==> final(rows)@ == old(rows)@ && exists|j: int|
            0 <= j < old(rows)@.len() && recovery_error(old(rows)@[j], now_ms) == Some(e)
                && forall|m: int| 0 <= m < j ==> recovery_error(#[trigger] old(rows)@[m], now_ms) is None,
        (forall|j: int| 0 <= j < old(rows)@.len() ==> recovery_error(#[trigger] old(rows)@[j], now_ms) is None)
            <==> r is Ok,
        r matches Ok(n) ==> n == recovered_count(old(rows)@, now_ms, old(rows)@.len() as int)
            && final(rows)@.len() == old(rows)@.len() && forall|j: int|
            0 <= j < old(rows)@.len() ==> recovered(#[trigger] old(rows)@[j], final(rows)@[j], now_ms),
{
    let mut i: usize = 0;
    while i < rows.len()
        invariant
            0 <= i <= rows@.len(),
            rows@ == old(rows)@,
            forall|m: int| 0 <= m < i ==> recovery_error(#[trigger] rows@[m], now_ms) is None,
        decreases rows@.len() - i,
    {
        let row = &rows[i];
        if row.status == AutomationApprovalStatus::Pending || row.status
            == AutomationApprovalStatus::Executing {
            match check_row(row) {
                Err(e) => {
                    return Err(e);
                },
                Ok(()) => {},
            }
            let ghost e = row.entry;
            match recover_entry(&row.entry, now_ms) {
                Some(w) => {
                    proof {
                        let expect = store_recovery(e, now_ms)->Some_0;
                        assert(automation_entry_view(w) == automation_entry_view(expect));
                        lemma_ok_by_view(w, expect);
                    }
                    if validate_automation_approval(&w).is_err() || now_ms > i64::MAX as u64 {
                        return Err(SqlitePersistenceError::InvalidAutomationApprovalJournal);
                    }
                },
                None => {},
            }
        }
        i = i + 1;
    }
    let ghost o = rows@;
    let mut count: usize = 0;
    let mut k: usize = 0;
    while k < rows.len()
        invariant
            0 <= k <= rows@.len(),
            o == old(rows)@,
            rows@.len() == o.len(),
            forall|m: int| 0 <= m < o.len() ==> recovery_error(#[trigger] o[m], now_ms) is None,
            forall|m: int| 0 <= m < k ==> recovered(#[trigger] o[m], rows@[m], now_ms),
            forall|m: int| k <= m < o.len() ==> #[trigger] rows@[m] == o[m],
            count == recovered_count(o, now_ms, k as int),
        decreases rows@.len() - k,
    {
        proof {
            lemma_recovered_count_bound(o, now_ms, k as int);
            assert(recovery_error(o[k as int], now_ms) is None);
        }
        if rows[k].status == AutomationApprovalStatus::Pending || rows[k].status
            == AutomationApprovalStatus::Executing {
            let ghost e = rows@[k as int].entry;
            match recover_entry(&rows[k].entry, now_ms) {
                Some(w) => {
                    proof {
                        let expect = store_recovery(e, now_ms)->Some_0;
                        assert(automation_entry_view(w) == automation_entry_view(expect));
                        lemma_ok_by_view(w, expect);
                    }
                    let ghost before = rows@;
                    let written_ok = write_back(rows, k, w);
                    proof {
                        assert(written_ok is Ok);
                        assert forall|m: int| 0 <= m < k implies recovered(#[trigger] o[m], rows@[m], now_ms) by {
                            assert(rows@[m] == before[m]);
                        }
                    }
                    count = count + 1;
                },
                None => {},
            }
        }
        k = k + 1;
    }
    Ok(count)
}

/// A claim is single-use: once no row of the plan is pending by its status
/// column, as after a claim, claiming or rejecting it again is refused as not
/// pending and writes nothing.
pub proof fn law_claim_is_single_use(rows: Seq<AutomationApprovalRow>, approval_id: u128)
    requires
        forall|j: int|
            0 <= j < rows.len() && #[trigger] rows[j].approval_id == approval_id ==> rows[j].status
                != AutomationApprovalStatus::Pending,
    ensures
        !has_pending(rows, approval_id),
{
}

} // verus!
