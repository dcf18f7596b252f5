//! The version chain of Workspace snapshots of an Auto Mode session: the
//! first snapshot is revision 1, and each successor is the next revision and
//! names its predecessor's fingerprint.
//!
//! A snapshot is read for its revision, parent, fingerprint and creation time;
//! the runtime checks the rest. Identifiers are UUIDs held as 128-bit integers.
use crate::error::SqlitePersistenceError;
use crate::text::str_equal;
use vstd::prelude::*;
use vstd::string::StringSliceAdditionalSpecFns;
use vstd::utf8::encode_utf8;

verus! {

/// Spec identifier of stored Workspace snapshots.
pub const STORED_WORKSPACE_SNAPSHOT_SPEC: &'static str = "nimora.stored-workspace-snapshot/1";

/// Largest value storage holds (`i64::MAX`).
pub const MAX_STORED: u64 = 9_223_372_036_854_775_807;

/// What storage answers a successor whose fingerprint is already stored.
pub const DUPLICATE_FINGERPRINT: &'static str =
    "UNIQUE constraint failed: agent_workspace_snapshot.snapshot_fingerprint";

/// A Workspace snapshot bound to an Auto Mode session and its root.
#[derive(Debug, Clone, PartialEq, Eq)]
pub struct StoredWorkspaceSnapshot {
    pub spec: String,
    pub session_id: u128,
    /// The host's opaque identity of the Workspace root: 64 hexadecimal digits.
    pub root_fingerprint: String,
    pub revision: u64,
    pub parent_fingerprint: Option<String>,
    pub fingerprint: String,
    pub created_at_ms: u64,
}

/// One row of the snapshot table: its indexed columns beside the snapshot.
#[derive(Debug, Clone, PartialEq, Eq)]
pub struct WorkspaceSnapshotRow {
    pub session_id: u128,
    pub revision: i64,
    pub root_fingerprint: String,
    pub snapshot_fingerprint: String,
    pub created_at_ms: i64,
    pub schema_version: u32,
    pub record: StoredWorkspaceSnapshot,
}

/// An ASCII hexadecimal digit, either case.
pub open spec fn is_hex_digit(b: u8) -> bool {
    (0x30 <= b <= 0x39) || (0x41 <= b <= 0x46) || (0x61 <= b <= 0x66)
}

/// A root fingerprint: exactly 64 hexadecimal digits.
pub open spec fn root_ok(root: Seq<u8>) -> bool {
    root.len() == 64 && forall|i: int| 0 <= i < root.len() ==> is_hex_digit(#[trigger] root[i])
}

fn is_root_fingerprint(root: &str) -> (r: bool)
    ensures
        r == root_ok(root.spec_bytes()),
{
    let bytes = root.as_bytes();
    if bytes.len() != 64 {
        return false;
    }
    let mut i: usize = 0;
    while i < bytes.len()
        invariant
            0 <= i <= bytes@.len(),
            bytes@ == root.spec_bytes(),
            forall|k: int| 0 <= k < i ==> is_hex_digit(#[trigger] bytes@[k]),
        decreases bytes@.len() - i,
    {
        let b = bytes[i];
        if !((0x30 <= b && b <= 0x39) || (0x41 <= b && b <= 0x46) || (0x61 <= b && b <= 0x66)) {
            return false;
        }
        i = i + 1;
    }
    true
}

/// A record the store keeps: known spec and a well-formed root fingerprint.
pub open spec fn record_ok(record: StoredWorkspaceSnapshot) -> bool {
    record.spec@ == STORED_WORKSPACE_SNAPSHOT_SPEC@ && root_ok(encode_utf8(record.root_fingerprint@))
}

/// Checks a record (its snapshot is checked by the runtime).
///
/// # Errors
///
/// [`SqlitePersistenceError::InvalidWorkspaceSnapshot`] unless [`record_ok`].
pub fn validate_record(record: &StoredWorkspaceSnapshot) -> (r: Result<(), SqlitePersistenceError>)
    ensures
        r is Ok <==> record_ok(*record),
        r is Err ==> r == Err::<(), SqlitePersistenceError>(
            SqlitePersistenceError::InvalidWorkspaceSnapshot,
        ),
{
    if !str_equal(record.spec.as_str(), STORED_WORKSPACE_SNAPSHOT_SPEC) || !is_root_fingerprint(
        record.root_fingerprint.as_str(),
    ) {
        return Err(SqlitePersistenceError::InvalidWorkspaceSnapshot);
    }
    Ok(())
}

impl StoredWorkspaceSnapshot {
    /// Binds a snapshot to a session and the Workspace root.
    ///
    /// # Errors
    ///
    /// [`SqlitePersistenceError::InvalidWorkspaceSnapshot`] for a root
    /// fingerprint that is not 64 hexadecimal digits.
    pub fn new(
        session_id: u128,
        root_fingerprint: &str,
        revision: u64,
        parent_fingerprint: Option<String>,
        fingerprint: String,
        created_at_ms: u64,
    ) -> (r: Result<Self, SqlitePersistenceError>)
        ensures
            root_ok(root_fingerprint.spec_bytes()) ==> (r matches Ok(s) && {
                &&& s.spec@ == STORED_WORKSPACE_SNAPSHOT_SPEC@
                &&& s.session_id == session_id
                &&& s.root_fingerprint@ == root_fingerprint@
                &&& s.revision == revision
                &&& s.parent_fingerprint == parent_fingerprint
                &&& s.fingerprint == fingerprint
                &&& s.created_at_ms == created_at_ms
            }),
            !root_ok(root_fingerprint.spec_bytes()) ==> r == Err::<Self, SqlitePersistenceError>(
                SqlitePersistenceError::InvalidWorkspaceSnapshot,
            ),
    {
        if !is_root_fingerprint(root_fingerprint) {
            return Err(SqlitePersistenceError::InvalidWorkspaceSnapshot);
        }
        Ok(
            StoredWorkspaceSnapshot {
                spec: STORED_WORKSPACE_SNAPSHOT_SPEC.to_owned(),
                session_id,
                root_fingerprint: root_fingerprint.to_owned(),
                revision,
                parent_fingerprint,
                fingerprint,
                created_at_ms,
            },
        )
    }
}

/// Some row of the session has `revision`.
pub open spec fn has_revision(rows: Seq<WorkspaceSnapshotRow>, session_id: u128, revision: int) -> bool {
    exists|i: int| 0 <= i < rows.len() && rows[i].session_id == session_id && rows[i].revision == revision
}

/// Some row holds the fingerprint.
pub open spec fn has_fingerprint(rows: Seq<WorkspaceSnapshotRow>, fingerprint: Seq<char>) -> bool {
    exists|i: int| 0 <= i < rows.len() && rows[i].snapshot_fingerprint@ == fingerprint
}

/// Row `i` holds the session's latest revision.
pub open spec fn latest_at(rows: Seq<WorkspaceSnapshotRow>, session_id: u128, i: int) -> bool {
    &&& 0 <= i < rows.len()
    &&& rows[i].session_id == session_id
    &&& forall|j: int|
        0 <= j < rows.len() && #[trigger] rows[j].session_id == session_id ==> rows[j].revision
            <= rows[i].revision
}

/// The session has a row.
pub open spec fn has_session(rows: Seq<WorkspaceSnapshotRow>, session_id: u128) -> bool {
    exists|i: int| 0 <= i < rows.len() && rows[i].session_id == session_id
}

/// Finds the row of the session's latest revision.
pub fn latest_index(rows: &Vec<WorkspaceSnapshotRow>, session_id: u128) -> (r: Option<usize>)
    ensures
        match r {
            Some(i) => latest_at(rows@, session_id, i as int),
            None => !has_session(rows@, session_id),
        },
{
    let mut best: Option<usize> = None;
    let mut i: usize = 0;
    while i < rows.len()
        invariant
            0 <= i <= rows@.len(),
            match best {
                Some(b) => b < i && rows@[b as int].session_id == session_id && forall|j: int|
                    0 <= j < i && #[trigger] rows@[j].session_id == session_id ==> rows@[j].revision
                        <= rows@[b as int].revision,
                None => forall|j: int| 0 <= j < i ==> #[trigger] rows@[j].session_id != session_id,
            },
        decreases rows@.len() - i,
    {
        if rows[i].session_id == session_id {
            let take = match best {
                None => true,
                Some(b) => rows[i].revision > rows[b].revision,
            };
            if take {
                best = Some(i);
            }
        }
        i = i + 1;
    }
    best
}

fn find_revision(rows: &Vec<WorkspaceSnapshotRow>, session_id: u128, revision: i64) -> (r: bool)
    ensures
        r == has_revision(rows@, session_id, revision as int),
{
    let mut i: usize = 0;
    while i < rows.len()
        invariant
            0 <= i <= rows@.len(),
            forall|k: int|
                0 <= k < i ==> !(#[trigger] rows@[k].session_id == session_id && rows@[k].revision
                    == revision),
        decreases rows@.len() - i,
    {
        if rows[i].session_id == session_id && rows[i].revision == revision {
            return true;
        }
        i = i + 1;
    }
    false
}

pub(crate) fn find_fingerprint(rows: &Vec<WorkspaceSnapshotRow>, fingerprint: &str) -> (r: bool)
    ensures
        r == has_fingerprint(rows@, fingerprint@),
{
    let mut i: usize = 0;
    while i < rows.len()
        invariant
            0 <= i <= rows@.len(),
            forall|k: int| 0 <= k < i ==> #[trigger] rows@[k].snapshot_fingerprint@ != fingerprint@,
        decreases rows@.len() - i,
    {
        if str_equal(rows[i].snapshot_fingerprint.as_str(), fingerprint) {
            return true;
        }
        i = i + 1;
    }
    false
}

/// The row that stores `record`.
pub open spec fn stores(row: WorkspaceSnapshotRow, record: StoredWorkspaceSnapshot) -> bool {
    &&& row.session_id == record.session_id
    &&& row.revision == record.revision
    &&& row.root_fingerprint@ == record.root_fingerprint@
    &&& row.snapshot_fingerprint@ == record.fingerprint@
    &&& row.created_at_ms == record.created_at_ms
    &&& row.schema_version == 1
    &&& row.record == record
}

pub(crate) fn row_for(record: StoredWorkspaceSnapshot) -> (r: WorkspaceSnapshotRow)
    requires
        record.revision <= MAX_STORED,
        record.created_at_ms <= MAX_STORED,
    ensures
        stores(r, record),
{
    WorkspaceSnapshotRow {
        session_id: record.session_id,
        revision: record.revision as i64,
        root_fingerprint: record.root_fingerprint.clone(),
        snapshot_fingerprint: record.fingerprint.clone(),
        created_at_ms: record.created_at_ms as i64,
        schema_version: 1,
        record,
    }
}

/// Stores the first snapshot of a session.
///
/// # Errors
///
/// [`SqlitePersistenceError::InvalidWorkspaceSnapshot`] for a record that
/// breaks [`record_ok`], is not revision 1 without a parent, or has a time
/// beyond storage range; [`SqlitePersistenceError::WorkspaceSnapshotConflict`]
/// when the session already has its first snapshot or the fingerprint is
/// stored; the rows are then unchanged.
pub fn create_snapshot(rows: &mut Vec<WorkspaceSnapshotRow>, record: StoredWorkspaceSnapshot) -> (r:
    Result<(), SqlitePersistenceError>)
    ensures
        !record_ok(record) || record.revision != 1 || record.parent_fingerprint is Some
            || record.created_at_ms > MAX_STORED ==> r == Err::<(), SqlitePersistenceError>(
            SqlitePersistenceError::InvalidWorkspaceSnapshot,
        ),
        record_ok(record) && record.revision == 1 && record.parent_fingerprint is None
            && record.created_at_ms <= MAX_STORED ==> if has_revision(
            old(rows)@,
            record.session_id,
            1,
        ) || has_fingerprint(old(rows)@, record.fingerprint@) {
            r == Err::<(), SqlitePersistenceError>(SqlitePersistenceError::WorkspaceSnapshotConflict)
        } else {
            r is Ok
        },
        r is Err ==> final(rows)@ == old(rows)@,
        r is Ok ==> final(rows)@.len() == old(rows)@.len() + 1 && final(rows)@.drop_last() == old(
            rows,
        )@ && stores(final(rows)@.last(), record),
        chain_unique(old(rows)@) ==> chain_unique(final(rows)@),
{
    validate_record(&record)?;
    if record.revision != 1 || record.parent_fingerprint.is_some() || record.created_at_ms
        > MAX_STORED {
        return Err(SqlitePersistenceError::InvalidWorkspaceSnapshot);
    }
    if find_revision(rows, record.session_id, 1) || find_fingerprint(
        rows,
        record.fingerprint.as_str(),
    ) {
        return Err(SqlitePersistenceError::WorkspaceSnapshotConflict);
    }
    let ghost o = rows@;
    rows.push(row_for(record));
    proof {
        assert(rows@.drop_last() =~= o);
    }
    Ok(())
}

/// The successor names the previous revision and fingerprint.
pub open spec fn successor_ok(
    record: StoredWorkspaceSnapshot,
    previous_revision: u64,
    previous_fingerprint: Seq<char>,
) -> bool {
    &&& record.revision == if previous_revision < u64::MAX {
        (previous_revision + 1) as u64
    } else {
        u64::MAX
    }
    &&& record.parent_fingerprint matches Some(p) && p@ == previous_fingerprint
}

/// The session's latest stored snapshot is the one the successor was made from.
pub open spec fn extends_latest(
    latest: WorkspaceSnapshotRow,
    record: StoredWorkspaceSnapshot,
    previous_revision: u64,
    previous_fingerprint: Seq<char>,
) -> bool {
    &&& latest.revision == previous_revision
    &&& latest.snapshot_fingerprint@ == previous_fingerprint
    &&& latest.root_fingerprint@ == record.root_fingerprint@
}

/// No session holds one revision twice (the table's primary key).
pub open spec fn chain_unique(rows: Seq<WorkspaceSnapshotRow>) -> bool {
    forall|i: int, j: int|
        0 <= i < rows.len() && 0 <= j < rows.len() && i != j && #[trigger] rows[i].session_id
            == #[trigger] rows[j].session_id ==> rows[i].revision != rows[j].revision
}

/// `r` is what appending a checked successor answers, given the session's latest row.
pub open spec fn append_answer(
    r: Result<(), SqlitePersistenceError>,
    rows: Seq<WorkspaceSnapshotRow>,
    latest: WorkspaceSnapshotRow,
    record: StoredWorkspaceSnapshot,
    previous_revision: u64,
    previous_fingerprint: Seq<char>,
) -> bool {
    if latest.revision < 0 {
        r == Err::<(), SqlitePersistenceError>(SqlitePersistenceError::InvalidWorkspaceSnapshot)
    } else if !extends_latest(latest, record, previous_revision, previous_fingerprint) {
        r == Err::<(), SqlitePersistenceError>(SqlitePersistenceError::WorkspaceSnapshotConflict)
    } else if record.revision > MAX_STORED || record.created_at_ms > MAX_STORED {
        r == Err::<(), SqlitePersistenceError>(SqlitePersistenceError::InvalidWorkspaceSnapshot)
    } else if has_fingerprint(rows, record.fingerprint@) {
        r matches Err(SqlitePersistenceError::Sqlite(m)) && m@ == DUPLICATE_FINGERPRINT@
    } else {
        r is Ok
    }
}

/// Appends the successor of the session's latest snapshot.
///
/// # Errors
///
/// [`SqlitePersistenceError::InvalidWorkspaceSnapshot`] for a record that
/// breaks [`record_ok`] or [`successor_ok`], a negative stored revision, or a
/// value beyond storage range; [`SqlitePersistenceError::WorkspaceSnapshotConflict`]
/// when the session has no snapshot or its latest is not the one named; and a
/// storage error when the fingerprint is already stored. The rows are then
/// unchanged.
pub fn append_snapshot(
    rows: &mut Vec<WorkspaceSnapshotRow>,
    record: StoredWorkspaceSnapshot,
    previous_revision: u64,
    previous_fingerprint: &str,
) -> (r: Result<(), SqlitePersistenceError>)
    ensures
        !record_ok(record) || !successor_ok(record, previous_revision, previous_fingerprint@) ==> r
            == Err::<(), SqlitePersistenceError>(SqlitePersistenceError::InvalidWorkspaceSnapshot),
        record_ok(record) && successor_ok(record, previous_revision, previous_fingerprint@)
            && !has_session(old(rows)@, record.session_id) ==> r == Err::<
            (),
            SqlitePersistenceError,
        >(SqlitePersistenceError::WorkspaceSnapshotConflict),
        r is Err ==> final(rows)@ == old(rows)@,
        r is Ok ==> exists|i: int|
            latest_at(old(rows)@, record.session_id, i) && extends_latest(
                old(rows)@[i],
                record,
                previous_revision,
                previous_fingerprint@,
            ) && final(rows)@.len() == old(rows)@.len() + 1 && final(rows)@.drop_last() == old(
                rows,
            )@ && stores(final(rows)@.last(), record),
        chain_unique(old(rows)@) ==> chain_unique(final(rows)@),
        record_ok(record) && successor_ok(record, previous_revision, previous_fingerprint@)
            && chain_unique(old(rows)@) ==> forall|i: int|
            #[trigger] latest_at(old(rows)@, record.session_id, i) ==> append_answer(
                r,
                old(rows)@,
                old(rows)@[i],
                record,
                previous_revision,
                previous_fingerprint@,
            ),
{
    validate_record(&record)?;
    let parent_ok = match &record.parent_fingerprint {
        Some(p) => str_equal(p.as_str(), previous_fingerprint),
        None => false,
    };
    let next = if previous_revision < u64::MAX {
        previous_revision + 1
    } else {
        u64::MAX
    };
    if record.revision != next || !parent_ok {
        return Err(SqlitePersistenceError::InvalidWorkspaceSnapshot);
    }
    let latest = match latest_index(rows, record.session_id) {
        None => {
            return Err(SqlitePersistenceError::WorkspaceSnapshotConflict);
        },
        Some(i) => i,
    };
    let stored = &rows[latest];
    if stored.revision < 0 {
        return Err(SqlitePersistenceError::InvalidWorkspaceSnapshot);
    }
    if stored.revision as u64 != previous_revision || !str_equal(
        stored.snapshot_fingerprint.as_str(),
        previous_fingerprint,
    ) || !str_equal(stored.root_fingerprint.as_str(), record.root_fingerprint.as_str()) {
        return Err(SqlitePersistenceError::WorkspaceSnapshotConflict);
    }
    if record.revision > MAX_STORED || record.created_at_ms > MAX_STORED {
        return Err(SqlitePersistenceError::InvalidWorkspaceSnapshot);
    }
    if find_fingerprint(rows, record.fingerprint.as_str()) {
        return Err(SqlitePersistenceError::Sqlite(DUPLICATE_FINGERPRINT.to_owned()));
    }
    let ghost o = rows@;
    rows.push(row_for(record));
    proof {
        assert(rows@.drop_last() =~= o);
        assert(latest_at(o, record.session_id, latest as int));
    }
    Ok(())
}

/// What loading the session's latest snapshot from row `i` fails with, if anything.
pub open spec fn latest_error(row: WorkspaceSnapshotRow, session_id: u128) -> Option<SqlitePersistenceError> {
    if row.schema_version != 1 {
        Some(SqlitePersistenceError::UnsupportedWorkspaceSnapshotVersion(row.schema_version))
    } else if !record_ok(row.record) || !(row.record.session_id == session_id
        && row.record.revision as int == row.revision as int && row.record.root_fingerprint@
        == row.root_fingerprint@ && row.record.fingerprint@ == row.snapshot_fingerprint@
        && row.record.created_at_ms as int == row.created_at_ms as int) {
        Some(SqlitePersistenceError::InvalidWorkspaceSnapshot)
    } else {
        None
    }
}

/// Loads the session's latest snapshot, checking it against its columns.
///
/// # Errors
///
/// [`SqlitePersistenceError::UnsupportedWorkspaceSnapshotVersion`] for another
/// payload version, and [`SqlitePersistenceError::InvalidWorkspaceSnapshot`]
/// for a record that breaks [`record_ok`] or disagrees with its columns.
pub fn latest_snapshot(rows: &Vec<WorkspaceSnapshotRow>, session_id: u128) -> (r: Result<
    Option<StoredWorkspaceSnapshot>,
    SqlitePersistenceError,
>)
    ensures
        !has_session(rows@, session_id) ==> r == Ok::<
            Option<StoredWorkspaceSnapshot>,
            SqlitePersistenceError,
        >(None),
        has_session(rows@, session_id) ==> exists|i: int|
            latest_at(rows@, session_id, i) && match latest_error(rows@[i], session_id) {
                Some(e) => r == Err::<Option<StoredWorkspaceSnapshot>, SqlitePersistenceError>(e),
                None => r matches Ok(Some(s)) && s.spec@ == rows@[i].record.spec@ && s.session_id
                    == session_id && s.root_fingerprint@ == rows@[i].record.root_fingerprint@
                    && s.revision == rows@[i].record.revision && opt_text(s.parent_fingerprint)
                    == opt_text(rows@[i].record.parent_fingerprint) && s.fingerprint@
                    == rows@[i].record.fingerprint@ && s.created_at_ms
                    == rows@[i].record.created_at_ms,
            },
{
    let i = match latest_index(rows, session_id) {
        None => {
            return Ok(None);
        },
        Some(i) => i,
    };
    let row = &rows[i];
    if row.schema_version != 1 {
        return Err(SqlitePersistenceError::UnsupportedWorkspaceSnapshotVersion(row.schema_version));
    }
    validate_record(&row.record)?;
    let rec = &row.record;
    if !(rec.session_id == session_id && row.revision >= 0 && rec.revision == row.revision as u64
        && str_equal(rec.root_fingerprint.as_str(), row.root_fingerprint.as_str()) && str_equal(
        rec.fingerprint.as_str(),
        row.snapshot_fingerprint.as_str(),
    ) && row.created_at_ms >= 0 && rec.created_at_ms == row.created_at_ms as u64) {
        return Err(SqlitePersistenceError::InvalidWorkspaceSnapshot);
    }
    Ok(
        Some(
            StoredWorkspaceSnapshot {
                spec: rec.spec.clone(),
                session_id: rec.session_id,
                root_fingerprint: rec.root_fingerprint.clone(),
                revision: rec.revision,
                parent_fingerprint: match &rec.parent_fingerprint {
                    Some(p) => Some(p.clone()),
                    None => None,
                },
                fingerprint: rec.fingerprint.clone(),
                created_at_ms: rec.created_at_ms,
            },
        ),
    )
}

/// The characters of an optional text.
pub open spec fn opt_text(s: Option<String>) -> Option<Seq<char>> {
    match s {
        Some(t) => Some(t@),
        None => None,
    }
}

/// A successor that was appended is what the session's latest snapshot then
/// reads back: its row is the one latest row, and it loads without error.
pub proof fn law_appended_snapshot_is_latest(
    before: Seq<WorkspaceSnapshotRow>,
    after: Seq<WorkspaceSnapshotRow>,
    record: StoredWorkspaceSnapshot,
    previous_revision: u64,
    previous_fingerprint: Seq<char>,
)
    requires
        chain_unique(before),
        record_ok(record),
        successor_ok(record, previous_revision, previous_fingerprint),
        exists|i: int|
            latest_at(before, record.session_id, i) && extends_latest(
                before[i],
                record,
                previous_revision,
                previous_fingerprint,
            ),
        after.len() == before.len() + 1,
        after.drop_last() == before,
        stores(after.last(), record),
    ensures
        chain_unique(after),
        latest_at(after, record.session_id, after.len() - 1),
        forall|i: int| #[trigger] latest_at(after, record.session_id, i) ==> i == after.len() - 1,
        latest_error(after.last(), record.session_id) is None,
{
    let k = choose|i: int|
        latest_at(before, record.session_id, i) && extends_latest(
            before[i],
            record,
            previous_revision,
            previous_fingerprint,
        );
    let n = before.len() as int;
    assert forall|j: int| 0 <= j < n implies #[trigger] after[j] == before[j] by {
        assert(after.drop_last()[j] == after[j]);
    }
    assert(after[n] == after.last());
    assert forall|j: int|
        0 <= j < after.len() && #[trigger] after[j].session_id == record.session_id implies after[j].revision
        <= after[n].revision by {
        if j < n {
            assert(before[j].session_id == record.session_id);
            assert(before[j].revision <= before[k].revision);
        }
    }
    assert forall|i: int, j: int|
        0 <= i < after.len() && 0 <= j < after.len() && i != j && #[trigger] after[i].session_id
            == #[trigger] after[j].session_id implies after[i].revision != after[j].revision by {
        if i < n && j < n {
            assert(before[i].session_id == before[j].session_id);
        } else if i < n {
            assert(before[i].session_id == record.session_id);
            assert(before[i].revision <= before[k].revision);
        } else {
            assert(before[j].session_id == record.session_id);
            assert(before[j].revision <= before[k].revision);
        }
    }
}

} // verus!
