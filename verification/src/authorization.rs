//! Decisions of the Authorization Grant store: grants issued once, looked up
//! by identity or as a Goal's newest active unexpired grant, revoked once,
//! and listed newest first.
//!
//! A grant is read for its identity, Goal, plan revision, Workspace,
//! lifetime and the runtime's fingerprint of it; the runtime checks the rest.
//! Rows hold the grant as its payload opens; sealing and opening the payload
//! at rest is the host's.
use crate::error::SqlitePersistenceError;
use crate::paging::{self, ListingKey};
use crate::records::{optional_i64, to_i64};
use crate::text::str_equal;
use vstd::prelude::*;

verus! {

/// Largest number of grants one page lists.
pub const MAX_GRANT_PAGE: usize = 200;

/// Payload version of rows written before at-rest encryption.
pub const LEGACY_PLAINTEXT_SCHEMA_VERSION: u32 = 1;

/// Payload version of rows that current writers seal.
pub const ENCRYPTED_SCHEMA_VERSION: u32 = 2;

/// What the store reads of a grant.
#[derive(Debug, Clone, PartialEq, Eq)]
pub struct GrantRecord {
    pub id: u128,
    pub goal_id: u128,
    pub plan_revision: u64,
    pub workspace_fingerprint: String,
    pub issued_at_ms: u64,
    pub expires_at_ms: Option<u64>,
    pub revoked_at_ms: Option<u64>,
    /// The runtime's fingerprint of the grant.
    pub fingerprint: String,
}

/// One row of the grant table: its indexed columns beside the opened grant.
#[derive(Debug, Clone, PartialEq, Eq)]
pub struct GrantRow {
    pub grant_id: u128,
    pub goal_id: u128,
    pub plan_revision: i64,
    pub workspace_fingerprint: String,
    pub status: String,
    pub issued_at_ms: i64,
    pub expires_at_ms: Option<i64>,
    pub revoked_at_ms: Option<i64>,
    pub fingerprint: String,
    pub schema_version: u32,
    pub grant: GrantRecord,
}

/// The mathematical content of a grant.
pub open spec fn grant_view(g: GrantRecord) -> (
    u128,
    u128,
    u64,
    Seq<char>,
    u64,
    Option<u64>,
    Option<u64>,
    Seq<char>,
) {
    (
        g.id,
        g.goal_id,
        g.plan_revision,
        g.workspace_fingerprint@,
        g.issued_at_ms,
        g.expires_at_ms,
        g.revoked_at_ms,
        g.fingerprint@,
    )
}

fn copy_grant(g: &GrantRecord, revoked_at_ms: Option<u64>) -> (r: GrantRecord)
    ensures
        grant_view(r) == grant_view(GrantRecord { revoked_at_ms, ..*g }),
{
    GrantRecord {
        id: g.id,
        goal_id: g.goal_id,
        plan_revision: g.plan_revision,
        workspace_fingerprint: g.workspace_fingerprint.clone(),
        issued_at_ms: g.issued_at_ms,
        expires_at_ms: g.expires_at_ms,
        revoked_at_ms,
        fingerprint: g.fingerprint.clone(),
    }
}

/// The stored status name of a grant: revoked once it has a revocation time.
pub open spec fn status_text(revoked_at_ms: Option<u64>) -> Seq<char> {
    if revoked_at_ms is Some {
        "revoked"@
    } else {
        "active"@
    }
}

fn status_name(revoked_at_ms: Option<u64>) -> (r: &'static str)
    ensures
        r@ == status_text(revoked_at_ms),
{
    proof {
        reveal_strlit("revoked");
        reveal_strlit("active");
    }
    if revoked_at_ms.is_some() {
        "revoked"
    } else {
        "active"
    }
}

/// The optional time fits storage and equals the stored column.
pub open spec fn same_optional(value: Option<u64>, column: Option<i64>) -> bool {
    match value {
        Some(v) => v <= i64::MAX && column == Some(v as i64),
        None => column is None,
    }
}

/// The row's columns agree with its grant.
pub open spec fn grant_metadata_ok(row: GrantRow) -> bool {
    let g = row.grant;
    &&& g.id == row.grant_id
    &&& g.goal_id == row.goal_id
    &&& g.plan_revision <= i64::MAX
    &&& g.plan_revision as int == row.plan_revision as int
    &&& g.workspace_fingerprint@ == row.workspace_fingerprint@
    &&& row.status@ == status_text(g.revoked_at_ms)
    &&& g.issued_at_ms <= i64::MAX
    &&& g.issued_at_ms as int == row.issued_at_ms as int
    &&& same_optional(g.expires_at_ms, row.expires_at_ms)
    &&& same_optional(g.revoked_at_ms, row.revoked_at_ms)
    &&& g.fingerprint@ == row.fingerprint@
}

/// What loading the grant of a row fails with, if anything.
pub open spec fn grant_row_error(row: GrantRow) -> Option<SqlitePersistenceError> {
    if row.schema_version != LEGACY_PLAINTEXT_SCHEMA_VERSION && row.schema_version
        != ENCRYPTED_SCHEMA_VERSION {
        Some(SqlitePersistenceError::UnsupportedAuthorizationGrantVersion(row.schema_version))
    } else if !grant_metadata_ok(row) {
        Some(SqlitePersistenceError::InvalidAuthorizationGrant)
    } else {
        None
    }
}

fn same_optional_time(value: Option<u64>, column: Option<i64>) -> (r: bool)
    ensures
        r == same_optional(value, column),
{
    match (value, column) {
        (Some(v), Some(c)) => v <= i64::MAX as u64 && v as i64 == c,
        (None, None) => true,
        _ => false,
    }
}

/// Loads the grant of a row, checking it against the row's columns.
///
/// # Errors
///
/// [`SqlitePersistenceError::UnsupportedAuthorizationGrantVersion`] for an
/// unknown payload version, and
/// [`SqlitePersistenceError::InvalidAuthorizationGrant`] when the grant
/// disagrees with its columns.
pub fn decode_grant(row: &GrantRow) -> (r: Result<GrantRecord, SqlitePersistenceError>)
    ensures
        match grant_row_error(*row) {
            Some(e) => r == Err::<GrantRecord, SqlitePersistenceError>(e),
            None => r matches Ok(g) && grant_view(g) == grant_view(row.grant),
        },
{
    if row.schema_version != LEGACY_PLAINTEXT_SCHEMA_VERSION && row.schema_version
        != ENCRYPTED_SCHEMA_VERSION {
        return Err(SqlitePersistenceError::UnsupportedAuthorizationGrantVersion(row.schema_version));
    }
    let g = &row.grant;
    let revision = to_i64(g.plan_revision, SqlitePersistenceError::InvalidAuthorizationGrant)?;
    let issued = to_i64(g.issued_at_ms, SqlitePersistenceError::InvalidAuthorizationGrant)?;
    if g.id != row.grant_id || g.goal_id != row.goal_id || revision != row.plan_revision
        || !str_equal(g.workspace_fingerprint.as_str(), row.workspace_fingerprint.as_str())
        || !str_equal(row.status.as_str(), status_name(g.revoked_at_ms)) || issued
        != row.issued_at_ms || !same_optional_time(g.expires_at_ms, row.expires_at_ms)
        || !same_optional_time(g.revoked_at_ms, row.revoked_at_ms) || !str_equal(
        g.fingerprint.as_str(),
        row.fingerprint.as_str(),
    ) {
        return Err(SqlitePersistenceError::InvalidAuthorizationGrant);
    }
    Ok(copy_grant(g, g.revoked_at_ms))
}

/// Some row holds the grant identifier, or the fingerprint.
pub open spec fn conflicts(rows: Seq<GrantRow>, grant: GrantRecord) -> bool {
    exists|i: int|
        0 <= i < rows.len() && (rows[i].grant_id == grant.id || rows[i].fingerprint@
            == grant.fingerprint@)
}

/// The row that stores a newly issued grant.
pub open spec fn issued_row(row: GrantRow, grant: GrantRecord) -> bool {
    &&& row.grant_id == grant.id
    &&& row.goal_id == grant.goal_id
    &&& row.plan_revision as int == grant.plan_revision as int
    &&& row.workspace_fingerprint@ == grant.workspace_fingerprint@
    &&& row.status@ == "active"@
    &&& row.issued_at_ms as int == grant.issued_at_ms as int
    &&& same_optional(grant.expires_at_ms, row.expires_at_ms)
    &&& row.revoked_at_ms is None
    &&& row.fingerprint@ == grant.fingerprint@
    &&& row.schema_version == ENCRYPTED_SCHEMA_VERSION
    &&& grant_view(row.grant) == grant_view(grant)
}

/// Issues a grant exactly once.
///
/// # Errors
///
/// [`SqlitePersistenceError::InvalidAuthorizationGrant`] for a grant already
/// revoked, for a plan revision of zero (plans are numbered from one), or
/// with a time or revision beyond storage range;
/// [`SqlitePersistenceError::AuthorizationGrantConflict`] when its identity or
/// fingerprint is stored. The rows are then unchanged.
pub fn issue_grant(rows: &mut Vec<GrantRow>, grant: &GrantRecord) -> (r: Result<
    (),
    SqlitePersistenceError,
>)
    ensures
        grant.revoked_at_ms is Some || grant.plan_revision == 0 || grant.plan_revision > i64::MAX
            || grant.issued_at_ms
            > i64::MAX || (grant.expires_at_ms matches Some(e) && e > i64::MAX) ==> r == Err::<
            (),
            SqlitePersistenceError,
        >(SqlitePersistenceError::InvalidAuthorizationGrant),
        !(grant.revoked_at_ms is Some || grant.plan_revision == 0 || grant.plan_revision > i64::MAX
            || grant.issued_at_ms
            > i64::MAX || (grant.expires_at_ms matches Some(e) && e > i64::MAX)) ==> if conflicts(
            old(rows)@,
            *grant,
        ) {
            r == Err::<(), SqlitePersistenceError>(SqlitePersistenceError::AuthorizationGrantConflict)
        } else {
            r is Ok
        },
        r is Err ==> final(rows)@ == old(rows)@,
        r is Ok ==> final(rows)@.len() == old(rows)@.len() + 1 && final(rows)@.drop_last() == old(
            rows,
        )@ && issued_row(final(rows)@.last(), *grant),
{
    if grant.revoked_at_ms.is_some() || grant.plan_revision == 0 {
        return Err(SqlitePersistenceError::InvalidAuthorizationGrant);
    }
    let revision = to_i64(grant.plan_revision, SqlitePersistenceError::InvalidAuthorizationGrant)?;
    let issued = to_i64(grant.issued_at_ms, SqlitePersistenceError::InvalidAuthorizationGrant)?;
    let expires = optional_i64(grant.expires_at_ms, SqlitePersistenceError::InvalidAuthorizationGrant)?;
    let mut i: usize = 0;
    while i < rows.len()
        invariant
            0 <= i <= rows@.len(),
            grant.revoked_at_ms is None,
            0 < grant.plan_revision <= i64::MAX,
            grant.issued_at_ms <= i64::MAX,
            !(grant.expires_at_ms matches Some(e) && e > i64::MAX),
            forall|j: int| 0 <= j < i ==> #[trigger] rows@[j].grant_id != grant.id,
            forall|j: int| 0 <= j < i ==> #[trigger] rows@[j].fingerprint@ != grant.fingerprint@,
        decreases rows@.len() - i,
    {
        let same_id = rows[i].grant_id == grant.id;
        let same_fingerprint = str_equal(rows[i].fingerprint.as_str(), grant.fingerprint.as_str());
        if same_id || same_fingerprint {
            return Err(SqlitePersistenceError::AuthorizationGrantConflict);
        }
        proof {
            assert(rows@[i as int].fingerprint@ != grant.fingerprint@);
        }
        i = i + 1;
    }
    proof {
        reveal_strlit("active");
    }
    let ghost o = rows@;
    rows.push(
        GrantRow {
            grant_id: grant.id,
            goal_id: grant.goal_id,
            plan_revision: revision,
            workspace_fingerprint: grant.workspace_fingerprint.clone(),
            status: "active".to_owned(),
            issued_at_ms: issued,
            expires_at_ms: expires,
            revoked_at_ms: None,
            fingerprint: grant.fingerprint.clone(),
            schema_version: ENCRYPTED_SCHEMA_VERSION,
            grant: copy_grant(grant, None),
        },
    );
    proof {
        assert(rows@.drop_last() =~= o);
    }
    Ok(())
}

/// Row `i` is the first one of the grant identifier.
pub open spec fn first_grant_row(rows: Seq<GrantRow>, id: u128, i: int) -> bool {
    &&& 0 <= i < rows.len()
    &&& rows[i].grant_id == id
    &&& forall|j: int| 0 <= j < i ==> #[trigger] rows[j].grant_id != id
}

/// Some row holds the grant identifier.
pub open spec fn has_grant_id(rows: Seq<GrantRow>, id: u128) -> bool {
    exists|i: int| 0 <= i < rows.len() && rows[i].grant_id == id
}

fn find_grant_row(rows: &Vec<GrantRow>, id: u128) -> (r: Option<usize>)
    ensures
        match r {
            Some(i) => first_grant_row(rows@, id, i as int),
            None => !has_grant_id(rows@, id),
        },
{
    let mut i: usize = 0;
    while i < rows.len()
        invariant
            0 <= i <= rows@.len(),
            forall|j: int| 0 <= j < i ==> #[trigger] rows@[j].grant_id != id,
        decreases rows@.len() - i,
    {
        if rows[i].grant_id == id {
            return Some(i);
        }
        i = i + 1;
    }
    None
}

/// Loads a grant by identity.
///
/// # Errors
///
/// The errors of [`decode_grant`] for its row.
pub fn get_grant(rows: &Vec<GrantRow>, id: u128) -> (r: Result<
    Option<GrantRecord>,
    SqlitePersistenceError,
>)
    ensures
        !has_grant_id(rows@, id) ==> r == Ok::<Option<GrantRecord>, SqlitePersistenceError>(None),
        has_grant_id(rows@, id) ==> exists|i: int|
            first_grant_row(rows@, id, i) && match grant_row_error(rows@[i]) {
                Some(e) => r == Err::<Option<GrantRecord>, SqlitePersistenceError>(e),
                None => r matches Ok(Some(g)) && grant_view(g) == grant_view(rows@[i].grant),
            },
{
    match find_grant_row(rows, id) {
        None => Ok(None),
        Some(i) => {
            proof {
                assert(first_grant_row(rows@, id, i as int));
            }
            match decode_grant(&rows[i]) {
                Ok(g) => Ok(Some(g)),
                Err(e) => Err(e),
            }
        },
    }
}

/// What a listing orders a row by: issue time, then grant identifier.
pub open spec fn grant_key(row: GrantRow) -> ListingKey {
    (row.issued_at_ms, row.grant_id)
}

/// The row is listed for the Goal; with `active_at`, only while active and
/// unexpired at that time.
pub open spec fn selected(row: GrantRow, goal_id: u128, active_at: Option<i64>) -> bool {
    &&& row.goal_id == goal_id
    &&& match active_at {
        Some(now) => row.status@ == "active"@ && match row.expires_at_ms {
            Some(e) => e > now,
            None => true,
        },
        None => true,
    }
}

/// `cands` lists, in table order, every selected row.
pub open spec fn selection(
    rows: Seq<GrantRow>,
    goal_id: u128,
    active_at: Option<i64>,
    cands: Seq<usize>,
) -> bool {
    &&& forall|a: int, b: int| 0 <= a < b < cands.len() ==> #[trigger] cands[a] < #[trigger] cands[b]
    &&& forall|k: int|
        0 <= k < cands.len() ==> #[trigger] cands[k] < rows.len() && selected(
            rows[cands[k] as int],
            goal_id,
            active_at,
        )
    &&& forall|j: usize|
        j < rows.len() && selected(rows[j as int], goal_id, active_at) ==> #[trigger] cands.contains(
            j,
        )
}

/// The listing keys of the selected rows.
pub open spec fn selection_keys(rows: Seq<GrantRow>, cands: Seq<usize>) -> Seq<ListingKey> {
    cands.map_values(|j: usize| grant_key(rows[j as int]))
}

/// No two rows hold one grant (the table's primary key).
pub open spec fn distinct_grants(rows: Seq<GrantRow>) -> bool {
    forall|i: int, j: int|
        0 <= i < rows.len() && 0 <= j < rows.len() && i != j ==> #[trigger] rows[i].grant_id
            != #[trigger] rows[j].grant_id
}

fn is_selected(row: &GrantRow, goal_id: u128, active_at: Option<i64>) -> (r: bool)
    ensures
        r == selected(*row, goal_id, active_at),
{
    proof {
        reveal_strlit("active");
    }
    if row.goal_id != goal_id {
        return false;
    }
    match active_at {
        None => true,
        Some(now) => str_equal(row.status.as_str(), "active") && match row.expires_at_ms {
            Some(e) => e > now,
            None => true,
        },
    }
}

fn select_rows(rows: &Vec<GrantRow>, goal_id: u128, active_at: Option<i64>, limit: usize) -> (r: (
    Vec<usize>,
    Vec<usize>,
))
    ensures
        selection(rows@, goal_id, active_at, r.0@),
        forall|m: int| 0 <= m < r.1@.len() ==> #[trigger] r.1@[m] < r.0@.len(),
        r.1@.len() <= limit,
        distinct_grants(rows@) ==> paging::newest_page(
            selection_keys(rows@, r.0@),
            limit as nat,
            r.1@,
        ),
{
    let mut cands: Vec<usize> = Vec::new();
    let mut keys: Vec<ListingKey> = Vec::new();
    let mut i: usize = 0;
    while i < rows.len()
        invariant
            0 <= i <= rows@.len(),
            forall|a: int, b: int|
                0 <= a < b < cands@.len() ==> #[trigger] cands@[a] < #[trigger] cands@[b],
            forall|k: int|
                0 <= k < cands@.len() ==> #[trigger] cands@[k] < i && selected(
                    rows@[cands@[k] as int],
                    goal_id,
                    active_at,
                ),
            forall|j: usize|
                j < i && selected(rows@[j as int], goal_id, active_at) ==> #[trigger] cands@.contains(
                    j,
                ),
            keys@ == selection_keys(rows@, cands@),
        decreases rows@.len() - i,
    {
        if is_selected(&rows[i], goal_id, active_at) {
            let ghost before = cands@;
            cands.push(i);
            keys.push((rows[i].issued_at_ms, rows[i].grant_id));
            proof {
                assert(keys@ =~= selection_keys(rows@, cands@));
                assert forall|j: usize|
                    j < i + 1 && selected(rows@[j as int], goal_id, active_at) implies #[trigger] cands@.contains(
                    j,
                ) by {
                    if j == i {
                        assert(cands@[before.len() as int] == j);
                    } else {
                        assert(before.contains(j));
                        let k = choose|k: int| 0 <= k < before.len() && before[k] == j;
                        assert(cands@[k] == j);
                    }
                }
            }
        }
        i = i + 1;
    }
    proof {
        if distinct_grants(rows@) {
            assert forall|a: int, b: int|
                0 <= a < keys@.len() && 0 <= b < keys@.len() && a != b implies #[trigger] keys@[a].1
                != #[trigger] keys@[b].1 by {
                assert(cands@[a] != cands@[b]) by {
                    if a < b {
                        assert(cands@[a] < cands@[b]);
                    } else {
                        assert(cands@[b] < cands@[a]);
                    }
                }
                assert(rows@[cands@[a] as int].grant_id != rows@[cands@[b] as int].grant_id);
            }
        }
    }
    let picked = paging::select_newest(&keys, limit);
    (cands, picked)
}

/// Loads the Goal's newest grant that is active and unexpired at `now_ms`:
/// latest issue first, and the larger grant identifier first among equal
/// issue times.
///
/// # Errors
///
/// [`SqlitePersistenceError::InvalidAuthorizationGrant`] for a time beyond
/// storage range, and the errors of [`decode_grant`] for the chosen row.
pub fn active_grant_for_goal(rows: &Vec<GrantRow>, goal_id: u128, now_ms: u64) -> (r: Result<
    Option<GrantRecord>,
    SqlitePersistenceError,
>)
    ensures
        now_ms > i64::MAX ==> r == Err::<Option<GrantRecord>, SqlitePersistenceError>(
            SqlitePersistenceError::InvalidAuthorizationGrant,
        ),
        now_ms <= i64::MAX && distinct_grants(rows@) ==> exists|cands: Seq<usize>, picked: Seq<usize>|
            selection(rows@, goal_id, Some(now_ms as i64), cands) && paging::newest_page(
                selection_keys(rows@, cands),
                1,
                picked,
            ) && if picked.len() == 0 {
                r == Ok::<Option<GrantRecord>, SqlitePersistenceError>(None)
            } else {
                match grant_row_error(rows@[cands[picked[0] as int] as int]) {
                    Some(e) => r == Err::<Option<GrantRecord>, SqlitePersistenceError>(e),
                    None => r matches Ok(Some(g)) && grant_view(g) == grant_view(
                        rows@[cands[picked[0] as int] as int].grant,
                    ),
                }
            },
{
    let now = to_i64(now_ms, SqlitePersistenceError::InvalidAuthorizationGrant)?;
    let (cands, picked) = select_rows(rows, goal_id, Some(now), 1);
    if picked.len() == 0 {
        return Ok(None);
    }
    match decode_grant(&rows[cands[picked[0]]]) {
        Ok(g) => Ok(Some(g)),
        Err(e) => Err(e),
    }
}

/// A requested page size brought into `1..=200`.
pub open spec fn page_size(limit: usize) -> nat {
    if limit < 1 {
        1
    } else if limit > MAX_GRANT_PAGE {
        MAX_GRANT_PAGE as nat
    } else {
        limit as nat
    }
}

/// Lists the Goal's grants newest first; `limit` is brought into `1..=200`.
///
/// # Errors
///
/// The error of the first listed row that fails to load.
pub fn list_grants_for_goal(rows: &Vec<GrantRow>, goal_id: u128, limit: usize) -> (r: Result<
    Vec<GrantRecord>,
    SqlitePersistenceError,
>)
    ensures
        distinct_grants(rows@) ==> exists|cands: Seq<usize>, picked: Seq<usize>|
            #![trigger selection(rows@, goal_id, None, cands), paging::newest_page(selection_keys(rows@, cands), page_size(limit), picked)]
            selection(rows@, goal_id, None, cands) && paging::newest_page(
                selection_keys(rows@, cands),
                page_size(limit),
                picked,
            ) && match r {
                Ok(listed) => listed@.len() == picked.len() && forall|k: int|
                    0 <= k < picked.len() ==> grant_row_error(
                        rows@[cands[#[trigger] picked[k] as int] as int],
                    ) is None && grant_view(listed@[k]) == grant_view(
                        rows@[cands[picked[k] as int] as int].grant,
                    ),
                Err(e) => exists|k: int|
                    0 <= k < picked.len() && grant_row_error(rows@[cands[picked[k] as int] as int])
                        == Some(e) && forall|m: int|
                        0 <= m < k ==> grant_row_error(
                            rows@[cands[#[trigger] picked[m] as int] as int],
                        ) is None,
            },
{
    let page = if limit < 1 {
        1
    } else if limit > MAX_GRANT_PAGE {
        MAX_GRANT_PAGE
    } else {
        limit
    };
    let (cands, picked) = select_rows(rows, goal_id, None, page);
    let mut listed: Vec<GrantRecord> = Vec::new();
    let mut k: usize = 0;
    while k < picked.len()
        invariant
            page as nat == page_size(limit),
            selection(rows@, goal_id, None, cands@),
            distinct_grants(rows@) ==> paging::newest_page(
                selection_keys(rows@, cands@),
                page as nat,
                picked@,
            ),
            forall|m: int| 0 <= m < picked@.len() ==> #[trigger] picked@[m] < cands@.len(),
            0 <= k <= picked@.len(),
            listed@.len() == k,
            forall|m: int|
                0 <= m < k ==> grant_row_error(rows@[cands@[#[trigger] picked@[m] as int] as int])
                    is None && grant_view(listed@[m]) == grant_view(
                    rows@[cands@[picked@[m] as int] as int].grant,
                ),
        decreases picked@.len() - k,
    {
        match decode_grant(&rows[cands[picked[k]]]) {
            Ok(g) => {
                let ghost prior = listed@;
                listed.push(g);
                proof {
                    assert forall|m: int| 0 <= m < k + 1 implies grant_row_error(
                        rows@[cands@[#[trigger] picked@[m] as int] as int],
                    ) is None && grant_view(listed@[m]) == grant_view(
                        rows@[cands@[picked@[m] as int] as int].grant,
                    ) by {
                        if m < k {
                            assert(listed@[m] == prior[m]);
                        }
                    }
                }
            },
            Err(e) => {
                proof {
                    if distinct_grants(rows@) {
                        assert(selection(rows@, goal_id, None, cands@) && paging::newest_page(
                            selection_keys(rows@, cands@),
                            page_size(limit),
                            picked@,
                        ));
                        assert(exists|k2: int|
                            0 <= k2 < picked@.len() && grant_row_error(
                                rows@[cands@[picked@[k2] as int] as int],
                            ) == Some(e) && forall|m: int|
                                0 <= m < k2 ==> grant_row_error(
                                    rows@[cands@[#[trigger] picked@[m] as int] as int],
                                ) is None);
                    }
                }
                return Err(e);
            },
        }
        k = k + 1;
    }
    proof {
        if distinct_grants(rows@) {
            assert(selection(rows@, goal_id, None, cands@) && paging::newest_page(
                selection_keys(rows@, cands@),
                page_size(limit),
                picked@,
            ));
        }
    }
    Ok(listed)
}

/// Starts revoking a grant at `now_ms`: the stored grant with that revocation
/// time, for the runtime to check and fingerprint anew.
///
/// # Errors
///
/// The errors of [`get_grant`];
/// [`SqlitePersistenceError::AuthorizationGrantNotFound`] for an unknown
/// grant and [`SqlitePersistenceError::AuthorizationGrantAlreadyRevoked`] for
/// one already revoked.
pub fn begin_revoke(rows: &Vec<GrantRow>, id: u128, now_ms: u64) -> (r: Result<
    GrantRecord,
    SqlitePersistenceError,
>)
    ensures
        !has_grant_id(rows@, id) ==> r == Err::<GrantRecord, SqlitePersistenceError>(
            SqlitePersistenceError::AuthorizationGrantNotFound,
        ),
        has_grant_id(rows@, id) ==> exists|i: int|
            first_grant_row(rows@, id, i) && match grant_row_error(rows@[i]) {
                Some(e) => r == Err::<GrantRecord, SqlitePersistenceError>(e),
                None => if rows@[i].grant.revoked_at_ms is Some {
                    r == Err::<GrantRecord, SqlitePersistenceError>(
                        SqlitePersistenceError::AuthorizationGrantAlreadyRevoked,
                    )
                } else {
                    r matches Ok(g) && grant_view(g) == grant_view(
                        GrantRecord { revoked_at_ms: Some(now_ms), ..rows@[i].grant },
                    )
                },
            },
{
    let stored = match get_grant(rows, id) {
        Err(e) => {
            return Err(e);
        },
        Ok(None) => {
            return Err(SqlitePersistenceError::AuthorizationGrantNotFound);
        },
        Ok(Some(g)) => g,
    };
    if stored.revoked_at_ms.is_some() {
        return Err(SqlitePersistenceError::AuthorizationGrantAlreadyRevoked);
    }
    Ok(copy_grant(&stored, Some(now_ms)))
}

/// The row after its grant was revoked.
pub open spec fn revoked_row(old_row: GrantRow, new_row: GrantRow, revoked: GrantRecord) -> bool {
    &&& new_row.grant_id == old_row.grant_id
    &&& new_row.goal_id == old_row.goal_id
    &&& new_row.plan_revision == old_row.plan_revision
    &&& new_row.workspace_fingerprint@ == old_row.workspace_fingerprint@
    &&& new_row.status@ == "revoked"@
    &&& new_row.issued_at_ms == old_row.issued_at_ms
    &&& new_row.expires_at_ms == old_row.expires_at_ms
    &&& same_optional(revoked.revoked_at_ms, new_row.revoked_at_ms)
    &&& new_row.fingerprint@ == revoked.fingerprint@
    &&& new_row.schema_version == ENCRYPTED_SCHEMA_VERSION
    &&& grant_view(new_row.grant) == grant_view(revoked)
}

/// Writes a revocation that [`begin_revoke`] started: the grant's row, while
/// still active and unrevoked, takes the revoked grant, its time and its new
/// fingerprint; otherwise nothing changes.
///
/// # Errors
///
/// [`SqlitePersistenceError::InvalidAuthorizationGrant`] for a grant without
/// a revocation time or with one beyond storage range; the rows are then
/// unchanged.
pub fn finish_revoke(rows: &mut Vec<GrantRow>, revoked: &GrantRecord) -> (r: Result<
    (),
    SqlitePersistenceError,
>)
    ensures
        !(revoked.revoked_at_ms matches Some(t) && t <= i64::MAX) ==> r == Err::<
            (),
            SqlitePersistenceError,
        >(SqlitePersistenceError::InvalidAuthorizationGrant),
        r is Err ==> final(rows)@ == old(rows)@,
        (revoked.revoked_at_ms matches Some(t) && t <= i64::MAX) ==> r is Ok && if exists|i: int|
            first_grant_row(old(rows)@, revoked.id, i) && old(rows)@[i].status@ == "active"@
                && old(rows)@[i].revoked_at_ms is None {
            exists|i: int|
                first_grant_row(old(rows)@, revoked.id, i) && final(rows)@.len() == old(
                    rows,
                )@.len() && revoked_row(old(rows)@[i], final(rows)@[i], *revoked) && forall|
                    j: int,
                |
                    0 <= j < old(rows)@.len() && j != i ==> #[trigger] final(rows)@[j] == old(
                        rows,
                    )@[j]
        } else {
            final(rows)@ == old(rows)@
        },
{
    let now = match revoked.revoked_at_ms {
        Some(t) => to_i64(t, SqlitePersistenceError::InvalidAuthorizationGrant)?,
        None => {
            return Err(SqlitePersistenceError::InvalidAuthorizationGrant);
        },
    };
    proof {
        reveal_strlit("active");
        reveal_strlit("revoked");
    }
    let i = match find_grant_row(rows, revoked.id) {
        None => {
            return Ok(());
        },
        Some(i) => i,
    };
    proof {
        assert(first_grant_row(rows@, revoked.id, i as int));
        assert forall|k: int| #[trigger] first_grant_row(rows@, revoked.id, k) implies k == i by {
            if k < i {
                assert(rows@[k].grant_id != revoked.id);
            } else if i < k {
                assert(rows@[i as int].grant_id != revoked.id);
            }
        }
    }
    if !str_equal(rows[i].status.as_str(), "active") || rows[i].revoked_at_ms.is_some() {
        return Ok(());
    }
    let row = GrantRow {
        grant_id: rows[i].grant_id,
        goal_id: rows[i].goal_id,
        plan_revision: rows[i].plan_revision,
        workspace_fingerprint: rows[i].workspace_fingerprint.clone(),
        status: "revoked".to_owned(),
        issued_at_ms: rows[i].issued_at_ms,
        expires_at_ms: rows[i].expires_at_ms,
        revoked_at_ms: Some(now),
        fingerprint: revoked.fingerprint.clone(),
        schema_version: ENCRYPTED_SCHEMA_VERSION,
        grant: copy_grant(revoked, revoked.revoked_at_ms),
    };
    rows.set(i, row);
    Ok(())
}

/// A grant is not the Goal's active one once it is revoked, or once its
/// expiry has come.
pub proof fn law_revoked_or_expired_grant_is_not_active(row: GrantRow, goal_id: u128, now: i64)
    requires
        row.status@ == "revoked"@ || (row.expires_at_ms matches Some(e) && e <= now),
    ensures
        !selected(row, goal_id, Some(now)),
{
    reveal_strlit("revoked");
    reveal_strlit("active");
    assert("revoked"@ != "active"@) by {
        assert("revoked"@[0] != "active"@[0]);
    }
}

} // verus!
