//! Rules of the persistent context cache: which entries it admits, what a
//! lookup answers, and which rows it purges or evicts to stay within its limits.
//!
//! The cache table is modelled by its indexed columns ([`ContextCacheRow`]);
//! the sealed payload itself is opened and sealed by the host. An entry's own
//! statement of its identity is a [`ContextCacheEntryMeta`].
use crate::capabilities::{
    lemma_encode_injective, lemma_lex_irreflexive, lemma_lex_total, lemma_lex_transitive, str_less,
    string_less,
};
use crate::error::SqlitePersistenceError;
use crate::records::{ContextCacheMetrics, ContextCachePolicy};
use crate::text::{blank, is_blank, str_equal};
use vstd::prelude::*;

verus! {

/// Spec identifier of stored cache entries.
pub const STORED_CONTEXT_CACHE_SPEC: &'static str = "nimora.stored-context-cache/1";

/// Spec identifier of cache metrics.
pub const CONTEXT_CACHE_METRICS_SPEC: &'static str = "nimora.context-cache-metrics/1";

/// Schema version of cache rows; rows of any other version are dropped on read.
pub const CONTEXT_CACHE_SCHEMA_VERSION: u32 = 2;

/// How sensitive the content of a cached context is, from least to most.
#[derive(Debug, Clone, Copy, PartialEq, Eq, Structural)]
pub enum DataClassification {
    Public,
    Internal,
    Personal,
    Sensitive,
    Restricted,
}

/// Position of a classification from least (0) to most (4) sensitive.
pub open spec fn classification_rank(value: DataClassification) -> int {
    match value {
        DataClassification::Public => 0,
        DataClassification::Internal => 1,
        DataClassification::Personal => 2,
        DataClassification::Sensitive => 3,
        DataClassification::Restricted => 4,
    }
}

/// Stored name of a classification.
pub open spec fn classification_label(value: DataClassification) -> Seq<char> {
    match value {
        DataClassification::Public => "public"@,
        DataClassification::Internal => "internal"@,
        DataClassification::Personal => "personal"@,
        DataClassification::Sensitive => "sensitive"@,
        DataClassification::Restricted => "restricted"@,
    }
}

/// The stored name of a classification.
pub fn classification_name(value: DataClassification) -> (r: &'static str)
    ensures
        r@ == classification_label(value),
{
    match value {
        DataClassification::Public => "public",
        DataClassification::Internal => "internal",
        DataClassification::Personal => "personal",
        DataClassification::Sensitive => "sensitive",
        DataClassification::Restricted => "restricted",
    }
}

/// Law: classifications are ordered Public < Internal < Personal <
/// Sensitive < Restricted, from least to most sensitive; a value exceeds a
/// maximum exactly when it comes strictly later in that order.
pub proof fn law_classification_order()
    ensures
        classification_rank(DataClassification::Public) < classification_rank(
            DataClassification::Internal,
        ),
        classification_rank(DataClassification::Internal) < classification_rank(
            DataClassification::Personal,
        ),
        classification_rank(DataClassification::Personal) < classification_rank(
            DataClassification::Sensitive,
        ),
        classification_rank(DataClassification::Sensitive) < classification_rank(
            DataClassification::Restricted,
        ),
        forall|a: DataClassification, b: DataClassification|
            #[trigger] classification_rank(a) == #[trigger] classification_rank(b) ==> a == b,
{
}

/// Whether `value` is more sensitive than `maximum`.
pub fn classification_exceeds(value: DataClassification, maximum: DataClassification) -> (r: bool)
    ensures
        r == (classification_rank(value) > classification_rank(maximum)),
        value == maximum ==> !r,
        value == DataClassification::Restricted ==> (r <==> maximum != DataClassification::Restricted),
        value == DataClassification::Public ==> !r,
        maximum == DataClassification::Public ==> (r <==> value != DataClassification::Public),
        maximum == DataClassification::Restricted ==> !r,
{
    classification_index(value) > classification_index(maximum)
}

fn classification_index(value: DataClassification) -> (r: u8)
    ensures
        r == classification_rank(value),
{
    match value {
        DataClassification::Public => 0,
        DataClassification::Internal => 1,
        DataClassification::Personal => 2,
        DataClassification::Sensitive => 3,
        DataClassification::Restricted => 4,
    }
}

/// What a cached entry states about itself.
#[derive(Debug, Clone, PartialEq, Eq)]
pub struct ContextCacheEntryMeta {
    pub spec: String,
    pub cache_key: String,
    pub provider_id: String,
    pub model: String,
    pub workspace_fingerprint: String,
    pub plan_revision: u64,
    pub data_classification: DataClassification,
    pub created_at_ms: u64,
    pub expires_at_ms: u64,
}

/// The indexed columns of one cache row, as storage holds them.
#[derive(Debug, Clone, PartialEq, Eq)]
pub struct ContextCacheRow {
    pub cache_key: String,
    pub provider_id: String,
    pub model: String,
    pub workspace_fingerprint: String,
    pub plan_revision: i64,
    pub data_classification: String,
    pub created_at_ms: i64,
    pub expires_at_ms: i64,
    pub last_accessed_at_ms: i64,
    pub payload_bytes: i64,
    pub schema_version: u32,
}

/// An entry that the cache can hold: its spec is known and it expires after
/// it was created.
pub open spec fn entry_ok(entry: ContextCacheEntryMeta) -> bool {
    entry.spec@ == STORED_CONTEXT_CACHE_SPEC@ && entry.created_at_ms < entry.expires_at_ms
}

/// Checks an entry's own statement (its compacted context is checked by the host).
///
/// # Errors
///
/// [`SqlitePersistenceError::InvalidContextCache`] for an unknown spec or an
/// entry that expires no later than it was created.
pub fn validate_entry(entry: &ContextCacheEntryMeta) -> (r: Result<(), SqlitePersistenceError>)
    ensures
        entry_ok(*entry) ==> r is Ok,
        !entry_ok(*entry) ==> r == Err::<(), SqlitePersistenceError>(
            SqlitePersistenceError::InvalidContextCache,
        ),
{
    if !str_equal(entry.spec.as_str(), STORED_CONTEXT_CACHE_SPEC) || entry.expires_at_ms
        <= entry.created_at_ms {
        return Err(SqlitePersistenceError::InvalidContextCache);
    }
    Ok(())
}

/// Checks that an entry may be cached at `now_ms`, before it is sealed.
///
/// # Errors
///
/// [`SqlitePersistenceError::InvalidContextCache`] for an entry that breaks
/// [`entry_ok`] or has already expired.
pub fn validate_put(entry: &ContextCacheEntryMeta, now_ms: u64) -> (r: Result<
    (),
    SqlitePersistenceError,
>)
    ensures
        entry_ok(*entry) && now_ms < entry.expires_at_ms ==> r is Ok,
        !(entry_ok(*entry) && now_ms < entry.expires_at_ms) ==> r == Err::<
            (),
            SqlitePersistenceError,
        >(SqlitePersistenceError::InvalidContextCache),
{
    validate_entry(entry)?;
    if entry.expires_at_ms <= now_ms {
        return Err(SqlitePersistenceError::InvalidContextCache);
    }
    Ok(())
}

/// The later of two instants.
pub open spec fn later(a: u64, b: u64) -> u64 {
    if a >= b {
        a
    } else {
        b
    }
}

/// Largest value storage holds (`i64::MAX`).
pub open spec fn storable(v: int) -> bool {
    0 <= v <= i64::MAX
}

/// A sealed entry that fits the cache and whose columns storage can hold.
pub open spec fn put_row_ok(
    entry: ContextCacheEntryMeta,
    now_ms: u64,
    payload_len: usize,
    policy: ContextCachePolicy,
) -> bool {
    &&& payload_len <= policy.max_bytes
    &&& storable(now_ms as int)
    &&& storable(entry.plan_revision as int)
    &&& storable(entry.created_at_ms as int)
    &&& storable(entry.expires_at_ms as int)
    &&& storable(payload_len as int)
}

/// Builds the row of a sealed entry: it is last accessed at the later of
/// `now_ms` and its creation.
///
/// # Errors
///
/// [`SqlitePersistenceError::InvalidContextCache`] when the sealed payload
/// exceeds the byte limit or a column exceeds storage range.
pub fn row_for_put(
    entry: &ContextCacheEntryMeta,
    now_ms: u64,
    payload_len: usize,
    policy: ContextCachePolicy,
) -> (r: Result<ContextCacheRow, SqlitePersistenceError>)
    ensures
        put_row_ok(*entry, now_ms, payload_len, policy) ==> r is Ok,
        !put_row_ok(*entry, now_ms, payload_len, policy) ==> r == Err::<
            ContextCacheRow,
            SqlitePersistenceError,
        >(SqlitePersistenceError::InvalidContextCache),
        r matches Ok(row) ==> {
            &&& row.cache_key@ == entry.cache_key@
            &&& row.provider_id@ == entry.provider_id@
            &&& row.model@ == entry.model@
            &&& row.workspace_fingerprint@ == entry.workspace_fingerprint@
            &&& row.plan_revision == entry.plan_revision
            &&& row.data_classification@ == classification_label(entry.data_classification)
            &&& row.created_at_ms == entry.created_at_ms
            &&& row.expires_at_ms == entry.expires_at_ms
            &&& row.last_accessed_at_ms == later(now_ms, entry.created_at_ms)
            &&& row.payload_bytes == payload_len
            &&& row.schema_version == CONTEXT_CACHE_SCHEMA_VERSION
        },
        r matches Ok(row) ==> (entry_ok(*entry) && entry.plan_revision > 0 && payload_len > 0
            ==> row_ok(row)),
{
    let limit: i64 = 9_223_372_036_854_775_807;
    if payload_len > policy.max_bytes || now_ms > limit as u64 || entry.plan_revision > limit as u64
        || entry.created_at_ms > limit as u64 || entry.expires_at_ms > limit as u64 || payload_len
        as u64 > limit as u64 {
        return Err(SqlitePersistenceError::InvalidContextCache);
    }
    let accessed = if now_ms >= entry.created_at_ms {
        now_ms
    } else {
        entry.created_at_ms
    };
    Ok(ContextCacheRow {
        cache_key: entry.cache_key.clone(),
        provider_id: entry.provider_id.clone(),
        model: entry.model.clone(),
        workspace_fingerprint: entry.workspace_fingerprint.clone(),
        plan_revision: entry.plan_revision as i64,
        data_classification: classification_name(entry.data_classification).to_owned(),
        created_at_ms: entry.created_at_ms as i64,
        expires_at_ms: entry.expires_at_ms as i64,
        last_accessed_at_ms: accessed as i64,
        payload_bytes: payload_len as i64,
        schema_version: CONTEXT_CACHE_SCHEMA_VERSION,
    })
}

/// First step of a lookup, taken on the stored row before its payload is opened.
#[derive(Debug, Clone, Copy, PartialEq, Eq, Structural)]
pub enum LookupStart {
    /// No row holds the key.
    Miss,
    /// The row has another schema version: delete it and answer a miss.
    Evict,
    /// Open the payload with these authenticated columns.
    Open { plan_revision: u64, created_at_ms: u64, expires_at_ms: u64 },
}

/// Starts a lookup of `cache_key` for `workspace_fingerprint` on its stored row.
///
/// # Errors
///
/// [`SqlitePersistenceError::InvalidContextCache`] for a blank key or
/// fingerprint, or a row whose revision or timestamps are negative.
pub fn begin_lookup(
    cache_key: &str,
    workspace_fingerprint: &str,
    row: Option<&ContextCacheRow>,
) -> (r: Result<LookupStart, SqlitePersistenceError>)
    ensures
        blank(cache_key@) || blank(workspace_fingerprint@) ==> r == Err::<
            LookupStart,
            SqlitePersistenceError,
        >(SqlitePersistenceError::InvalidContextCache),
        !blank(cache_key@) && !blank(workspace_fingerprint@) ==> match row {
            None => r == Ok::<LookupStart, SqlitePersistenceError>(LookupStart::Miss),
            Some(row) => if row.schema_version != CONTEXT_CACHE_SCHEMA_VERSION {
                r == Ok::<LookupStart, SqlitePersistenceError>(LookupStart::Evict)
            } else if row.plan_revision < 0 || row.created_at_ms < 0 || row.expires_at_ms < 0 {
                r == Err::<LookupStart, SqlitePersistenceError>(
                    SqlitePersistenceError::InvalidContextCache,
                )
            } else {
                r == Ok::<LookupStart, SqlitePersistenceError>(
                    LookupStart::Open {
                        plan_revision: row.plan_revision as u64,
                        created_at_ms: row.created_at_ms as u64,
                        expires_at_ms: row.expires_at_ms as u64,
                    },
                )
            },
        },
{
    if is_blank(cache_key) || is_blank(workspace_fingerprint) {
        return Err(SqlitePersistenceError::InvalidContextCache);
    }
    match row {
        None => Ok(LookupStart::Miss),
        Some(row) => {
            if row.schema_version != CONTEXT_CACHE_SCHEMA_VERSION {
                return Ok(LookupStart::Evict);
            }
            if row.plan_revision < 0 || row.created_at_ms < 0 || row.expires_at_ms < 0 {
                return Err(SqlitePersistenceError::InvalidContextCache);
            }
            Ok(
                LookupStart::Open {
                    plan_revision: row.plan_revision as u64,
                    created_at_ms: row.created_at_ms as u64,
                    expires_at_ms: row.expires_at_ms as u64,
                },
            )
        },
    }
}

/// What a lookup answers once the payload is open.
#[derive(Debug, Clone, Copy, PartialEq, Eq, Structural)]
pub enum LookupOutcome {
    /// The entry has expired: delete the row and answer a miss.
    Evict,
    /// The entry belongs to another Workspace or is more sensitive than
    /// allowed: answer a miss and keep the row.
    Withheld,
    /// Answer the entry and record the access at `touch_at_ms`.
    Hit { touch_at_ms: u64 },
}

/// The opened entry states exactly what its row indexes.
pub open spec fn entry_matches_row(
    entry: ContextCacheEntryMeta,
    row: ContextCacheRow,
    cache_key: Seq<char>,
    payload_len: int,
) -> bool {
    &&& entry.cache_key@ == cache_key
    &&& entry.provider_id@ == row.provider_id@
    &&& entry.model@ == row.model@
    &&& entry.workspace_fingerprint@ == row.workspace_fingerprint@
    &&& entry.plan_revision as int == row.plan_revision as int
    &&& classification_label(entry.data_classification) == row.data_classification@
    &&& entry.created_at_ms as int == row.created_at_ms as int
    &&& entry.expires_at_ms as int == row.expires_at_ms as int
    &&& payload_len == row.payload_bytes as int
}

/// Finishes a lookup of `cache_key` on a row whose payload opened to `entry`.
///
/// # Errors
///
/// [`SqlitePersistenceError::InvalidContextCache`] when the entry breaks
/// [`entry_ok`], the payload is too long for storage, the entry disagrees
/// with its row, or the access time exceeds storage range.
pub fn finish_lookup(
    cache_key: &str,
    workspace_fingerprint: &str,
    maximum_data_classification: DataClassification,
    now_ms: u64,
    row: &ContextCacheRow,
    entry: &ContextCacheEntryMeta,
    payload_len: usize,
) -> (r: Result<LookupOutcome, SqlitePersistenceError>)
    ensures
        !entry_ok(*entry) || !storable(payload_len as int) || !entry_matches_row(
            *entry,
            *row,
            cache_key@,
            payload_len as int,
        ) ==> r == Err::<LookupOutcome, SqlitePersistenceError>(
            SqlitePersistenceError::InvalidContextCache,
        ),
        entry_ok(*entry) && storable(payload_len as int) && entry_matches_row(
            *entry,
            *row,
            cache_key@,
            payload_len as int,
        ) ==> {
            if entry.expires_at_ms <= now_ms {
                r == Ok::<LookupOutcome, SqlitePersistenceError>(LookupOutcome::Evict)
            } else if entry.workspace_fingerprint@ != workspace_fingerprint@ || classification_rank(
                entry.data_classification,
            ) > classification_rank(maximum_data_classification) {
                r == Ok::<LookupOutcome, SqlitePersistenceError>(LookupOutcome::Withheld)
            } else if storable(later(now_ms, entry.created_at_ms) as int) {
                r == Ok::<LookupOutcome, SqlitePersistenceError>(
                    LookupOutcome::Hit { touch_at_ms: later(now_ms, entry.created_at_ms) },
                )
            } else {
                r == Err::<LookupOutcome, SqlitePersistenceError>(
                    SqlitePersistenceError::InvalidContextCache,
                )
            }
        },
{
    validate_entry(entry)?;
    let limit: i64 = 9_223_372_036_854_775_807;
    if payload_len as u64 > limit as u64 {
        return Err(SqlitePersistenceError::InvalidContextCache);
    }
    let name = classification_name(entry.data_classification);
    if !str_equal(entry.cache_key.as_str(), cache_key) || !str_equal(
        entry.provider_id.as_str(),
        row.provider_id.as_str(),
    ) || !str_equal(entry.model.as_str(), row.model.as_str()) || !str_equal(
        entry.workspace_fingerprint.as_str(),
        row.workspace_fingerprint.as_str(),
    ) || row.plan_revision < 0 || entry.plan_revision != row.plan_revision as u64 || !str_equal(
        name,
        row.data_classification.as_str(),
    ) || row.created_at_ms < 0 || entry.created_at_ms != row.created_at_ms as u64
        || row.expires_at_ms < 0 || entry.expires_at_ms != row.expires_at_ms as u64
        || payload_len as i64 != row.payload_bytes {
        return Err(SqlitePersistenceError::InvalidContextCache);
    }
    if entry.expires_at_ms <= now_ms {
        return Ok(LookupOutcome::Evict);
    }
    if !str_equal(entry.workspace_fingerprint.as_str(), workspace_fingerprint)
        || classification_exceeds(entry.data_classification, maximum_data_classification) {
        return Ok(LookupOutcome::Withheld);
    }
    let touch = if now_ms >= entry.created_at_ms {
        now_ms
    } else {
        entry.created_at_ms
    };
    if touch > limit as u64 {
        return Err(SqlitePersistenceError::InvalidContextCache);
    }
    Ok(LookupOutcome::Hit { touch_at_ms: touch })
}

// ----------------------------------------------------------------------------
// The table and its limits
// ----------------------------------------------------------------------------

/// A row as the table's checks keep it.
pub open spec fn row_ok(row: ContextCacheRow) -> bool {
    &&& row.plan_revision > 0
    &&& 0 <= row.created_at_ms < row.expires_at_ms
    &&& row.created_at_ms <= row.last_accessed_at_ms
    &&& row.payload_bytes > 0
}

/// Every row passes the table's checks.
pub open spec fn all_rows_ok(rows: Seq<ContextCacheRow>) -> bool {
    forall|i: int| 0 <= i < rows.len() ==> row_ok(#[trigger] rows[i])
}

/// No two rows share a cache key.
pub open spec fn distinct_keys(rows: Seq<ContextCacheRow>) -> bool {
    forall|i: int, j: int|
        0 <= i < rows.len() && 0 <= j < rows.len() && i != j ==> #[trigger] rows[i].cache_key@
            != #[trigger] rows[j].cache_key@
}

/// The sum of the rows' payload sizes.
pub open spec fn stored_bytes(rows: Seq<ContextCacheRow>) -> int
    decreases rows.len(),
{
    if rows.len() == 0 {
        0
    } else {
        stored_bytes(rows.drop_last()) + rows.last().payload_bytes
    }
}

/// The rows fit both the entry and the byte limit.
pub open spec fn within_limits(rows: Seq<ContextCacheRow>, policy: ContextCachePolicy) -> bool {
    rows.len() <= policy.max_entries && stored_bytes(rows) <= policy.max_bytes
}

/// `a` was used before `b`: earlier access, then smaller key byte-wise.
pub open spec fn accessed_before(a: ContextCacheRow, b: ContextCacheRow) -> bool {
    a.last_accessed_at_ms < b.last_accessed_at_ms || (a.last_accessed_at_ms
        == b.last_accessed_at_ms && str_less(a.cache_key@, b.cache_key@))
}

/// Index of the least recently used row.
pub open spec fn least_recent(rows: Seq<ContextCacheRow>) -> int
    decreases rows.len(),
{
    if rows.len() <= 1 {
        0
    } else {
        let j = least_recent(rows.drop_last());
        if accessed_before(rows.last(), rows[j]) {
            rows.len() - 1
        } else {
            j
        }
    }
}

/// The rows left after deleting least recently used rows, one at a time,
/// until the rest fits the limits.
pub open spec fn evict_to_limits(rows: Seq<ContextCacheRow>, policy: ContextCachePolicy) -> Seq<
    ContextCacheRow,
>
    decreases rows.len(),
{
    if rows.len() == 0 || within_limits(rows, policy) {
        rows
    } else {
        proof {
            lemma_least_recent_in_range(rows);
        }
        evict_to_limits(rows.remove(least_recent(rows)), policy)
    }
}

/// The least recently used row of a non-empty table is one of its rows.
pub proof fn lemma_least_recent_in_range(rows: Seq<ContextCacheRow>)
    requires
        rows.len() > 0,
    ensures
        0 <= least_recent(rows) < rows.len(),
    decreases rows.len(),
{
    if rows.len() > 1 {
        lemma_least_recent_in_range(rows.drop_last());
    }
}

/// The policy's limits can be compared with storage's signed counts.
pub open spec fn limits_storable(policy: ContextCachePolicy) -> bool {
    policy.max_entries <= i64::MAX && policy.max_bytes <= i64::MAX
}

fn before(a: &ContextCacheRow, b: &ContextCacheRow) -> (r: bool)
    ensures
        r == accessed_before(*a, *b),
{
    a.last_accessed_at_ms < b.last_accessed_at_ms || (a.last_accessed_at_ms
        == b.last_accessed_at_ms && string_less(a.cache_key.as_str(), b.cache_key.as_str()))
}

fn stored_bytes_of(rows: &Vec<ContextCacheRow>) -> (r: i128)
    ensures
        r == stored_bytes(rows@),
{
    let mut total: i128 = 0;
    let mut i: usize = 0;
    while i < rows.len()
        invariant
            0 <= i <= rows@.len(),
            total == stored_bytes(rows@.take(i as int)),
            -(i as int) * 0x8000_0000_0000_0000 <= total <= (i as int) * 0x8000_0000_0000_0000,
        decreases rows@.len() - i,
    {
        proof {
            assert(rows@.take(i + 1).drop_last() =~= rows@.take(i as int));
        }
        total = total + rows[i].payload_bytes as i128;
        i = i + 1;
    }
    assert(rows@.take(rows@.len() as int) =~= rows@);
    total
}

fn least_recent_index(rows: &Vec<ContextCacheRow>) -> (r: usize)
    requires
        rows@.len() > 0,
    ensures
        r == least_recent(rows@),
        r < rows@.len(),
{
    let mut best: usize = 0;
    let mut i: usize = 1;
    assert(rows@.take(1).len() == 1);
    while i < rows.len()
        invariant
            1 <= i <= rows@.len(),
            best < i,
            best == least_recent(rows@.take(i as int)),
        decreases rows@.len() - i,
    {
        proof {
            let t = rows@.take(i + 1);
            assert(t.drop_last() =~= rows@.take(i as int));
            assert(t.last() == rows@[i as int]);
            assert(t[best as int] == rows@[best as int]);
        }
        if before(&rows[i], &rows[best]) {
            best = i;
        }
        i = i + 1;
    }
    assert(rows@.take(rows@.len() as int) =~= rows@);
    best
}

/// Deletes least recently used rows until the table fits the policy.
///
/// # Errors
///
/// [`SqlitePersistenceError::InvalidContextCache`] when a limit exceeds what
/// storage can compare; the rows are then left unchanged.
pub fn enforce_limits(rows: &mut Vec<ContextCacheRow>, policy: ContextCachePolicy) -> (r: Result<
    (),
    SqlitePersistenceError,
>)
    ensures
        limits_storable(policy) ==> r is Ok && final(rows)@ == evict_to_limits(old(rows)@, policy),
        !limits_storable(policy) ==> r == Err::<(), SqlitePersistenceError>(
            SqlitePersistenceError::InvalidContextCache,
        ) && final(rows)@ == old(rows)@,
{
    let limit: i64 = 9_223_372_036_854_775_807;
    if policy.max_entries as u64 > limit as u64 || policy.max_bytes as u64 > limit as u64 {
        return Err(SqlitePersistenceError::InvalidContextCache);
    }
    let ghost start = rows@;
    loop
        invariant
            evict_to_limits(rows@, policy) == evict_to_limits(start, policy),
        ensures
            rows@ == evict_to_limits(start, policy),
        decreases rows@.len(),
    {
        let bytes = stored_bytes_of(rows);
        if rows.len() <= policy.max_entries && bytes <= policy.max_bytes as i128 {
            break;
        }
        if rows.len() == 0 {
            assert(stored_bytes(rows@) == 0);
            break;
        }
        let i = least_recent_index(rows);
        rows.remove(i);
    }
    Ok(())
}

proof fn lemma_before_transitive(a: ContextCacheRow, b: ContextCacheRow, c: ContextCacheRow)
    requires
        accessed_before(a, b),
        accessed_before(b, c),
    ensures
        accessed_before(a, c),
{
    if a.last_accessed_at_ms == b.last_accessed_at_ms && b.last_accessed_at_ms
        == c.last_accessed_at_ms {
        lemma_lex_transitive(
            vstd::utf8::encode_utf8(a.cache_key@),
            vstd::utf8::encode_utf8(b.cache_key@),
            vstd::utf8::encode_utf8(c.cache_key@),
        );
    }
}

proof fn lemma_before_total(a: ContextCacheRow, b: ContextCacheRow)
    requires
        a.cache_key@ != b.cache_key@,
    ensures
        accessed_before(a, b) || accessed_before(b, a),
{
    lemma_encode_injective(a.cache_key@, b.cache_key@);
    lemma_lex_total(
        vstd::utf8::encode_utf8(a.cache_key@),
        vstd::utf8::encode_utf8(b.cache_key@),
    );
}

proof fn lemma_least_recent_first(rows: Seq<ContextCacheRow>)
    requires
        rows.len() > 0,
        distinct_keys(rows),
    ensures
        0 <= least_recent(rows) < rows.len(),
        forall|i: int|
            0 <= i < rows.len() && i != least_recent(rows) ==> accessed_before(
                rows[least_recent(rows)],
                #[trigger] rows[i],
            ),
    decreases rows.len(),
{
    if rows.len() > 1 {
        let front = rows.drop_last();
        lemma_least_recent_first(front);
        let j = least_recent(front);
        let n = rows.len() - 1;
        if accessed_before(rows.last(), rows[j]) {
            assert forall|i: int| 0 <= i < rows.len() && i != n implies accessed_before(
                rows[n],
                #[trigger] rows[i],
            ) by {
                if i != j {
                    assert(front[i] == rows[i]);
                    lemma_before_transitive(rows[n], rows[j], rows[i]);
                }
            }
        } else {
            lemma_before_total(rows[j], rows[n]);
            assert forall|i: int| 0 <= i < rows.len() && i != j implies accessed_before(
                rows[j],
                #[trigger] rows[i],
            ) by {
                if i != n {
                    assert(front[i] == rows[i]);
                }
            }
        }
    }
}

proof fn lemma_remove_keeps_distinct(rows: Seq<ContextCacheRow>, m: int)
    requires
        0 <= m < rows.len(),
        distinct_keys(rows),
    ensures
        distinct_keys(rows.remove(m)),
        forall|t: int|
            0 <= t < rows.len() - 1 ==> #[trigger] rows.remove(m)[t] == rows[if t < m {
                t
            } else {
                t + 1
            }],
{
    let rest = rows.remove(m);
    assert forall|t: int| 0 <= t < rows.len() - 1 implies #[trigger] rest[t] == rows[if t < m {
        t
    } else {
        t + 1
    }] by {}
    assert forall|i: int, j: int|
        0 <= i < rest.len() && 0 <= j < rest.len() && i != j implies #[trigger] rest[i].cache_key@
        != #[trigger] rest[j].cache_key@ by {
        let a = if i < m {
            i
        } else {
            i + 1
        };
        let b = if j < m {
            j
        } else {
            j + 1
        };
        assert(rest[i] == rows[a]);
        assert(rest[j] == rows[b]);
    }
}

proof fn lemma_evict_subset(rows: Seq<ContextCacheRow>, policy: ContextCachePolicy)
    ensures
        forall|k: ContextCacheRow| #[trigger]
            evict_to_limits(rows, policy).contains(k) ==> rows.contains(k),
    decreases rows.len(),
{
    if !(rows.len() == 0 || within_limits(rows, policy)) {
        lemma_least_recent_in_range(rows);
        let m = least_recent(rows);
        let rest = rows.remove(m);
        lemma_evict_subset(rest, policy);
        assert(evict_to_limits(rows, policy) == evict_to_limits(rest, policy));
        assert forall|k: ContextCacheRow| #[trigger]
            evict_to_limits(rows, policy).contains(k) implies rows.contains(k) by {
            assert(rest.contains(k));
            let t = choose|t: int| 0 <= t < rest.len() && rest[t] == k;
            if t < m {
                assert(rows[t] == k);
            } else {
                assert(rows[t + 1] == k);
            }
        }
    }
}

/// Whatever the rows, what eviction leaves fits the policy's limits.
pub proof fn law_eviction_fits_limits(rows: Seq<ContextCacheRow>, policy: ContextCachePolicy)
    ensures
        within_limits(evict_to_limits(rows, policy), policy),
    decreases rows.len(),
{
    if rows.len() == 0 {
        assert(stored_bytes(rows) == 0);
    } else if !within_limits(rows, policy) {
        lemma_least_recent_in_range(rows);
        law_eviction_fits_limits(rows.remove(least_recent(rows)), policy);
    }
}

/// Rows that already fit the limits are all kept.
pub proof fn law_no_eviction_within_limits(rows: Seq<ContextCacheRow>, policy: ContextCachePolicy)
    requires
        within_limits(rows, policy),
    ensures
        evict_to_limits(rows, policy) == rows,
{
}

/// Every evicted row was used before every row that stays: eviction is least
/// recently used first.
pub proof fn law_eviction_spares_recent(rows: Seq<ContextCacheRow>, policy: ContextCachePolicy)
    requires
        distinct_keys(rows),
    ensures
        forall|x: ContextCacheRow, k: ContextCacheRow|
            #![trigger rows.contains(x), evict_to_limits(rows, policy).contains(k)]
            rows.contains(x) && !evict_to_limits(rows, policy).contains(x) && evict_to_limits(
                rows,
                policy,
            ).contains(k) ==> accessed_before(x, k),
    decreases rows.len(),
{
    if !(rows.len() == 0 || within_limits(rows, policy)) {
        lemma_least_recent_in_range(rows);
        let m = least_recent(rows);
        let rest = rows.remove(m);
        lemma_least_recent_first(rows);
        lemma_remove_keeps_distinct(rows, m);
        law_eviction_spares_recent(rest, policy);
        lemma_evict_subset(rest, policy);
        let kept = evict_to_limits(rows, policy);
        assert(kept == evict_to_limits(rest, policy));
        assert forall|x: ContextCacheRow, k: ContextCacheRow|
            rows.contains(x) && !kept.contains(x) && kept.contains(k) implies accessed_before(
            x,
            k,
        ) by {
            assert(rest.contains(k));
            let tk = choose|t: int| 0 <= t < rest.len() && rest[t] == k;
            let ik = if tk < m {
                tk
            } else {
                tk + 1
            };
            assert(rows[ik] == k);
            let ix = choose|i: int| 0 <= i < rows.len() && rows[i] == x;
            if ix == m {
                assert(ik != m);
            } else {
                let tx = if ix < m {
                    ix
                } else {
                    ix - 1
                };
                assert(rest[tx] == x);
                assert(rest.contains(x));
            }
        }
    }
}

// ----------------------------------------------------------------------------
// Writes, purges and metrics
// ----------------------------------------------------------------------------

/// The rows that have not expired at `now_ms`.
pub open spec fn unexpired(rows: Seq<ContextCacheRow>, now_ms: u64) -> Seq<ContextCacheRow> {
    rows.filter(|row: ContextCacheRow| row.expires_at_ms > now_ms)
}

/// Deletes every row whose expiry is at or before `now_ms` and counts them.
///
/// # Errors
///
/// [`SqlitePersistenceError::InvalidContextCache`] when `now_ms` exceeds
/// storage range; the rows are then left unchanged.
pub fn purge_expired_rows(rows: &mut Vec<ContextCacheRow>, now_ms: u64) -> (r: Result<
    usize,
    SqlitePersistenceError,
>)
    ensures
        storable(now_ms as int) ==> {
            &&& final(rows)@ == unexpired(old(rows)@, now_ms)
            &&& final(rows)@.len() <= old(rows)@.len()
            &&& r == Ok::<usize, SqlitePersistenceError>(
                (old(rows)@.len() - final(rows)@.len()) as usize,
            )
        },
        !storable(now_ms as int) ==> r == Err::<usize, SqlitePersistenceError>(
            SqlitePersistenceError::InvalidContextCache,
        ) && final(rows)@ == old(rows)@,
{
    let limit: i64 = 9_223_372_036_854_775_807;
    if now_ms > limit as u64 {
        return Err(SqlitePersistenceError::InvalidContextCache);
    }
    let now = now_ms as i64;
    let before_len = rows.len();
    let ghost o = rows@;
    let ghost mut j: int = 0;
    let mut i: usize = 0;
    while i < rows.len()
        invariant
            0 <= j <= o.len(),
            now == now_ms,
            rows@ == unexpired(o.take(j), now_ms) + o.skip(j),
            i == unexpired(o.take(j), now_ms).len(),
        decreases rows@.len() - i,
    {
        proof {
            reveal_with_fuel(Seq::filter, 1);
            assert(o.take(j + 1).drop_last() =~= o.take(j));
            assert(o.skip(j)[0] == o[j]);
            assert(rows@[i as int] == o[j]);
        }
        if rows[i].expires_at_ms <= now {
            rows.remove(i);
            proof {
                assert(rows@ =~= unexpired(o.take(j + 1), now_ms) + o.skip(j + 1));
            }
        } else {
            i = i + 1;
            proof {
                assert(rows@ =~= unexpired(o.take(j + 1), now_ms) + o.skip(j + 1));
            }
        }
        proof {
            j = j + 1;
        }
    }
    proof {
        assert(o.take(j) =~= o) by {
            assert(o.skip(j).len() == 0);
        }
        assert(rows@ =~= unexpired(o, now_ms));
        lemma_filter_len(o, now_ms);
    }
    Ok(before_len - rows.len())
}

/// The table after writing `row`: it replaces the row with its key, or joins the table.
pub open spec fn upserted(rows: Seq<ContextCacheRow>, row: ContextCacheRow) -> Seq<ContextCacheRow> {
    if exists|i: int| 0 <= i < rows.len() && rows[i].cache_key@ == row.cache_key@ {
        rows.update(
            choose|i: int| 0 <= i < rows.len() && rows[i].cache_key@ == row.cache_key@,
            row,
        )
    } else {
        rows.push(row)
    }
}

/// Writes `row` over the row with its key, or adds it.
pub fn upsert_row(rows: &mut Vec<ContextCacheRow>, row: ContextCacheRow)
    ensures
        distinct_keys(old(rows)@) ==> final(rows)@ == upserted(old(rows)@, row),
        distinct_keys(old(rows)@) ==> distinct_keys(final(rows)@),
        forall|x: ContextCacheRow| #[trigger] final(rows)@.contains(x) ==> x == row || old(
            rows,
        )@.contains(x),
{
    let ghost o = rows@;
    let mut i: usize = 0;
    while i < rows.len()
        invariant
            rows@ == o,
            o == old(rows)@,
            0 <= i <= o.len(),
            forall|k: int| 0 <= k < i ==> #[trigger] o[k].cache_key@ != row.cache_key@,
        decreases o.len() - i,
    {
        if str_equal(rows[i].cache_key.as_str(), row.cache_key.as_str()) {
            let ghost key = row.cache_key@;
            let ghost written = row;
            rows[i] = row;
            proof {
                assert(rows@ =~= o.update(i as int, written));
                assert forall|x: ContextCacheRow| #[trigger] rows@.contains(x) implies x == written
                    || o.contains(x) by {
                    let a = choose|a: int| 0 <= a < rows@.len() && rows@[a] == x;
                    if a != i {
                        assert(o[a] == x);
                    }
                }
                if distinct_keys(o) {
                    assert(o[i as int].cache_key@ == written.cache_key@);
                    let c = choose|c: int|
                        0 <= c < o.len() && o[c].cache_key@ == written.cache_key@;
                    assert(0 <= c < o.len() && o[c].cache_key@ == written.cache_key@);
                    assert(c == i);
                    assert(upserted(o, written) == o.update(i as int, written));
                    assert forall|a: int, b: int|
                        0 <= a < rows@.len() && 0 <= b < rows@.len() && a != b implies #[trigger] rows@[a].cache_key@
                        != #[trigger] rows@[b].cache_key@ by {
                        if a != i && b != i {
                            assert(rows@[a] == o[a] && rows@[b] == o[b]);
                        } else if a == i {
                            assert(rows@[b] == o[b]);
                        } else {
                            assert(rows@[a] == o[a]);
                        }
                    }
                }
            }
            return;
        }
        i = i + 1;
    }
    let ghost key = row.cache_key@;
    rows.push(row);
    proof {
        assert forall|x: ContextCacheRow| #[trigger] rows@.contains(x) implies x == row
            || o.contains(x) by {
            let a = choose|a: int| 0 <= a < rows@.len() && rows@[a] == x;
            if a < o.len() {
                assert(o[a] == x);
            }
        }
        assert(!exists|k: int| 0 <= k < o.len() && o[k].cache_key@ == key);
        if distinct_keys(o) {
            assert forall|a: int, b: int|
                0 <= a < rows@.len() && 0 <= b < rows@.len() && a != b implies #[trigger] rows@[a].cache_key@
                != #[trigger] rows@[b].cache_key@ by {
                if a < o.len() && b < o.len() {
                    assert(rows@[a] == o[a] && rows@[b] == o[b]);
                } else if a == o.len() {
                    assert(rows@[b] == o[b]);
                } else {
                    assert(rows@[a] == o[a]);
                }
            }
        }
    }
}

/// Stores a sealed entry's row at `now_ms`: expired rows are purged, the row
/// is written over its key, and least recently used rows are evicted until
/// the table fits the policy.
///
/// # Errors
///
/// [`SqlitePersistenceError::InvalidContextCache`] when `now_ms` or a limit
/// exceeds storage range; the rows are then left unchanged.
pub fn put_row(
    rows: &mut Vec<ContextCacheRow>,
    row: ContextCacheRow,
    now_ms: u64,
    policy: ContextCachePolicy,
) -> (r: Result<(), SqlitePersistenceError>)
    ensures
        storable(now_ms as int) && limits_storable(policy) ==> r is Ok,
        !(storable(now_ms as int) && limits_storable(policy)) ==> r == Err::<
            (),
            SqlitePersistenceError,
        >(SqlitePersistenceError::InvalidContextCache) && final(rows)@ == old(rows)@,
        r is Ok && distinct_keys(old(rows)@) ==> final(rows)@ == evict_to_limits(
            upserted(unexpired(old(rows)@, now_ms), row),
            policy,
        ),
        r is Ok ==> within_limits(final(rows)@, policy),
        r is Ok && distinct_keys(old(rows)@) ==> distinct_keys(final(rows)@),
        r is Ok && all_rows_ok(old(rows)@) && row_ok(row) ==> all_rows_ok(final(rows)@),
{
    let limit: i64 = 9_223_372_036_854_775_807;
    if now_ms > limit as u64 || policy.max_entries as u64 > limit as u64 || policy.max_bytes as u64
        > limit as u64 {
        return Err(SqlitePersistenceError::InvalidContextCache);
    }
    let ghost o = rows@;
    let ghost new_row = row;
    let _ = purge_expired_rows(rows, now_ms);
    let ghost purged = rows@;
    proof {
        if distinct_keys(o) {
            lemma_filter_keeps_distinct(o, now_ms);
        }
        lemma_filter_elements(o, |row: ContextCacheRow| row.expires_at_ms > now_ms);
    }
    upsert_row(rows, row);
    let ghost written = rows@;
    let _ = enforce_limits(rows, policy);
    proof {
        law_eviction_fits_limits(written, policy);
        lemma_evict_subset(written, policy);
        if distinct_keys(o) {
            lemma_evict_keeps_distinct(written, policy);
        }
        if all_rows_ok(o) && row_ok(new_row) {
            assert forall|i: int| 0 <= i < rows@.len() implies row_ok(#[trigger] rows@[i]) by {
                assert(rows@.contains(rows@[i]));
                assert(written.contains(rows@[i]));
                if rows@[i] != new_row {
                    assert(purged.contains(rows@[i]));
                    assert(o.contains(rows@[i]));
                }
            }
        }
    }
    Ok(())
}

proof fn lemma_filter_keeps_distinct(rows: Seq<ContextCacheRow>, now_ms: u64)
    requires
        distinct_keys(rows),
    ensures
        distinct_keys(unexpired(rows, now_ms)),
{
    let f = |row: ContextCacheRow| row.expires_at_ms > now_ms;
    let kept = rows.filter(f);
    assert forall|a: int, b: int|
        0 <= a < kept.len() && 0 <= b < kept.len() && a != b implies #[trigger] kept[a].cache_key@
        != #[trigger] kept[b].cache_key@ by {
        if a < b {
            lemma_filter_index_order(rows, f, a, b);
        } else {
            lemma_filter_index_order(rows, f, b, a);
        }
    }
}

/// Each element of a filtered sequence is an element of the sequence it came from.
proof fn lemma_filter_source(rows: Seq<ContextCacheRow>, f: spec_fn(ContextCacheRow) -> bool, a: int)
    requires
        0 <= a < rows.filter(f).len(),
    ensures
        exists|x: int| 0 <= x < rows.len() && rows[x] == rows.filter(f)[a],
    decreases rows.len(),
{
    reveal_with_fuel(Seq::filter, 1);
    let front = rows.drop_last();
    if a < front.filter(f).len() {
        lemma_filter_source(front, f, a);
        let x = choose|x: int| 0 <= x < front.len() && front[x] == front.filter(f)[a];
        assert(rows[x] == front[x]);
    } else {
        assert(rows[rows.len() - 1] == rows.filter(f)[a]);
    }
}

proof fn lemma_filter_len(rows: Seq<ContextCacheRow>, now_ms: u64)
    ensures
        unexpired(rows, now_ms).len() <= rows.len(),
    decreases rows.len(),
{
    reveal_with_fuel(Seq::filter, 1);
    if rows.len() > 0 {
        lemma_filter_len(rows.drop_last(), now_ms);
    }
}

/// Earlier positions of a filtered sequence come from earlier positions.
proof fn lemma_filter_index_order(
    rows: Seq<ContextCacheRow>,
    f: spec_fn(ContextCacheRow) -> bool,
    a: int,
    b: int,
)
    requires
        0 <= a < b < rows.filter(f).len(),
    ensures
        exists|x: int, y: int|
            0 <= x < y < rows.len() && rows[x] == rows.filter(f)[a] && rows[y] == rows.filter(
                f,
            )[b],
    decreases rows.len(),
{
    reveal_with_fuel(Seq::filter, 1);
    let front = rows.drop_last();
    let n = front.filter(f).len();
    if b < n {
        lemma_filter_index_order(front, f, a, b);
        let (x, y) = choose|x: int, y: int|
            0 <= x < y < front.len() && front[x] == front.filter(f)[a] && front[y] == front.filter(
                f,
            )[b];
        assert(rows[x] == front[x] && rows[y] == front[y]);
    } else {
        lemma_filter_source(front, f, a);
        let x = choose|x: int| 0 <= x < front.len() && front[x] == front.filter(f)[a];
        assert(rows[x] == rows.filter(f)[a]);
        assert(rows[rows.len() - 1] == rows.filter(f)[b]);
    }
}

/// The rows of other Workspaces.
pub open spec fn outside_workspace(rows: Seq<ContextCacheRow>, workspace_fingerprint: Seq<char>) -> Seq<
    ContextCacheRow,
> {
    rows.filter(|row: ContextCacheRow| row.workspace_fingerprint@ != workspace_fingerprint)
}

/// Deletes every row bound to one Workspace fingerprint and counts them.
///
/// # Errors
///
/// [`SqlitePersistenceError::InvalidContextCache`] for a blank fingerprint;
/// the rows are then left unchanged.
pub fn invalidate_workspace(rows: &mut Vec<ContextCacheRow>, workspace_fingerprint: &str) -> (r:
    Result<usize, SqlitePersistenceError>)
    ensures
        !blank(workspace_fingerprint@) ==> {
            &&& final(rows)@ == outside_workspace(old(rows)@, workspace_fingerprint@)
            &&& final(rows)@.len() <= old(rows)@.len()
            &&& r == Ok::<usize, SqlitePersistenceError>(
                (old(rows)@.len() - final(rows)@.len()) as usize,
            )
        },
        blank(workspace_fingerprint@) ==> r == Err::<usize, SqlitePersistenceError>(
            SqlitePersistenceError::InvalidContextCache,
        ) && final(rows)@ == old(rows)@,
{
    if is_blank(workspace_fingerprint) {
        return Err(SqlitePersistenceError::InvalidContextCache);
    }
    let before_len = rows.len();
    let ghost o = rows@;
    let ghost fp = workspace_fingerprint@;
    let ghost mut j: int = 0;
    let mut i: usize = 0;
    while i < rows.len()
        invariant
            0 <= j <= o.len(),
            fp == workspace_fingerprint@,
            rows@ == outside_workspace(o.take(j), fp) + o.skip(j),
            i == outside_workspace(o.take(j), fp).len(),
        decreases rows@.len() - i,
    {
        proof {
            reveal_with_fuel(Seq::filter, 1);
            assert(o.take(j + 1).drop_last() =~= o.take(j));
            assert(o.skip(j)[0] == o[j]);
            assert(rows@[i as int] == o[j]);
        }
        if str_equal(rows[i].workspace_fingerprint.as_str(), workspace_fingerprint) {
            rows.remove(i);
            proof {
                assert(rows@ =~= outside_workspace(o.take(j + 1), fp) + o.skip(j + 1));
            }
        } else {
            i = i + 1;
            proof {
                assert(rows@ =~= outside_workspace(o.take(j + 1), fp) + o.skip(j + 1));
            }
        }
        proof {
            j = j + 1;
        }
    }
    proof {
        assert(o.take(j) =~= o) by {
            assert(o.skip(j).len() == 0);
        }
        assert(rows@ =~= outside_workspace(o, fp));
        lemma_filter_shorter(o, |row: ContextCacheRow| row.workspace_fingerprint@ != fp);
    }
    Ok(before_len - rows.len())
}

proof fn lemma_filter_shorter(rows: Seq<ContextCacheRow>, f: spec_fn(ContextCacheRow) -> bool)
    ensures
        rows.filter(f).len() <= rows.len(),
    decreases rows.len(),
{
    reveal_with_fuel(Seq::filter, 1);
    if rows.len() > 0 {
        lemma_filter_shorter(rows.drop_last(), f);
    }
}

/// Earliest last access among the rows.
pub open spec fn oldest_access(rows: Seq<ContextCacheRow>) -> Option<i64>
    decreases rows.len(),
{
    if rows.len() == 0 {
        None
    } else {
        let t = rows.last().last_accessed_at_ms;
        match oldest_access(rows.drop_last()) {
            None => Some(t),
            Some(m) => Some(if t < m {
                t
            } else {
                m
            }),
        }
    }
}

/// Latest last access among the rows.
pub open spec fn newest_access(rows: Seq<ContextCacheRow>) -> Option<i64>
    decreases rows.len(),
{
    if rows.len() == 0 {
        None
    } else {
        let t = rows.last().last_accessed_at_ms;
        match newest_access(rows.drop_last()) {
            None => Some(t),
            Some(m) => Some(if t > m {
                t
            } else {
                m
            }),
        }
    }
}

/// What storage answers when a sum leaves its integer range.
pub const INTEGER_OVERFLOW: &'static str = "integer overflow";

/// An optional access time that is not negative.
pub open spec fn access_ok(t: Option<i64>) -> bool {
    match t {
        Some(v) => v >= 0,
        None => true,
    }
}

/// An optional access time as an unsigned instant.
pub open spec fn access_u64(t: Option<i64>) -> Option<u64> {
    match t {
        Some(v) => Some(v as u64),
        None => None,
    }
}

/// Metrics of `rows` under `policy`, after `expired_purged` rows were purged.
///
/// # Errors
///
/// A storage error when the byte total leaves the signed 64-bit range, and
/// [`SqlitePersistenceError::InvalidContextCache`] when the total or an access
/// time is negative.
pub fn aggregate_metrics(
    rows: &Vec<ContextCacheRow>,
    policy: ContextCachePolicy,
    expired_purged: usize,
) -> (r: Result<ContextCacheMetrics, SqlitePersistenceError>)
    ensures
        !(i64::MIN <= stored_bytes(rows@) <= i64::MAX) ==> (r matches Err(
            SqlitePersistenceError::Sqlite(m),
        ) && m@ == INTEGER_OVERFLOW@),
        i64::MIN <= stored_bytes(rows@) <= i64::MAX ==> {
            if stored_bytes(rows@) < 0 || !access_ok(oldest_access(rows@)) || !access_ok(
                newest_access(rows@),
            ) {
                r == Err::<ContextCacheMetrics, SqlitePersistenceError>(
                    SqlitePersistenceError::InvalidContextCache,
                )
            } else {
                r matches Ok(m) && {
                    &&& m.spec@ == CONTEXT_CACHE_METRICS_SPEC@
                    &&& m.entries == rows@.len()
                    &&& m.total_bytes == stored_bytes(rows@)
                    &&& m.max_entries == policy.max_entries
                    &&& m.max_bytes == policy.max_bytes
                    &&& m.oldest_accessed_at_ms == access_u64(oldest_access(rows@))
                    &&& m.newest_accessed_at_ms == access_u64(newest_access(rows@))
                    &&& m.expired_purged == expired_purged
                }
            }
        },
{
    let total = stored_bytes_of(rows);
    if total > 9_223_372_036_854_775_807i128 || total < -9_223_372_036_854_775_808i128 {
        return Err(SqlitePersistenceError::Sqlite(INTEGER_OVERFLOW.to_owned()));
    }
    if total < 0 {
        return Err(SqlitePersistenceError::InvalidContextCache);
    }
    let mut oldest: Option<i64> = None;
    let mut newest: Option<i64> = None;
    let mut i: usize = 0;
    while i < rows.len()
        invariant
            0 <= i <= rows@.len(),
            oldest == oldest_access(rows@.take(i as int)),
            newest == newest_access(rows@.take(i as int)),
        decreases rows@.len() - i,
    {
        proof {
            assert(rows@.take(i + 1).drop_last() =~= rows@.take(i as int));
        }
        let t = rows[i].last_accessed_at_ms;
        oldest = match oldest {
            None => Some(t),
            Some(m) => Some(if t < m { t } else { m }),
        };
        newest = match newest {
            None => Some(t),
            Some(m) => Some(if t > m { t } else { m }),
        };
        i = i + 1;
    }
    assert(rows@.take(rows@.len() as int) =~= rows@);
    let oldest_ms = match oldest {
        None => None,
        Some(v) => {
            if v < 0 {
                return Err(SqlitePersistenceError::InvalidContextCache);
            }
            Some(v as u64)
        },
    };
    let newest_ms = match newest {
        None => None,
        Some(v) => {
            if v < 0 {
                return Err(SqlitePersistenceError::InvalidContextCache);
            }
            Some(v as u64)
        },
    };
    Ok(
        ContextCacheMetrics {
            spec: CONTEXT_CACHE_METRICS_SPEC,
            entries: rows.len() as u64,
            total_bytes: total as u64,
            max_entries: policy.max_entries as u64,
            max_bytes: policy.max_bytes as u64,
            oldest_accessed_at_ms: oldest_ms,
            newest_accessed_at_ms: newest_ms,
            expired_purged: expired_purged as u64,
        },
    )
}

fn unexpired_bytes(rows: &Vec<ContextCacheRow>, now_ms: u64) -> (r: i128)
    requires
        storable(now_ms as int),
    ensures
        r == stored_bytes(unexpired(rows@, now_ms)),
{
    let now = now_ms as i64;
    let mut total: i128 = 0;
    let mut i: usize = 0;
    while i < rows.len()
        invariant
            0 <= i <= rows@.len(),
            now == now_ms,
            total == stored_bytes(unexpired(rows@.take(i as int), now_ms)),
            unexpired(rows@.take(i as int), now_ms).len() <= i,
            -(i as int) * 0x8000_0000_0000_0000 <= total <= (i as int) * 0x8000_0000_0000_0000,
        decreases rows@.len() - i,
    {
        proof {
            reveal_with_fuel(Seq::filter, 1);
            let t = rows@.take(i + 1);
            assert(t.drop_last() =~= rows@.take(i as int));
            assert(t.last() == rows@[i as int]);
            let kept = unexpired(rows@.take(i as int), now_ms);
            assert(kept.push(rows@[i as int]).drop_last() =~= kept);
        }
        if rows[i].expires_at_ms > now {
            total = total + rows[i].payload_bytes as i128;
        }
        i = i + 1;
    }
    assert(rows@.take(rows@.len() as int) =~= rows@);
    total
}

/// Purges expired rows and reports the metrics of what is left.
///
/// # Errors
///
/// [`SqlitePersistenceError::InvalidContextCache`] when `now_ms` exceeds
/// storage range, and a storage error when the remaining byte total leaves
/// the signed 64-bit range; the rows are then left unchanged. Otherwise the
/// purge stands and the errors of [`aggregate_metrics`] may follow.
pub fn metrics(rows: &mut Vec<ContextCacheRow>, policy: ContextCachePolicy, now_ms: u64) -> (r:
    Result<ContextCacheMetrics, SqlitePersistenceError>)
    ensures
        !storable(now_ms as int) ==> r == Err::<ContextCacheMetrics, SqlitePersistenceError>(
            SqlitePersistenceError::InvalidContextCache,
        ) && final(rows)@ == old(rows)@,
        storable(now_ms as int) && !(i64::MIN <= stored_bytes(unexpired(old(rows)@, now_ms))
            <= i64::MAX) ==> (r matches Err(SqlitePersistenceError::Sqlite(m)) && m@
            == INTEGER_OVERFLOW@) && final(rows)@ == old(rows)@,
        storable(now_ms as int) && i64::MIN <= stored_bytes(unexpired(old(rows)@, now_ms))
            <= i64::MAX ==> final(rows)@ == unexpired(old(rows)@, now_ms),
        r matches Ok(m) ==> {
            &&& m.spec@ == CONTEXT_CACHE_METRICS_SPEC@
            &&& m.entries == final(rows)@.len()
            &&& m.total_bytes == stored_bytes(final(rows)@)
            &&& m.max_entries == policy.max_entries
            &&& m.max_bytes == policy.max_bytes
            &&& m.oldest_accessed_at_ms == access_u64(oldest_access(final(rows)@))
            &&& m.newest_accessed_at_ms == access_u64(newest_access(final(rows)@))
            &&& m.expired_purged == old(rows)@.len() - final(rows)@.len()
        },
{
    let limit: i64 = 9_223_372_036_854_775_807;
    if now_ms > limit as u64 {
        return Err(SqlitePersistenceError::InvalidContextCache);
    }
    let live = unexpired_bytes(rows, now_ms);
    if live > 9_223_372_036_854_775_807i128 || live < -9_223_372_036_854_775_808i128 {
        return Err(SqlitePersistenceError::Sqlite(INTEGER_OVERFLOW.to_owned()));
    }
    let ghost o = rows@;
    let before_len = rows.len();
    let n = match purge_expired_rows(rows, now_ms) {
        Ok(n) => n,
        Err(e) => {
            return Err(e);
        },
    };
    proof {
        assert(stored_bytes(rows@) == live);
        assert(n == o.len() - rows@.len());
    }
    aggregate_metrics(rows, policy, n)
}

/// Purges expired rows, then evicts least recently used rows until the table
/// fits, and reports the metrics of what is left.
///
/// # Errors
///
/// [`SqlitePersistenceError::InvalidContextCache`] when `now_ms` or a limit
/// exceeds storage range (the rows are then left unchanged), and the errors of
/// [`aggregate_metrics`].
pub fn reclaim(rows: &mut Vec<ContextCacheRow>, policy: ContextCachePolicy, now_ms: u64) -> (r:
    Result<ContextCacheMetrics, SqlitePersistenceError>)
    ensures
        !(storable(now_ms as int) && limits_storable(policy)) ==> r == Err::<
            ContextCacheMetrics,
            SqlitePersistenceError,
        >(SqlitePersistenceError::InvalidContextCache) && final(rows)@ == old(rows)@,
        storable(now_ms as int) && limits_storable(policy) ==> final(rows)@ == evict_to_limits(
            unexpired(old(rows)@, now_ms),
            policy,
        ),
        r matches Ok(m) ==> {
            &&& m.entries == final(rows)@.len()
            &&& m.total_bytes == stored_bytes(final(rows)@)
            &&& m.entries <= policy.max_entries
            &&& m.total_bytes <= policy.max_bytes
            &&& m.expired_purged == 0
        },
{
    let limit: i64 = 9_223_372_036_854_775_807;
    if now_ms > limit as u64 || policy.max_entries as u64 > limit as u64 || policy.max_bytes as u64
        > limit as u64 {
        return Err(SqlitePersistenceError::InvalidContextCache);
    }
    let _ = purge_expired_rows(rows, now_ms);
    let ghost purged = rows@;
    let _ = enforce_limits(rows, policy);
    proof {
        law_eviction_fits_limits(purged, policy);
        lemma_evict_unexpired(purged, policy, now_ms);
    }
    let again = purge_expired_rows(rows, now_ms);
    proof {
        assert(rows@.len() <= policy.max_entries);
    }
    match again {
        Ok(n) => aggregate_metrics(rows, policy, n),
        Err(e) => Err(e),
    }
}

/// Nothing is left to purge after a purge and an eviction at the same instant.
proof fn lemma_evict_unexpired(rows: Seq<ContextCacheRow>, policy: ContextCachePolicy, now_ms: u64)
    requires
        forall|i: int| 0 <= i < rows.len() ==> #[trigger] rows[i].expires_at_ms > now_ms,
    ensures
        unexpired(evict_to_limits(rows, policy), now_ms) == evict_to_limits(rows, policy),
{
    lemma_evict_subset(rows, policy);
    let kept = evict_to_limits(rows, policy);
    assert forall|i: int| 0 <= i < kept.len() implies #[trigger] kept[i].expires_at_ms > now_ms by {
        assert(kept.contains(kept[i]));
        assert(rows.contains(kept[i]));
    }
    lemma_filter_all(kept, now_ms);
}

proof fn lemma_filter_all(rows: Seq<ContextCacheRow>, now_ms: u64)
    requires
        forall|i: int| 0 <= i < rows.len() ==> #[trigger] rows[i].expires_at_ms > now_ms,
    ensures
        unexpired(rows, now_ms) == rows,
    decreases rows.len(),
{
    reveal_with_fuel(Seq::filter, 1);
    if rows.len() > 0 {
        let front = rows.drop_last();
        assert forall|i: int| 0 <= i < front.len() implies #[trigger] front[i].expires_at_ms
            > now_ms by {
            assert(front[i] == rows[i]);
        }
        lemma_filter_all(front, now_ms);
        assert(rows =~= front.push(rows.last()));
    }
}

proof fn lemma_filter_elements(rows: Seq<ContextCacheRow>, f: spec_fn(ContextCacheRow) -> bool)
    ensures
        forall|x: ContextCacheRow| #[trigger] rows.filter(f).contains(x) ==> rows.contains(x),
{
    assert forall|x: ContextCacheRow| #[trigger] rows.filter(f).contains(x) implies rows.contains(
        x,
    ) by {
        let a = choose|a: int| 0 <= a < rows.filter(f).len() && rows.filter(f)[a] == x;
        lemma_filter_source(rows, f, a);
    }
}

proof fn lemma_evict_keeps_distinct(rows: Seq<ContextCacheRow>, policy: ContextCachePolicy)
    requires
        distinct_keys(rows),
    ensures
        distinct_keys(evict_to_limits(rows, policy)),
    decreases rows.len(),
{
    if !(rows.len() == 0 || within_limits(rows, policy)) {
        lemma_least_recent_in_range(rows);
        lemma_remove_keeps_distinct(rows, least_recent(rows));
        lemma_evict_keeps_distinct(rows.remove(least_recent(rows)), policy);
    }
}

/// The rows without the one holding `cache_key`.
pub open spec fn without_key(rows: Seq<ContextCacheRow>, cache_key: Seq<char>) -> Seq<ContextCacheRow> {
    rows.filter(|row: ContextCacheRow| row.cache_key@ != cache_key)
}

/// Deletes the row holding `cache_key` (an expired hit or a row of another
/// schema version) and counts what was deleted.
pub fn delete_row(rows: &mut Vec<ContextCacheRow>, cache_key: &str) -> (r: usize)
    ensures
        final(rows)@ == without_key(old(rows)@, cache_key@),
        final(rows)@.len() <= old(rows)@.len(),
        r == old(rows)@.len() - final(rows)@.len(),
{
    let before_len = rows.len();
    let ghost o = rows@;
    let ghost key = cache_key@;
    let ghost mut j: int = 0;
    let mut i: usize = 0;
    while i < rows.len()
        invariant
            0 <= j <= o.len(),
            key == cache_key@,
            rows@ == without_key(o.take(j), key) + o.skip(j),
            i == without_key(o.take(j), key).len(),
        decreases rows@.len() - i,
    {
        proof {
            reveal_with_fuel(Seq::filter, 1);
            assert(o.take(j + 1).drop_last() =~= o.take(j));
            assert(o.skip(j)[0] == o[j]);
            assert(rows@[i as int] == o[j]);
        }
        if str_equal(rows[i].cache_key.as_str(), cache_key) {
            rows.remove(i);
            proof {
                assert(rows@ =~= without_key(o.take(j + 1), key) + o.skip(j + 1));
            }
        } else {
            i = i + 1;
            proof {
                assert(rows@ =~= without_key(o.take(j + 1), key) + o.skip(j + 1));
            }
        }
        proof {
            j = j + 1;
        }
    }
    proof {
        assert(o.take(j) =~= o) by {
            assert(o.skip(j).len() == 0);
        }
        assert(rows@ =~= without_key(o, key));
        lemma_filter_shorter(o, |row: ContextCacheRow| row.cache_key@ != key);
    }
    before_len - rows.len()
}

/// The rows after recording an access of `cache_key` at `at_ms`.
pub open spec fn touched(rows: Seq<ContextCacheRow>, cache_key: Seq<char>, at_ms: u64) -> Seq<
    ContextCacheRow,
> {
    rows.map_values(
        |row: ContextCacheRow|
            if row.cache_key@ == cache_key {
                ContextCacheRow { last_accessed_at_ms: at_ms as i64, ..row }
            } else {
                row
            },
    )
}

/// Records an access of the row holding `cache_key` at `at_ms`.
///
/// # Errors
///
/// [`SqlitePersistenceError::InvalidContextCache`] when `at_ms` exceeds
/// storage range; the rows are then left unchanged.
pub fn record_access(rows: &mut Vec<ContextCacheRow>, cache_key: &str, at_ms: u64) -> (r: Result<
    (),
    SqlitePersistenceError,
>)
    ensures
        storable(at_ms as int) ==> r is Ok && final(rows)@ == touched(old(rows)@, cache_key@, at_ms),
        !storable(at_ms as int) ==> r == Err::<(), SqlitePersistenceError>(
            SqlitePersistenceError::InvalidContextCache,
        ) && final(rows)@ == old(rows)@,
{
    let limit: i64 = 9_223_372_036_854_775_807;
    if at_ms > limit as u64 {
        return Err(SqlitePersistenceError::InvalidContextCache);
    }
    let ghost o = rows@;
    let mut i: usize = 0;
    while i < rows.len()
        invariant
            0 <= i <= rows@.len(),
            rows@.len() == o.len(),
            storable(at_ms as int),
            o == old(rows)@,
            forall|k: int| 0 <= k < i ==> #[trigger] rows@[k] == touched(o, cache_key@, at_ms)[k],
            forall|k: int| i <= k < rows@.len() ==> #[trigger] rows@[k] == o[k],
        decreases rows@.len() - i,
    {
        if str_equal(rows[i].cache_key.as_str(), cache_key) {
            rows[i].last_accessed_at_ms = at_ms as i64;
        }
        i = i + 1;
    }
    assert(rows@ =~= touched(o, cache_key@, at_ms));
    Ok(())
}

/// Deletes every row (when the encryption key rotates) and counts them.
pub fn clear_all(rows: &mut Vec<ContextCacheRow>) -> (r: usize)
    ensures
        final(rows)@.len() == 0,
        r == old(rows)@.len(),
{
    let n = rows.len();
    rows.clear();
    n
}

} // verus!
