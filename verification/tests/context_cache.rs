use nimora_core::context_cache::{
    aggregate_metrics, begin_lookup, classification_exceeds, classification_name, clear_all,
    delete_row, enforce_limits, finish_lookup, invalidate_workspace, metrics, purge_expired_rows,
    put_row, reclaim, record_access, row_for_put, validate_put, ContextCacheEntryMeta,
    ContextCacheRow, DataClassification, LookupOutcome, LookupStart, INTEGER_OVERFLOW,
    STORED_CONTEXT_CACHE_SPEC,
};
use nimora_core::error::SqlitePersistenceError;
use nimora_core::records::ContextCachePolicy;

/// The rows of the cache table beside the entries their sealed payloads hold.
struct Cache {
    rows: Vec<ContextCacheRow>,
    entries: Vec<ContextCacheEntryMeta>,
    policy: ContextCachePolicy,
}

fn entry(key: &str, workspace: &str, created_at_ms: u64, expires_at_ms: u64) -> ContextCacheEntryMeta {
    ContextCacheEntryMeta {
        spec: STORED_CONTEXT_CACHE_SPEC.to_owned(),
        cache_key: key.to_owned(),
        provider_id: "provider:local".to_owned(),
        model: "model:local".to_owned(),
        workspace_fingerprint: workspace.to_owned(),
        plan_revision: 1,
        data_classification: DataClassification::Internal,
        created_at_ms,
        expires_at_ms,
    }
}

fn classified(mut e: ContextCacheEntryMeta, class: DataClassification) -> ContextCacheEntryMeta {
    e.data_classification = class;
    e
}

impl Cache {
    fn new(max_entries: usize, max_bytes: usize) -> Self {
        Cache {
            rows: Vec::new(),
            entries: Vec::new(),
            policy: ContextCachePolicy::new(max_entries, max_bytes).expect("policy"),
        }
    }

    fn put(&mut self, e: &ContextCacheEntryMeta, payload_len: usize, now_ms: u64) {
        validate_put(e, now_ms).expect("valid entry");
        let row = row_for_put(e, now_ms, payload_len, self.policy).expect("row");
        put_row(&mut self.rows, row, now_ms, self.policy).expect("put");
        self.entries.retain(|x| x.cache_key != e.cache_key);
        self.entries.push(e.clone());
    }

    fn get(
        &mut self,
        key: &str,
        workspace: &str,
        maximum: DataClassification,
        now_ms: u64,
    ) -> Option<ContextCacheEntryMeta> {
        let row = self.rows.iter().find(|r| r.cache_key == key).cloned();
        match begin_lookup(key, workspace, row.as_ref()).expect("begin") {
            LookupStart::Miss => None,
            LookupStart::Evict => {
                delete_row(&mut self.rows, key);
                None
            }
            LookupStart::Open { .. } => {
                let row = row.expect("row");
                let e = self
                    .entries
                    .iter()
                    .find(|x| x.cache_key == key)
                    .cloned()
                    .expect("entry");
                let len = row.payload_bytes as usize;
                match finish_lookup(key, workspace, maximum, now_ms, &row, &e, len).expect("finish") {
                    LookupOutcome::Evict => {
                        delete_row(&mut self.rows, key);
                        None
                    }
                    LookupOutcome::Withheld => None,
                    LookupOutcome::Hit { touch_at_ms } => {
                        record_access(&mut self.rows, key, touch_at_ms).expect("touch");
                        Some(e)
                    }
                }
            }
        }
    }
}

fn row(key: &str, last_accessed_at_ms: i64, payload_bytes: i64) -> ContextCacheRow {
    ContextCacheRow {
        cache_key: key.to_owned(),
        provider_id: "provider:local".to_owned(),
        model: "model:local".to_owned(),
        workspace_fingerprint: "ws".to_owned(),
        plan_revision: 1,
        data_classification: "internal".to_owned(),
        created_at_ms: 0,
        expires_at_ms: 10_000,
        last_accessed_at_ms,
        payload_bytes,
        schema_version: 2,
    }
}

fn keys(rows: &[ContextCacheRow]) -> Vec<&str> {
    rows.iter().map(|r| r.cache_key.as_str()).collect()
}

#[test]
fn persists_hits_and_enforces_workspace_data_and_expiry() {
    let mut cache = Cache::new(4, 64 * 1024);
    let context = classified(
        entry("key-one", "sha256:workspace-one", 1_000, 2_000),
        DataClassification::Personal,
    );
    cache.put(&context, 600, 1_100);

    assert!(cache
        .get("key-one", "sha256:workspace-one", DataClassification::Internal, 1_200)
        .is_none());
    assert!(cache
        .get("key-one", "sha256:workspace-two", DataClassification::Personal, 1_200)
        .is_none());
    assert_eq!(
        cache.get("key-one", "sha256:workspace-one", DataClassification::Personal, 1_300),
        Some(context)
    );
    assert!(cache
        .get("key-one", "sha256:workspace-one", DataClassification::Personal, 2_000)
        .is_none());
    assert!(cache.rows.is_empty());
}

#[test]
fn evicts_lru_and_invalidates_workspace_partition() {
    let mut cache = Cache::new(2, 128 * 1024);
    let first = entry("first", "sha256:workspace-one", 1_000, 3_000);
    let second = entry("second", "sha256:workspace-one", 1_001, 3_000);
    let third = entry("third", "sha256:workspace-two", 1_002, 3_000);
    cache.put(&first, 700, 1_100);
    cache.put(&second, 700, 1_101);
    assert!(cache
        .get("first", "sha256:workspace-one", DataClassification::Internal, 1_200)
        .is_some());
    cache.put(&third, 700, 1_300);
    assert!(cache
        .get("second", "sha256:workspace-one", DataClassification::Internal, 1_400)
        .is_none());
    assert_eq!(
        invalidate_workspace(&mut cache.rows, "sha256:workspace-one").expect("invalidate"),
        1
    );
    assert!(cache
        .get("third", "sha256:workspace-two", DataClassification::Internal, 1_500)
        .is_some());
}

#[test]
fn metrics_and_clear_all_support_rotation_control_plane() {
    let mut cache = Cache::new(8, 1024 * 1024);
    cache.put(&entry("hello", "ws-a", 1_000, 5_000), 900, 1_000);
    let m = metrics(&mut cache.rows, cache.policy, 1_100).expect("metrics");
    assert_eq!(m.spec, "nimora.context-cache-metrics/1");
    assert_eq!(m.entries, 1);
    assert!(m.total_bytes > 0);
    assert_eq!(m.max_entries, 8);
    assert_eq!(m.expired_purged, 0);
    assert_eq!(m.oldest_accessed_at_ms, Some(1_000));
    let after_expiry = metrics(&mut cache.rows, cache.policy, 6_000).expect("expired metrics");
    assert_eq!(after_expiry.entries, 0);
    assert_eq!(after_expiry.expired_purged, 1);
    cache.put(&entry("again", "ws-a", 7_000, 20_000), 900, 7_000);
    assert_eq!(clear_all(&mut cache.rows), 1);
    let empty = metrics(&mut cache.rows, cache.policy, 8_000).expect("empty");
    assert_eq!(empty.entries, 0);
    assert_eq!(empty.total_bytes, 0);
    let reclaimed = reclaim(&mut cache.rows, cache.policy, 8_000).expect("reclaim");
    assert_eq!(reclaimed.entries, 0);
}

#[test]
fn classification_names_and_order() {
    assert_eq!(classification_name(DataClassification::Public), "public");
    assert_eq!(classification_name(DataClassification::Restricted), "restricted");
    assert!(classification_exceeds(
        DataClassification::Sensitive,
        DataClassification::Personal
    ));
    assert!(!classification_exceeds(
        DataClassification::Internal,
        DataClassification::Internal
    ));
    assert!(!classification_exceeds(DataClassification::Public, DataClassification::Internal));
}

#[test]
fn put_rejects_unknown_spec_expired_and_oversized_entries() {
    let policy = ContextCachePolicy::new(4, 2_048).expect("policy");
    let mut bad_spec = entry("k", "ws", 10, 20);
    bad_spec.spec = "nimora.stored-context-cache/2".to_owned();
    assert_eq!(validate_put(&bad_spec, 11), Err(SqlitePersistenceError::InvalidContextCache));
    assert_eq!(
        validate_put(&entry("k", "ws", 20, 20), 10),
        Err(SqlitePersistenceError::InvalidContextCache)
    );
    assert_eq!(
        validate_put(&entry("k", "ws", 10, 20), 20),
        Err(SqlitePersistenceError::InvalidContextCache)
    );
    assert_eq!(validate_put(&entry("k", "ws", 10, 20), 19), Ok(()));
    assert_eq!(
        row_for_put(&entry("k", "ws", 10, 20), 15, 2_049, policy),
        Err(SqlitePersistenceError::InvalidContextCache)
    );
    let early = row_for_put(&entry("k", "ws", 10, 20), 5, 100, policy).expect("row");
    assert_eq!(early.last_accessed_at_ms, 10);
    assert_eq!(early.data_classification, "internal");
    let late = row_for_put(&entry("k", "ws", 10, 20), 15, 100, policy).expect("row");
    assert_eq!(late.last_accessed_at_ms, 15);
    assert_eq!(late.payload_bytes, 100);
}

#[test]
fn lookup_start_checks_request_schema_and_columns() {
    assert_eq!(
        begin_lookup(" ", "ws", None),
        Err(SqlitePersistenceError::InvalidContextCache)
    );
    assert_eq!(
        begin_lookup("k", "\t", None),
        Err(SqlitePersistenceError::InvalidContextCache)
    );
    assert_eq!(begin_lookup("k", "ws", None), Ok(LookupStart::Miss));
    let mut old_schema = row("k", 5, 10);
    old_schema.schema_version = 1;
    assert_eq!(begin_lookup("k", "ws", Some(&old_schema)), Ok(LookupStart::Evict));
    let mut negative = row("k", 5, 10);
    negative.created_at_ms = -1;
    assert_eq!(
        begin_lookup("k", "ws", Some(&negative)),
        Err(SqlitePersistenceError::InvalidContextCache)
    );
    assert_eq!(
        begin_lookup("k", "ws", Some(&row("k", 5, 10))),
        Ok(LookupStart::Open { plan_revision: 1, created_at_ms: 0, expires_at_ms: 10_000 })
    );
}

#[test]
fn lookup_rejects_entries_that_disagree_with_their_row() {
    let e = entry("k", "ws", 0, 10_000);
    let stored = row("k", 5, 10);
    assert_eq!(
        finish_lookup("k", "ws", DataClassification::Internal, 100, &stored, &e, 10),
        Ok(LookupOutcome::Hit { touch_at_ms: 100 })
    );
    assert_eq!(
        finish_lookup("k", "ws", DataClassification::Internal, 100, &stored, &e, 11),
        Err(SqlitePersistenceError::InvalidContextCache)
    );
    let mut other_model = e.clone();
    other_model.model = "model:remote".to_owned();
    assert_eq!(
        finish_lookup("k", "ws", DataClassification::Internal, 100, &stored, &other_model, 10),
        Err(SqlitePersistenceError::InvalidContextCache)
    );
    let sensitive = classified(e.clone(), DataClassification::Sensitive);
    assert_eq!(
        finish_lookup("k", "ws", DataClassification::Restricted, 100, &stored, &sensitive, 10),
        Err(SqlitePersistenceError::InvalidContextCache)
    );
    assert_eq!(
        finish_lookup("k", "ws", DataClassification::Internal, 10_000, &stored, &e, 10),
        Ok(LookupOutcome::Evict)
    );
    assert_eq!(
        finish_lookup("k", "other", DataClassification::Internal, 100, &stored, &e, 10),
        Ok(LookupOutcome::Withheld)
    );
    assert_eq!(
        finish_lookup("k", "ws", DataClassification::Public, 100, &stored, &e, 10),
        Ok(LookupOutcome::Withheld)
    );
}

#[test]
fn eviction_is_least_recent_first_with_key_tie_break() {
    let policy = ContextCachePolicy::new(2, 1_000_000).expect("policy");
    let mut rows = vec![row("b", 5, 10), row("a", 5, 10), row("c", 1, 10), row("d", 9, 10)];
    enforce_limits(&mut rows, policy).expect("limits");
    assert_eq!(keys(&rows), vec!["b", "d"]);
}

#[test]
fn eviction_meets_the_byte_limit() {
    let policy = ContextCachePolicy::new(10, 1_500).expect("policy");
    let mut rows = vec![row("a", 1, 800), row("b", 2, 800), row("c", 3, 600)];
    enforce_limits(&mut rows, policy).expect("limits");
    assert_eq!(keys(&rows), vec!["b", "c"]);
    let mut small = vec![row("a", 1, 100)];
    enforce_limits(&mut small, policy).expect("limits");
    assert_eq!(keys(&small), vec!["a"]);
}

#[test]
fn limits_beyond_storage_range_leave_rows_unchanged() {
    let policy = ContextCachePolicy {
        max_entries: 1,
        max_bytes: usize::MAX,
    };
    let mut rows = vec![row("a", 1, 10), row("b", 2, 10)];
    assert_eq!(
        enforce_limits(&mut rows, policy),
        Err(SqlitePersistenceError::InvalidContextCache)
    );
    assert_eq!(rows.len(), 2);
}

#[test]
fn put_replaces_the_row_with_the_same_key() {
    let mut cache = Cache::new(4, 64 * 1024);
    cache.put(&entry("k", "ws-one", 1_000, 5_000), 500, 1_000);
    cache.put(&entry("k", "ws-two", 1_100, 6_000), 700, 1_200);
    assert_eq!(cache.rows.len(), 1);
    assert_eq!(cache.rows[0].workspace_fingerprint, "ws-two");
    assert_eq!(cache.rows[0].payload_bytes, 700);
    assert_eq!(cache.rows[0].last_accessed_at_ms, 1_200);
}

#[test]
fn purge_and_invalidate_count_what_they_delete() {
    let mut rows = vec![row("a", 1, 10), row("b", 2, 10)];
    rows[0].expires_at_ms = 50;
    assert_eq!(purge_expired_rows(&mut rows, 50), Ok(1));
    assert_eq!(keys(&rows), vec!["b"]);
    assert_eq!(
        purge_expired_rows(&mut rows, u64::MAX),
        Err(SqlitePersistenceError::InvalidContextCache)
    );
    assert_eq!(
        invalidate_workspace(&mut rows, "  "),
        Err(SqlitePersistenceError::InvalidContextCache)
    );
    assert_eq!(invalidate_workspace(&mut rows, "other"), Ok(0));
    assert_eq!(delete_row(&mut rows, "b"), 1);
    assert!(rows.is_empty());
}

#[test]
fn metrics_report_bounds_and_reject_impossible_totals() {
    let policy = ContextCachePolicy::new(8, 4_096).expect("policy");
    let rows = vec![row("a", 7, 10), row("b", 3, 20), row("c", 9, 30)];
    let m = aggregate_metrics(&rows, policy, 2).expect("metrics");
    assert_eq!((m.entries, m.total_bytes), (3, 60));
    assert_eq!(m.oldest_accessed_at_ms, Some(3));
    assert_eq!(m.newest_accessed_at_ms, Some(9));
    assert_eq!(m.expired_purged, 2);
    assert_eq!(m.max_bytes, 4_096);
    let huge = vec![row("a", 1, i64::MAX), row("b", 2, 1)];
    match aggregate_metrics(&huge, policy, 0) {
        Err(SqlitePersistenceError::Sqlite(message)) => assert_eq!(message, INTEGER_OVERFLOW),
        other => panic!("unexpected {other:?}"),
    }
    let negative = vec![row("a", -1, 10)];
    assert_eq!(
        aggregate_metrics(&negative, policy, 0),
        Err(SqlitePersistenceError::InvalidContextCache)
    );
}

#[test]
fn reclaim_purges_then_fits_limits() {
    let policy = ContextCachePolicy::new(1, 4_096).expect("policy");
    let mut rows = vec![row("a", 1, 10), row("b", 2, 10), row("c", 3, 10)];
    rows[2].expires_at_ms = 100;
    let m = reclaim(&mut rows, policy, 100).expect("reclaim");
    assert_eq!(keys(&rows), vec!["b"]);
    assert_eq!(m.entries, 1);
    assert_eq!(m.expired_purged, 0);
}
