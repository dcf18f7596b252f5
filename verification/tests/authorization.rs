use nimora_core::authorization::{
    active_grant_for_goal, begin_revoke, decode_grant, finish_revoke, get_grant, issue_grant,
    list_grants_for_goal, GrantRecord, GrantRow, ENCRYPTED_SCHEMA_VERSION,
};
use nimora_core::error::SqlitePersistenceError;

const GOAL: u128 = 0x0190_0000_0000_7000_8000_0000_0000_0042;

fn grant_fixture(id: u128, goal_id: u128, issued_at_ms: u64) -> GrantRecord {
    GrantRecord {
        id,
        goal_id,
        plan_revision: 2,
        workspace_fingerprint: format!("sha256:{}", "a".repeat(64)),
        issued_at_ms,
        expires_at_ms: None,
        revoked_at_ms: None,
        fingerprint: format!("grant-fingerprint:{id}:{issued_at_ms}"),
    }
}

/// Revokes as the store does, with the runtime's new fingerprint.
fn revoke(rows: &mut Vec<GrantRow>, id: u128, now_ms: u64) -> Result<GrantRecord, SqlitePersistenceError> {
    let mut revoked = begin_revoke(rows, id, now_ms)?;
    revoked.fingerprint = format!("{}:revoked", revoked.fingerprint);
    finish_revoke(rows, &revoked)?;
    Ok(revoked)
}

#[test]
fn issue_and_get_round_trip() {
    let mut rows: Vec<GrantRow> = Vec::new();
    let grant = grant_fixture(1, GOAL, 1_000);
    issue_grant(&mut rows, &grant).expect("issue");
    let restored = get_grant(&rows, grant.id).expect("get").expect("grant");
    assert_eq!(restored, grant);
    assert_eq!(rows[0].schema_version, ENCRYPTED_SCHEMA_VERSION);
    assert_eq!(rows[0].status, "active");
}

#[test]
fn active_lookup_returns_newest_unexpired() {
    let mut rows: Vec<GrantRow> = Vec::new();
    let older = grant_fixture(1, GOAL, 1_000);
    let mut newer = grant_fixture(2, GOAL, 2_000);
    newer.workspace_fingerprint = format!("sha256:{}", "b".repeat(64));
    issue_grant(&mut rows, &older).expect("issue older");
    issue_grant(&mut rows, &newer).expect("issue newer");
    let active = active_grant_for_goal(&rows, GOAL, 1_500).expect("active").expect("present");
    assert_eq!(active, newer);
}

#[test]
fn revoke_updates_payload_and_blocks_active_lookup() {
    let mut rows: Vec<GrantRow> = Vec::new();
    let grant = grant_fixture(1, GOAL, 1_000);
    issue_grant(&mut rows, &grant).expect("issue");
    let revoked = revoke(&mut rows, grant.id, 1_500).expect("revoke");
    assert_eq!(revoked.revoked_at_ms, Some(1_500));
    assert!(active_grant_for_goal(&rows, GOAL, 1_600).expect("active").is_none());
    let stored = get_grant(&rows, grant.id).expect("get").expect("grant");
    assert_eq!(stored, revoked);
    assert!(matches!(
        revoke(&mut rows, grant.id, 1_700),
        Err(SqlitePersistenceError::AuthorizationGrantAlreadyRevoked)
    ));
    assert!(matches!(
        revoke(&mut rows, 99, 1_700),
        Err(SqlitePersistenceError::AuthorizationGrantNotFound)
    ));
}

#[test]
fn expired_grant_is_not_active() {
    let mut rows: Vec<GrantRow> = Vec::new();
    let mut grant = grant_fixture(1, GOAL, 1_000);
    grant.expires_at_ms = Some(2_000);
    issue_grant(&mut rows, &grant).expect("issue");
    assert!(active_grant_for_goal(&rows, GOAL, 2_000).expect("boundary").is_none());
    assert_eq!(
        active_grant_for_goal(&rows, GOAL, 1_999).expect("before expiry").expect("active"),
        grant
    );
    assert_eq!(list_grants_for_goal(&rows, GOAL, 10).expect("list").as_slice(), &[grant]);
}

#[test]
fn fingerprint_uniqueness_is_enforced() {
    let mut rows: Vec<GrantRow> = Vec::new();
    let grant = grant_fixture(1, GOAL, 1_000);
    issue_grant(&mut rows, &grant).expect("issue");
    assert!(matches!(
        issue_grant(&mut rows, &grant),
        Err(SqlitePersistenceError::AuthorizationGrantConflict)
    ));
    let mut same_fingerprint = grant_fixture(2, GOAL, 1_000);
    same_fingerprint.fingerprint = grant.fingerprint.clone();
    assert_eq!(
        issue_grant(&mut rows, &same_fingerprint),
        Err(SqlitePersistenceError::AuthorizationGrantConflict)
    );
    assert_eq!(rows.len(), 1);
}

#[test]
fn issue_refuses_revoked_or_unstorable_grants() {
    let mut rows: Vec<GrantRow> = Vec::new();
    let mut revoked = grant_fixture(1, GOAL, 1_000);
    revoked.revoked_at_ms = Some(1_100);
    assert_eq!(issue_grant(&mut rows, &revoked), Err(SqlitePersistenceError::InvalidAuthorizationGrant));
    let mut far = grant_fixture(2, GOAL, 1_000);
    far.expires_at_ms = Some(u64::MAX);
    assert_eq!(issue_grant(&mut rows, &far), Err(SqlitePersistenceError::InvalidAuthorizationGrant));
    assert_eq!(
        active_grant_for_goal(&rows, GOAL, u64::MAX),
        Err(SqlitePersistenceError::InvalidAuthorizationGrant)
    );
    assert!(rows.is_empty());
}

#[test]
fn invalid_grant_is_rejected() {
    let mut rows: Vec<GrantRow> = Vec::new();
    let mut grant = grant_fixture(1, GOAL, 1_000);
    grant.plan_revision = 0;
    assert_eq!(issue_grant(&mut rows, &grant), Err(SqlitePersistenceError::InvalidAuthorizationGrant));
    assert!(rows.is_empty());
    grant.plan_revision = 2;
    assert_eq!(issue_grant(&mut rows, &grant), Ok(()));
}

#[test]
fn listing_is_newest_first_and_clamped() {
    let mut rows: Vec<GrantRow> = Vec::new();
    for (id, at) in [(1_u128, 1_000_u64), (2, 3_000), (3, 2_000)] {
        issue_grant(&mut rows, &grant_fixture(id, GOAL, at)).expect("issue");
    }
    issue_grant(&mut rows, &grant_fixture(4, GOAL + 1, 5_000)).expect("other goal");
    let ids: Vec<u128> = list_grants_for_goal(&rows, GOAL, 0).expect("list").iter().map(|g| g.id).collect();
    assert_eq!(ids, vec![2]);
    let ids: Vec<u128> = list_grants_for_goal(&rows, GOAL, 1_000).expect("list").iter().map(|g| g.id).collect();
    assert_eq!(ids, vec![2, 3, 1]);
}

#[test]
fn stored_grants_are_checked_against_their_columns() {
    let mut rows: Vec<GrantRow> = Vec::new();
    issue_grant(&mut rows, &grant_fixture(1, GOAL, 1_000)).expect("issue");
    rows[0].schema_version = 3;
    assert_eq!(
        decode_grant(&rows[0]),
        Err(SqlitePersistenceError::UnsupportedAuthorizationGrantVersion(3))
    );
    rows[0].schema_version = 1;
    assert!(decode_grant(&rows[0]).is_ok());
    rows[0].status = "revoked".to_owned();
    assert_eq!(get_grant(&rows, 1), Err(SqlitePersistenceError::InvalidAuthorizationGrant));
}
