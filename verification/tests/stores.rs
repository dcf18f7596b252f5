use nimora_core::capabilities::{canonical_capabilities, canonical_skill_capabilities, sorted_distinct};
use nimora_core::error::SqlitePersistenceError;
use nimora_core::governance::{
    count_active_leases, day_committed_cost, governance_snapshot, RunLease,
    admit_run, check_daily_budget, check_existing_reservation, reconcile_cost, settlement_retry,
    snapshot_day_bucket, validate_indeterminate_mark, validate_page_limit, validate_settlement,
    AutomationCostEntry, AutomationCostReservation, AutomationRunAdmission,
    ReconcileAutomationCostRequest, ReservationStep, DAY_MS,
};
use nimora_core::hex::{app_local_default_key, encode_hex, key_from_hex};
use nimora_core::journal_entries::{
    validate_history, AutomationApprovalEntry, SkillApprovalJournalEntry,
    SkillExecutionHistoryRecord,
};
use nimora_core::journals::{
    AutomationCostReconciliationReason, AutomationCostStatus, AutomationApprovalStatus,
    SkillApprovalJournalStatus, SkillExecutionHistoryStatus,
};
use nimora_core::records::{AutomationGovernanceSnapshot, ProgramPermissionGrant, SkillStateRecord};

fn strings(items: &[&str]) -> Vec<String> {
    items.iter().map(|s| (*s).to_owned()).collect()
}

fn grant(capabilities: &[&str]) -> ProgramPermissionGrant {
    ProgramPermissionGrant {
        program_id: "program.a".into(),
        version: "1.0.0".into(),
        capabilities: strings(capabilities),
    }
}

fn skill(capabilities: &[&str], authorized: bool, enabled: bool) -> SkillStateRecord {
    SkillStateRecord {
        skill_id: "skill.notes".into(),
        version: "1.2.0".into(),
        capabilities: strings(capabilities),
        authorized,
        enabled,
    }
}

#[test]
fn capabilities_are_sorted_bytewise() {
    let sorted = canonical_capabilities(&grant(&["net", "fs.read", "Zeta", "é", "fs"])).expect("ok");
    assert_eq!(sorted, strings(&["Zeta", "fs", "fs.read", "net", "é"]));
    let again = canonical_capabilities(&ProgramPermissionGrant {
        capabilities: sorted.clone(),
        ..grant(&[])
    })
    .expect("ok");
    assert_eq!(again, sorted);
}

#[test]
fn duplicate_or_blank_capabilities_are_rejected() {
    assert_eq!(
        canonical_capabilities(&grant(&["net", "fs", "net"])),
        Err(SqlitePersistenceError::InvalidPermissionGrant)
    );
    assert_eq!(canonical_capabilities(&grant(&["net", " "])), Err(SqlitePersistenceError::InvalidPermissionGrant));
    let mut unnamed = grant(&["net"]);
    unnamed.program_id = "  ".into();
    assert_eq!(canonical_capabilities(&unnamed), Err(SqlitePersistenceError::InvalidPermissionGrant));
    assert_eq!(sorted_distinct(&strings(&["b", "a", "b"])), None);
    assert_eq!(sorted_distinct(&strings(&[])), Some(Vec::new()));
}

#[test]
fn skill_capabilities_follow_state_rules() {
    assert_eq!(
        canonical_skill_capabilities(&skill(&["b", "a"], true, true)),
        Ok(strings(&["a", "b"]))
    );
    assert_eq!(
        canonical_skill_capabilities(&skill(&["a"], false, true)),
        Err(SqlitePersistenceError::InvalidSkillState)
    );
    assert_eq!(
        canonical_skill_capabilities(&skill(&["a", "a"], true, false)),
        Err(SqlitePersistenceError::InvalidSkillState)
    );
    let long = "x".repeat(129);
    assert_eq!(
        canonical_skill_capabilities(&skill(&[long.as_str()], true, false)),
        Err(SqlitePersistenceError::InvalidSkillState)
    );
    let mut bad_id = skill(&["a"], true, true);
    bad_id.skill_id = "skill/notes".into();
    assert_eq!(canonical_skill_capabilities(&bad_id), Err(SqlitePersistenceError::InvalidSkillState));
}

fn admission(now: u64) -> AutomationRunAdmission {
    AutomationRunAdmission {
        run_id: 7,
        automation_id: "automation.focus".into(),
        max_concurrent_runs: 1,
        cooldown_ms: 1_000,
        daily_cost_budget_microunits: 500,
        now_ms: now,
        lease_expires_at_ms: now + 60_000,
    }
}

#[test]
fn admission_applies_concurrency_then_cooldown() {
    assert_eq!(admit_run(&admission(10_000), 0, None), Ok(()));
    assert_eq!(admit_run(&admission(10_000), 1, None), Err(SqlitePersistenceError::AutomationConcurrencyExceeded));
    assert_eq!(admit_run(&admission(10_500), 0, Some(10_000)), Err(SqlitePersistenceError::AutomationCooldownActive));
    assert_eq!(admit_run(&admission(11_000), 0, Some(10_000)), Ok(()));
    assert_eq!(admit_run(&admission(11_000), 0, Some(u64::MAX)), Err(SqlitePersistenceError::InvalidAutomationGovernance));
    let mut nil = admission(10_000);
    nil.run_id = 0;
    assert_eq!(admit_run(&nil, 0, None), Err(SqlitePersistenceError::InvalidAutomationGovernance));
    let mut expired = admission(10_000);
    expired.lease_expires_at_ms = 10_000;
    assert_eq!(admit_run(&expired, 0, None), Err(SqlitePersistenceError::InvalidAutomationGovernance));
}

fn reservation(now: u64, cost: u64) -> AutomationCostReservation {
    AutomationCostReservation { task_id: 1, run_id: 7, reserved_cost_microunits: cost, now_ms: now }
}

fn entry(status: AutomationCostStatus, day: u64, reserved: u64, actual: Option<u64>) -> AutomationCostEntry {
    AutomationCostEntry {
        task_id: 1,
        run_id: 7,
        automation_id: "automation.focus".into(),
        day_bucket: day,
        reserved_cost_microunits: reserved,
        actual_cost_microunits: actual,
        status,
        updated_at_ms: 5,
    }
}

#[test]
fn reservations_respect_the_daily_budget_and_repeat_idempotently() {
    let r = reservation(DAY_MS + 5, 200);
    assert_eq!(check_existing_reservation(r, &None), Ok(ReservationStep::CheckBudget));
    assert_eq!(check_daily_budget(r, Some(500), 300), Ok(1));
    assert_eq!(check_daily_budget(r, Some(500), 301), Err(SqlitePersistenceError::AutomationDailyCostBudgetExceeded));
    assert_eq!(check_daily_budget(r, None, 0), Err(SqlitePersistenceError::InvalidAutomationGovernance));
    assert_eq!(check_daily_budget(r, Some(u64::MAX), u64::MAX), Err(SqlitePersistenceError::InvalidAutomationGovernance));
    let recorded = Some(entry(AutomationCostStatus::Reserved, 1, 200, None));
    assert_eq!(check_existing_reservation(r, &recorded), Ok(ReservationStep::AlreadyReserved));
    let other = Some(entry(AutomationCostStatus::Reserved, 1, 300, None));
    assert_eq!(check_existing_reservation(r, &other), Err(SqlitePersistenceError::AutomationCostReservationConflict));
    let mut nil = r;
    nil.task_id = 0;
    assert_eq!(check_existing_reservation(nil, &None), Err(SqlitePersistenceError::InvalidAutomationGovernance));
}

#[test]
fn settlement_repeats_only_at_the_same_cost() {
    assert_eq!(validate_settlement(1, 100, 10), Ok(()));
    assert_eq!(validate_settlement(0, 100, 10), Err(SqlitePersistenceError::InvalidAutomationGovernance));
    assert_eq!(validate_settlement(1, u64::MAX, 10), Err(SqlitePersistenceError::InvalidAutomationGovernance));
    assert_eq!(validate_indeterminate_mark(1, u64::MAX), Err(SqlitePersistenceError::InvalidAutomationGovernance));
    let settled = Some(entry(AutomationCostStatus::Settled, 0, 200, Some(150)));
    assert_eq!(settlement_retry(&settled, 150), Ok(()));
    assert_eq!(settlement_retry(&settled, 151), Err(SqlitePersistenceError::AutomationCostReservationConflict));
    assert_eq!(settlement_retry(&None, 150), Err(SqlitePersistenceError::AutomationCostReservationConflict));
}

#[test]
fn reconciliation_resolves_only_unchanged_indeterminate_entries() {
    let request = ReconcileAutomationCostRequest {
        decision_id: 9,
        task_id: 1,
        expected_updated_at_ms: 5,
        actual_cost_microunits: 120,
        reason: AutomationCostReconciliationReason::BillingExport,
        decided_at_ms: 10,
    };
    let audit = reconcile_cost(&request, Some(entry(AutomationCostStatus::Indeterminate, 0, 200, None)))
        .expect("reconciled");
    assert_eq!(audit.run_id, 7);
    assert_eq!(audit.reserved_cost_microunits, 200);
    assert_eq!(audit.actual_cost_microunits, 120);
    assert_eq!(audit.automation_id, "automation.focus");
    assert_eq!(
        reconcile_cost(&request, Some(entry(AutomationCostStatus::Reserved, 0, 200, None))),
        Err(SqlitePersistenceError::AutomationCostReconciliationConflict)
    );
    assert_eq!(reconcile_cost(&request, None), Err(SqlitePersistenceError::AutomationCostReconciliationConflict));
    let mut early = request;
    early.decided_at_ms = 4;
    assert_eq!(
        reconcile_cost(&early, Some(entry(AutomationCostStatus::Indeterminate, 0, 200, None))),
        Err(SqlitePersistenceError::AutomationCostReconciliationConflict)
    );
}

#[test]
fn pages_and_snapshot_buckets_are_bounded() {
    assert!(validate_page_limit(0).is_err());
    assert!(validate_page_limit(1).is_ok());
    assert!(validate_page_limit(200).is_ok());
    assert!(validate_page_limit(201).is_err());
    assert_eq!(snapshot_day_bucket("automation.focus", DAY_MS), Ok(1));
    assert_eq!(snapshot_day_bucket("", DAY_MS), Err(SqlitePersistenceError::InvalidAutomationGovernance));
    assert_eq!(snapshot_day_bucket("a", u64::MAX), Err(SqlitePersistenceError::InvalidAutomationGovernance));
}

#[test]
fn approval_entries_are_pending_and_bounded() {
    let e = AutomationApprovalEntry::new(1, 2, "automation.focus", 10, 20, b"{}".to_vec()).expect("entry");
    assert_eq!(e.status, AutomationApprovalStatus::Pending);
    assert_eq!(e.updated_at_ms, 10);
    assert!(AutomationApprovalEntry::new(0, 2, "a", 10, 20, b"{}".to_vec()).is_err());
    assert!(AutomationApprovalEntry::new(1, 2, "a", 10, 10, b"{}".to_vec()).is_err());
    assert!(AutomationApprovalEntry::new(1, 2, " ", 10, 20, b"{}".to_vec()).is_err());
    assert_eq!(
        AutomationApprovalEntry::new(1, 2, "a", 10, 20, vec![b'1'; 524_289]),
        Err(SqlitePersistenceError::InvalidAutomationApprovalJournal)
    );
    let s = SkillApprovalJournalEntry::new(1, 2, "skill.notes", 10, 20, b"[]".to_vec()).expect("entry");
    assert_eq!(s.status, SkillApprovalJournalStatus::Pending);
    assert_eq!(
        SkillApprovalJournalEntry::new(1, 0, "skill.notes", 10, 20, b"[]".to_vec()),
        Err(SqlitePersistenceError::InvalidSkillApprovalJournal)
    );
}

#[test]
fn execution_history_keeps_errors_for_failures_only() {
    let failed = SkillExecutionHistoryRecord::new(
        3,
        "skill.notes",
        SkillExecutionHistoryStatus::Failed,
        2,
        1,
        10,
        12,
        Some("timeout".into()),
    )
    .expect("record");
    assert_eq!(validate_history(&failed), Ok(()));
    assert_eq!(
        SkillExecutionHistoryRecord::new(3, "skill.notes", SkillExecutionHistoryStatus::Completed, 2, 1, 10, 12, Some("x".into())),
        Err(SqlitePersistenceError::InvalidSkillExecutionHistory)
    );
    assert!(SkillExecutionHistoryRecord::new(3, "skill.notes", SkillExecutionHistoryStatus::Failed, 0, 0, 10, 12, Some(String::new())).is_err());
    assert!(SkillExecutionHistoryRecord::new(3, "skill.notes", SkillExecutionHistoryStatus::Completed, 0, 0, 12, 10, None).is_err());
    assert!(SkillExecutionHistoryRecord::new(3, "skill.notes", SkillExecutionHistoryStatus::Completed, usize::MAX, 0, 10, 12, None).is_err());
}

#[test]
fn keys_round_trip_through_hex() {
    let key = app_local_default_key();
    assert_eq!(&key[..6], b"nimora");
    let text = encode_hex(&key);
    assert_eq!(text.len(), 64);
    assert_eq!(key_from_hex(&text, SqlitePersistenceError::ContextCacheEncryption), Ok(key.to_vec()));
    assert_eq!(
        key_from_hex(&text[..62], SqlitePersistenceError::ContextCacheEncryption),
        Err(SqlitePersistenceError::ContextCacheEncryption)
    );
    assert_eq!(
        key_from_hex(&text.to_uppercase(), SqlitePersistenceError::AuthorizationGrantEncryption),
        Err(SqlitePersistenceError::AuthorizationGrantEncryption)
    );
}

fn lease(run_id: u128, automation_id: &str, expires_at_ms: u64) -> RunLease {
    RunLease { run_id, automation_id: automation_id.into(), acquired_at_ms: 100, expires_at_ms, daily_cost_budget_microunits: 500 }
}

#[test]
fn snapshot_separates_active_reserved_settled_and_indeterminate_costs() {
    let leases = vec![lease(7, "automation.focus", 1_100), lease(8, "automation.other", 1_100)];
    let entries = vec![
        entry(AutomationCostStatus::Settled, 0, 40, Some(15)),
        entry(AutomationCostStatus::Indeterminate, 0, 30, None),
        entry(AutomationCostStatus::Reserved, 0, 20, None),
    ];
    assert_eq!(
        governance_snapshot("automation.focus", 106, &leases, Some(100), &entries),
        Ok(AutomationGovernanceSnapshot {
            active_runs: 1,
            last_started_at_ms: Some(100),
            reserved_cost_microunits: 20,
            settled_cost_microunits: 15,
            indeterminate_cost_microunits: 30,
            indeterminate_cost_count: 1,
        })
    );
    assert_eq!(
        governance_snapshot("automation.focus", DAY_MS, &leases, Some(100), &entries),
        Ok(AutomationGovernanceSnapshot {
            active_runs: 0,
            last_started_at_ms: Some(100),
            reserved_cost_microunits: 0,
            settled_cost_microunits: 0,
            indeterminate_cost_microunits: 0,
            indeterminate_cost_count: 0,
        })
    );
    assert_eq!(
        governance_snapshot("", 106, &leases, None, &entries),
        Err(SqlitePersistenceError::InvalidAutomationGovernance)
    );
}

#[test]
fn committed_cost_counts_settled_actuals_and_other_reservations() {
    let entries = vec![
        entry(AutomationCostStatus::Settled, 0, 40, Some(15)),
        entry(AutomationCostStatus::Indeterminate, 0, 30, None),
        entry(AutomationCostStatus::Reserved, 0, 20, None),
        entry(AutomationCostStatus::Reserved, 1, 99, None),
    ];
    assert_eq!(day_committed_cost(&entries, "automation.focus", 0), Ok(65));
    assert_eq!(day_committed_cost(&entries, "automation.focus", 1), Ok(99));
    assert_eq!(day_committed_cost(&entries, "automation.other", 0), Ok(0));
    let huge = vec![
        entry(AutomationCostStatus::Reserved, 0, i64::MAX as u64, None),
        entry(AutomationCostStatus::Reserved, 0, 1, None),
    ];
    assert!(matches!(
        day_committed_cost(&huge, "automation.focus", 0),
        Err(SqlitePersistenceError::Sqlite(message)) if message == "integer overflow"
    ));
}

#[test]
fn active_leases_are_unexpired_leases_of_the_automation() {
    let leases = vec![
        lease(1, "automation.focus", 200),
        lease(2, "automation.focus", 150),
        lease(3, "automation.other", 300),
    ];
    assert_eq!(count_active_leases(&leases, "automation.focus", 149), 2);
    assert_eq!(count_active_leases(&leases, "automation.focus", 150), 1);
    assert_eq!(count_active_leases(&leases, "automation.focus", 200), 0);
}
