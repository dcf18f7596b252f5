use nimora_core::approvals::{
    claim_skill, finish_skill, insert_skill_approval, list_pending_skill_approvals,
    pending_skill_count, recover_skill, reject_skill, SkillApprovalRow, DUPLICATE_SKILL_APPROVAL,
    DUPLICATE_SKILL_EXECUTION,
};
use nimora_core::automation_approvals::{
    claim_automation, finish_automation, insert_automation_approval,
    list_pending_automation_approvals, pending_automation_count, recover_automation,
    AutomationApprovalRow,
};
use nimora_core::error::SqlitePersistenceError;
use nimora_core::journal_entries::{AutomationApprovalEntry, SkillApprovalJournalEntry};
use nimora_core::journals::{AutomationApprovalStatus, SkillApprovalJournalStatus};

fn skill_entry(approval_id: u128, execution_id: u128) -> SkillApprovalJournalEntry {
    SkillApprovalJournalEntry::new(
        approval_id,
        execution_id,
        "studio.example.focus",
        1_000,
        2_000,
        b"{\"commands\":[{\"id\":\"safe.profile.switch\"}]}".to_vec(),
    )
    .expect("valid entry")
}

fn automation_entry(approval_id: u128, run_id: u128) -> AutomationApprovalEntry {
    AutomationApprovalEntry::new(
        approval_id,
        run_id,
        "local.test.approval",
        100,
        200,
        b"{\"definitionVersion\":\"1.0.0\",\"actions\":[]}".to_vec(),
    )
    .expect("entry")
}

#[test]
fn claim_is_atomic_and_terminal_state_is_one_way() {
    let mut journal: Vec<SkillApprovalRow> = Vec::new();
    let entry = skill_entry(1, 2);
    insert_skill_approval(&mut journal, &entry).expect("insert");
    assert_eq!(claim_skill(&mut journal, entry.approval_id, 1_100).unwrap().plan, entry.plan);
    assert!(matches!(
        claim_skill(&mut journal, entry.approval_id, 1_101),
        Err(SqlitePersistenceError::SkillApprovalNotPending)
    ));
    finish_skill(&mut journal, entry.approval_id, SkillApprovalJournalStatus::Completed, 1_200, None)
        .expect("finish");
    assert!(matches!(
        finish_skill(&mut journal, entry.approval_id, SkillApprovalJournalStatus::Completed, 1_201, None),
        Err(SqlitePersistenceError::SkillApprovalNotPending)
    ));
}

#[test]
fn recovery_interrupts_claims_and_expires_only_stale_pending() {
    let mut journal: Vec<SkillApprovalRow> = Vec::new();
    let claimed = skill_entry(1, 2);
    insert_skill_approval(&mut journal, &claimed).expect("insert claimed");
    claim_skill(&mut journal, claimed.approval_id, 1_100).expect("claim");
    let mut expired = skill_entry(3, 4);
    expired.approval_id = 5;
    expired.execution_id = 6;
    insert_skill_approval(&mut journal, &expired).expect("insert expired");
    assert_eq!(recover_skill(&mut journal, 2_500).expect("recover"), 2);
    assert!(matches!(
        claim_skill(&mut journal, claimed.approval_id, 2_501),
        Err(SqlitePersistenceError::SkillApprovalNotPending)
    ));
    assert!(matches!(
        claim_skill(&mut journal, expired.approval_id, 2_501),
        Err(SqlitePersistenceError::SkillApprovalNotPending)
    ));
}

#[test]
fn claim_is_atomic_and_single_use() {
    let mut journal: Vec<AutomationApprovalRow> = Vec::new();
    let entry = automation_entry(1, 2);
    insert_automation_approval(&mut journal, &entry).expect("insert");
    assert_eq!(
        claim_automation(&mut journal, entry.approval_id, 150).expect("claim").status,
        AutomationApprovalStatus::Executing
    );
    assert!(matches!(
        claim_automation(&mut journal, entry.approval_id, 150),
        Err(SqlitePersistenceError::AutomationApprovalNotPending)
    ));
    finish_automation(&mut journal, entry.approval_id, AutomationApprovalStatus::Completed, 160, None)
        .expect("finish");
}

#[test]
fn recovery_expires_pending_and_interrupts_executing() {
    let mut journal: Vec<AutomationApprovalRow> = Vec::new();
    let expired = automation_entry(1, 2);
    insert_automation_approval(&mut journal, &expired).expect("expired insert");
    let mut executing = automation_entry(3, 4);
    executing.created_at_ms = 300;
    executing.updated_at_ms = 300;
    executing.expires_at_ms = 500;
    insert_automation_approval(&mut journal, &executing).expect("executing insert");
    claim_automation(&mut journal, executing.approval_id, 350).expect("claim");
    assert_eq!(recover_automation(&mut journal, 400).expect("recover"), 2);
    assert!(list_pending_automation_approvals(&journal, 400, 10).expect("pending").is_empty());
}

#[test]
fn pending_plans_are_counted_and_listed_oldest_first() {
    let mut journal: Vec<SkillApprovalRow> = Vec::new();
    let mut later = skill_entry(9, 10);
    later.created_at_ms = 1_500;
    later.updated_at_ms = 1_500;
    insert_skill_approval(&mut journal, &later).expect("later");
    insert_skill_approval(&mut journal, &skill_entry(7, 8)).expect("earlier");
    insert_skill_approval(&mut journal, &skill_entry(3, 4)).expect("earliest id");
    assert_eq!(pending_skill_count(&journal, 1_600), Ok(3));
    let ids: Vec<u128> = list_pending_skill_approvals(&journal, 1_600, 2)
        .expect("list")
        .iter()
        .map(|e| e.approval_id)
        .collect();
    assert_eq!(ids, vec![3, 7]);
    reject_skill(&mut journal, 7, 1_650).expect("reject");
    assert_eq!(pending_skill_count(&journal, 1_650), Ok(2));
    assert_eq!(pending_skill_count(&journal, 2_000), Ok(0));
    assert_eq!(
        list_pending_skill_approvals(&journal, 1_600, 0),
        Err(SqlitePersistenceError::InvalidSkillApprovalJournal)
    );
    assert_eq!(
        pending_skill_count(&journal, u64::MAX),
        Err(SqlitePersistenceError::InvalidSkillApprovalJournal)
    );
}

#[test]
fn inserts_are_once_per_identity_and_execution() {
    let mut journal: Vec<SkillApprovalRow> = Vec::new();
    insert_skill_approval(&mut journal, &skill_entry(1, 2)).expect("insert");
    match insert_skill_approval(&mut journal, &skill_entry(1, 5)) {
        Err(SqlitePersistenceError::Sqlite(message)) => assert_eq!(message, DUPLICATE_SKILL_APPROVAL),
        other => panic!("unexpected {:?}", other),
    }
    match insert_skill_approval(&mut journal, &skill_entry(6, 2)) {
        Err(SqlitePersistenceError::Sqlite(message)) => assert_eq!(message, DUPLICATE_SKILL_EXECUTION),
        other => panic!("unexpected {:?}", other),
    }
    let mut claimed = skill_entry(8, 9);
    claimed.status = SkillApprovalJournalStatus::Executing;
    assert_eq!(
        insert_skill_approval(&mut journal, &claimed),
        Err(SqlitePersistenceError::InvalidSkillApprovalJournal)
    );
    assert_eq!(journal.len(), 1);
    assert_eq!(
        claim_skill(&mut journal, 1, 2_000),
        Err(SqlitePersistenceError::SkillApprovalExpired)
    );
    assert_eq!(journal[0].status, SkillApprovalJournalStatus::Expired);
    let mut automation: Vec<AutomationApprovalRow> = Vec::new();
    insert_automation_approval(&mut automation, &automation_entry(1, 2)).expect("insert");
    assert_eq!(pending_automation_count(&automation, 150), Ok(1));
    assert_eq!(
        finish_automation(&mut automation, 1, AutomationApprovalStatus::Rejected, 160, None),
        Err(SqlitePersistenceError::InvalidAutomationApprovalJournal)
    );
    journal[0].schema_version = 2;
    assert_eq!(
        recover_skill(&mut journal, 3_000),
        Ok(0)
    );
}
