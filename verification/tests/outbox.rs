use nimora_core::error::SqlitePersistenceError;
use nimora_core::journal_entries::{
    claim_automation_approval, claim_skill_approval, finish_automation_approval,
    finish_skill_approval, recover_automation_approval, recover_skill_approval,
    reject_skill_approval, validate_pending_page, AutomationApprovalEntry,
    SkillApprovalJournalEntry,
};
use nimora_core::journals::{AutomationApprovalStatus, SkillApprovalJournalStatus};
use nimora_core::records::OutboxSnapshot;
use nimora_core::outbox::{
    acknowledge_entry, claim_due, claim_entry, claim_lease_until, fail_available_at, fail_entry,
    is_claimable, outbox_snapshot, outbox_status_name, purge_delivered, select_claimable,
    select_purgeable, validate_ack_request,
    validate_purge_request, OutboxEntry, OutboxStatus, MAX_OUTBOX_BATCH,
};

fn pending(id: &str) -> OutboxEntry {
    OutboxEntry {
        event_id: id.into(),
        created_at: "2024-05-01 12:00:00".into(),
        status: OutboxStatus::Pending,
        available_at_ms: 0,
        delivery_attempts: 0,
        lease_owner: None,
        lease_until_ms: None,
        delivered_at_ms: None,
        last_error: None,
    }
}

/// Claims up to `limit` due events of `queue` for `consumer`; the attempts handed out.
fn claim(queue: &mut Vec<OutboxEntry>, consumer: &str, now: i64, lease: u64, limit: usize) -> Vec<u32> {
    claim_due(queue, consumer, now, lease, limit).expect("claim").iter().map(|c| c.attempt).collect()
}

fn ack(queue: &mut [OutboxEntry], consumer: &str, at: i64) -> Result<(), SqlitePersistenceError> {
    validate_ack_request(consumer, &queue[0].event_id, at)?;
    queue[0] = acknowledge_entry(Some(queue[0].clone()), consumer, at)?;
    Ok(())
}

fn fail(queue: &mut [OutboxEntry], consumer: &str, now: i64, retry: u64, max: u32, error: &str) -> bool {
    let at = fail_available_at(consumer, &queue[0].event_id, now, retry, max, error).expect("fail request");
    let (next, dead) = fail_entry(Some(queue[0].clone()), consumer, now, at, max, error).expect("owned");
    queue[0] = next;
    dead
}

#[test]
fn outbox_claim_ack_and_purge_are_bounded_and_owned() {
    let mut queue = vec![pending("idle"), pending("sleeping")];
    assert_eq!(claim(&mut queue, "connector.audit", 1_000, 500, 1), vec![1]);
    assert_eq!(queue[0].lease_until_ms, Some(1_500));
    assert_eq!(queue[1].status, OutboxStatus::Pending);
    assert_eq!(ack(&mut queue, "connector.other", 1_100), Err(SqlitePersistenceError::OutboxLeaseNotOwned));
    assert_eq!(ack(&mut queue, "connector.audit", 1_100), Ok(()));
    assert_eq!(queue[0].status, OutboxStatus::Delivered);
    assert_eq!(queue[0].delivered_at_ms, Some(1_100));
    assert_eq!(queue[0].lease_owner, None);
    assert!(!is_claimable(&queue[0], i64::MAX));
    assert_eq!(
        outbox_snapshot(&queue),
        OutboxSnapshot { pending: 1, leased: 0, delivered: 1, dead_letter: 0 }
    );
    assert_eq!(purge_delivered(&mut queue, 1_101, 1), Ok(1));
    assert_eq!(outbox_snapshot(&queue).delivered, 0);
    assert_eq!(queue.len(), 1);
}

#[test]
fn purge_takes_the_oldest_deliveries_before_the_cut_off() {
    let mut queue = vec![pending("c"), pending("b"), pending("a"), pending("d"), pending("e")];
    for (i, at) in [(0, 30), (1, 10), (2, 10), (3, 50)] {
        queue[i].status = OutboxStatus::Delivered;
        queue[i].delivered_at_ms = Some(at);
    }
    // Delivered before 50: c at 30, b and a at 10; a precedes b by id.
    assert_eq!(select_purgeable(&queue, 50, 2), vec![2, 1]);
    assert_eq!(select_purgeable(&queue, 50, 5), vec![2, 1, 0]);
    assert_eq!(purge_delivered(&mut queue, 50, 2), Ok(2));
    let ids: Vec<&str> = queue.iter().map(|e| e.event_id.as_str()).collect();
    assert_eq!(ids, vec!["c", "d", "e"]);
    assert_eq!(purge_delivered(&mut queue, 10, 5), Ok(0));
    assert_eq!(purge_delivered(&mut queue, -1, 5), Err(SqlitePersistenceError::InvalidOutboxRequest));
    assert_eq!(purge_delivered(&mut queue, 100, 0), Err(SqlitePersistenceError::InvalidOutboxRequest));
    assert_eq!(queue.len(), 3);
}

#[test]
fn outbox_expired_lease_is_reclaimed_without_stale_ack() {
    let mut queue = vec![pending("working")];
    claim(&mut queue, "connector.first", 2_000, 100, 1);
    assert_eq!(ack(&mut queue, "connector.first", 2_100), Err(SqlitePersistenceError::OutboxLeaseNotOwned));
    assert_eq!(claim(&mut queue, "connector.second", 2_100, 100, 1), vec![2]);
    assert_eq!(ack(&mut queue, "connector.first", 2_150), Err(SqlitePersistenceError::OutboxLeaseNotOwned));
    assert_eq!(ack(&mut queue, "connector.second", 2_150), Ok(()));
}

#[test]
fn outbox_failure_retries_after_delay_then_dead_letters() {
    let mut queue = vec![pending("sleeping")];
    claim(&mut queue, "connector.audit", 3_000, 500, 1);
    assert!(!fail(&mut queue, "connector.audit", 3_100, 250, 2, "temporary"));
    assert_eq!(queue[0].status, OutboxStatus::Pending);
    assert_eq!(queue[0].last_error.as_deref(), Some("temporary"));
    assert!(claim(&mut queue, "connector.audit", 3_349, 500, 1).is_empty());
    assert_eq!(claim(&mut queue, "connector.audit", 3_350, 500, 1), vec![2]);
    assert!(fail(&mut queue, "connector.audit", 3_400, 250, 2, "permanent"));
    assert_eq!(queue[0].status, OutboxStatus::DeadLetter);
    assert_eq!(outbox_status_name(queue[0].status), "dead-letter");
    assert!(claim(&mut queue, "connector.audit", 4_000, 500, 1).is_empty());
}

#[test]
fn outbox_rejects_unbounded_or_ambiguous_requests() {
    assert_eq!(claim_lease_until("", 0, 1, 1), Err(SqlitePersistenceError::InvalidOutboxRequest));
    assert_eq!(claim_lease_until("connector/audit", 0, 1, 1), Err(SqlitePersistenceError::InvalidOutboxRequest));
    assert_eq!(
        claim_lease_until("connector.audit", 0, 1, MAX_OUTBOX_BATCH + 1),
        Err(SqlitePersistenceError::InvalidOutboxRequest)
    );
    assert_eq!(claim_lease_until("connector.audit", i64::MAX, 1, 1), Err(SqlitePersistenceError::InvalidOutboxRequest));
    assert_eq!(validate_purge_request(0, 0), Err(SqlitePersistenceError::InvalidOutboxRequest));
    assert_eq!(validate_purge_request(0, 1), Ok(()));
    assert_eq!(
        fail_available_at("connector.audit", "e", 0, 1, 0, "x"),
        Err(SqlitePersistenceError::InvalidOutboxRequest)
    );
    assert_eq!(
        fail_available_at("connector.audit", "e", 0, 1, 1, ""),
        Err(SqlitePersistenceError::InvalidOutboxRequest)
    );
    assert_eq!(validate_ack_request("connector.audit", " ", 0), Err(SqlitePersistenceError::InvalidOutboxRequest));
}

#[test]
fn claims_take_the_oldest_due_events_first() {
    let mut queue = vec![pending("a"), pending("b"), pending("c"), pending("d")];
    queue[1].available_at_ms = 50;
    queue[2].status = OutboxStatus::Delivered;
    assert_eq!(select_claimable(&queue, 10, 2), vec![0, 3]);
    assert_eq!(select_claimable(&queue, 50, 2), vec![0, 1]);
    assert_eq!(select_claimable(&queue, 50, 0), Vec::<usize>::new());
}

#[test]
fn claims_follow_creation_time_then_event_id() {
    let mut queue = vec![pending("e-3"), pending("e-1"), pending("e-2"), pending("e-0")];
    queue[0].created_at = "2024-05-01 11:59:59".into();
    queue[3].created_at = "2024-05-01 12:00:01".into();
    // e-3 was written first; e-1 and e-2 share a second and go by id; e-0 is last.
    assert_eq!(select_claimable(&queue, 0, 4), vec![0, 1, 2, 3]);
    assert_eq!(select_claimable(&queue, 0, 2), vec![0, 1]);
    queue[1].available_at_ms = 10;
    assert_eq!(select_claimable(&queue, 0, 2), vec![0, 2]);
    assert_eq!(select_claimable(&queue, 10, 3), vec![0, 1, 2]);
}

#[test]
fn claims_lease_in_order_and_refuse_overflow_whole() {
    let mut queue = vec![pending("e-2"), pending("e-1"), pending("e-3")];
    queue[2].created_at = "2024-05-01 11:00:00".into();
    let claims = claim_due(&mut queue, "connector.audit", 100, 50, 2).expect("claim");
    let ids: Vec<&str> = claims.iter().map(|c| c.event_id.as_str()).collect();
    assert_eq!(ids, vec!["e-3", "e-1"]);
    assert!(claims.iter().all(|c| c.attempt == 1 && c.lease_until_ms == 150));
    assert_eq!(queue[2].status, OutboxStatus::Leased);
    assert_eq!(queue[2].lease_owner.as_deref(), Some("connector.audit"));
    assert_eq!(queue[1].lease_until_ms, Some(150));
    assert_eq!(queue[0].status, OutboxStatus::Pending);

    let mut full = vec![pending("a"), pending("b")];
    full[1].delivery_attempts = u32::MAX;
    let before = full.clone();
    assert_eq!(claim_due(&mut full, "connector.audit", 100, 50, 2), Err(SqlitePersistenceError::InvalidOutboxRequest));
    assert_eq!(full, before);
    assert_eq!(claim_due(&mut full, "connector audit", 100, 50, 1), Err(SqlitePersistenceError::InvalidOutboxRequest));
    assert_eq!(claim_due(&mut full, "connector.audit", 100, 50, 1).expect("claim").len(), 1);
}

#[test]
fn claim_order_ignores_vector_position() {
    let mut queue = vec![pending("b"), pending("a")];
    assert_eq!(select_claimable(&queue, 0, 1), vec![1]);
    queue[1].created_at = "2024-05-01 12:00:02".into();
    assert_eq!(select_claimable(&queue, 0, 2), vec![0, 1]);
}

fn skill_entry() -> SkillApprovalJournalEntry {
    SkillApprovalJournalEntry::new(1, 2, "skill.notes", 10, 100, b"{}".to_vec()).expect("entry")
}

fn automation_entry() -> AutomationApprovalEntry {
    AutomationApprovalEntry::new(1, 2, "automation.focus", 10, 100, b"{}".to_vec()).expect("entry")
}

#[test]
fn approval_claims_are_single_use() {
    let (write, result) = claim_skill_approval(Some(skill_entry()), 20);
    assert_eq!(result, Ok(()));
    let claimed = write.expect("written");
    assert_eq!(claimed.status, SkillApprovalJournalStatus::Executing);
    assert_eq!(claimed.updated_at_ms, 20);
    assert_eq!(
        claim_skill_approval(Some(claimed.clone()), 21),
        (None, Err(SqlitePersistenceError::SkillApprovalNotPending))
    );
    assert_eq!(
        reject_skill_approval(Some(claimed.clone()), 21),
        (None, Err(SqlitePersistenceError::SkillApprovalNotPending))
    );
    assert_eq!(claim_skill_approval(None, 21), (None, Err(SqlitePersistenceError::SkillApprovalNotPending)));
    let done = finish_skill_approval(Some(claimed.clone()), SkillApprovalJournalStatus::Completed, 30, None).expect("done");
    assert_eq!(done.status, SkillApprovalJournalStatus::Completed);
    assert_eq!(
        finish_skill_approval(Some(done), SkillApprovalJournalStatus::Failed, 31, Some("x".into())),
        Err(SqlitePersistenceError::SkillApprovalNotPending)
    );
    assert_eq!(
        finish_skill_approval(Some(claimed.clone()), SkillApprovalJournalStatus::Completed, 30, Some("x".into())),
        Err(SqlitePersistenceError::InvalidSkillApprovalJournal)
    );
    assert_eq!(
        finish_skill_approval(Some(claimed), SkillApprovalJournalStatus::Expired, 30, None),
        Err(SqlitePersistenceError::InvalidSkillApprovalJournal)
    );
}

#[test]
fn expired_approvals_are_marked_on_access() {
    let (write, result) = claim_skill_approval(Some(skill_entry()), 100);
    assert_eq!(result, Err(SqlitePersistenceError::SkillApprovalExpired));
    assert_eq!(write.expect("written").status, SkillApprovalJournalStatus::Expired);
    let (write, result) = claim_automation_approval(Some(automation_entry()), 150);
    assert_eq!(result, Err(SqlitePersistenceError::AutomationApprovalExpired));
    assert_eq!(write.expect("written").status, AutomationApprovalStatus::Expired);
}

#[test]
fn entry_recovery_interrupts_claims_and_expires_stale_pending() {
    assert_eq!(recover_skill_approval(skill_entry(), 99), None);
    assert_eq!(recover_skill_approval(skill_entry(), 100).map(|e| e.status), Some(SkillApprovalJournalStatus::Expired));
    let (write, _) = claim_skill_approval(Some(skill_entry()), 20);
    let claimed = write.expect("claimed");
    assert_eq!(recover_skill_approval(claimed, 40).map(|e| e.status), Some(SkillApprovalJournalStatus::Interrupted));
    let (write, _) = claim_automation_approval(Some(automation_entry()), 20);
    let claimed = write.expect("claimed");
    let interrupted = recover_automation_approval(claimed.clone(), 40).expect("interrupted");
    assert_eq!(interrupted.status, AutomationApprovalStatus::Interrupted);
    assert_eq!(recover_automation_approval(interrupted, 500), None);
    let finished = finish_automation_approval(Some(claimed), AutomationApprovalStatus::Failed, 50, Some("boom".into()))
        .expect("finished");
    assert_eq!(finished.error.as_deref(), Some("boom"));
    assert_eq!(validate_pending_page(0), Err(SqlitePersistenceError::InvalidAutomationApprovalJournal));
    assert_eq!(validate_pending_page(256), Ok(()));
}

#[test]
fn snapshot_counts_events_per_delivery_state() {
    let mut entries = vec![pending("a"), pending("b"), pending("c"), pending("d")];
    entries[1].status = OutboxStatus::Leased;
    entries[2].status = OutboxStatus::DeadLetter;
    entries[3].status = OutboxStatus::Leased;
    let snapshot = outbox_snapshot(&entries);
    assert_eq!(
        (snapshot.pending, snapshot.leased, snapshot.delivered, snapshot.dead_letter),
        (1, 2, 0, 1)
    );
}
