use nimora_core::error::SqlitePersistenceError;
use nimora_core::governance::{
    mark_entry_indeterminate, recover_governance, reserve_cost, settle_entry, start_run,
    AutomationCostEntry, AutomationCostReservation, AutomationRunAdmission, GovernanceState,
    RunLease, DUPLICATE_RUN_LEASE,
};
use nimora_core::journals::AutomationCostStatus;

const AUTOMATION: &str = "automation.focus";

/// The governance rows of one store.
#[derive(Default)]
struct Ledger {
    entries: Vec<AutomationCostEntry>,
    leases: Vec<RunLease>,
    states: Vec<GovernanceState>,
}

fn admission(run_id: u128, now_ms: u64) -> AutomationRunAdmission {
    AutomationRunAdmission {
        run_id,
        automation_id: AUTOMATION.to_owned(),
        max_concurrent_runs: 1,
        cooldown_ms: 0,
        daily_cost_budget_microunits: 100,
        now_ms,
        lease_expires_at_ms: now_ms + 1_000,
    }
}

impl Ledger {
    fn start_run(&mut self, admission: &AutomationRunAdmission) -> Result<(), SqlitePersistenceError> {
        start_run(&mut self.leases, &mut self.states, admission)
    }

    fn release(&mut self, run_id: u128) -> bool {
        let before = self.leases.len();
        self.leases.retain(|lease| lease.run_id != run_id);
        self.leases.len() + 1 == before
    }

    fn find(&self, task_id: u128) -> Option<usize> {
        self.entries.iter().position(|entry| entry.task_id == task_id)
    }

    fn reserve(&mut self, reservation: AutomationCostReservation) -> Result<(), SqlitePersistenceError> {
        reserve_cost(&mut self.entries, &self.leases, reservation)
    }

    fn settle(&mut self, task_id: u128, actual: u64, now_ms: u64) -> Result<(), SqlitePersistenceError> {
        let i = self.find(task_id).ok_or(SqlitePersistenceError::AutomationCostReservationConflict)?;
        self.entries[i] = settle_entry(&self.entries[i], actual, now_ms)?;
        Ok(())
    }

    fn mark_indeterminate(&mut self, task_id: u128, now_ms: u64) -> Result<(), SqlitePersistenceError> {
        let i = self.find(task_id).ok_or(SqlitePersistenceError::AutomationCostReservationConflict)?;
        self.entries[i] = mark_entry_indeterminate(&self.entries[i], now_ms)?;
        Ok(())
    }

    fn recover(&mut self, now_ms: u64) -> Result<u64, SqlitePersistenceError> {
        recover_governance(&mut self.entries, &mut self.leases, now_ms)
    }

    fn get(&self, task_id: u128) -> AutomationCostEntry {
        self.entries[self.find(task_id).expect("entry")].clone()
    }
}

fn reservation(task_id: u128, run_id: u128, cost: u64, now_ms: u64) -> AutomationCostReservation {
    AutomationCostReservation { task_id, run_id, reserved_cost_microunits: cost, now_ms }
}

#[test]
fn concurrency_and_cooldown_are_fail_closed() {
    let mut store = Ledger::default();
    store.start_run(&admission(1, 100)).expect("first");
    assert_eq!(store.start_run(&admission(2, 101)), Err(SqlitePersistenceError::AutomationConcurrencyExceeded));
    store.recover(1_100).expect("recover");
    let mut cooled = admission(2, 1_100);
    cooled.cooldown_ms = 2_000;
    assert_eq!(store.start_run(&cooled), Err(SqlitePersistenceError::AutomationCooldownActive));
}

#[test]
fn reservation_is_replaced_by_actual_cost() {
    let mut store = Ledger::default();
    store.start_run(&admission(1, 100)).expect("run");
    store.reserve(reservation(10, 1, 80, 101)).expect("reserve");
    store.settle(10, 30, 102).expect("settle");
    let entry = store.get(10);
    assert_eq!(entry.status, AutomationCostStatus::Settled);
    assert_eq!(entry.actual_cost_microunits, Some(30));
}

#[test]
fn indeterminate_cost_keeps_the_full_reservation() {
    let mut store = Ledger::default();
    store.start_run(&admission(1, 100)).expect("run");
    store.reserve(reservation(10, 1, 80, 101)).expect("reserve");
    store.mark_indeterminate(10, 102).expect("indeterminate");
    assert!(store.release(1));
    store.start_run(&admission(2, 103)).expect("next run");
    assert_eq!(
        store.reserve(reservation(11, 2, 30, 104)),
        Err(SqlitePersistenceError::AutomationDailyCostBudgetExceeded)
    );
}

#[test]
fn actual_cost_cannot_exceed_reservation() {
    let mut store = Ledger::default();
    store.start_run(&admission(1, 100)).expect("run");
    store.reserve(reservation(10, 1, 10, 101)).expect("reserve");
    assert_eq!(store.settle(10, 11, 102), Err(SqlitePersistenceError::AutomationCostReservationConflict));
    assert_eq!(store.get(10).status, AutomationCostStatus::Reserved);
}

#[test]
fn restart_marks_unknown_cost_and_releases_all_process_leases() {
    let mut store = Ledger::default();
    store.start_run(&admission(1, 100)).expect("run");
    store.reserve(reservation(10, 1, 80, 101)).expect("reserve");
    assert_eq!(store.recover(102), Ok(1));
    assert_eq!(store.get(10).status, AutomationCostStatus::Indeterminate);
    store.start_run(&admission(2, 103)).expect("new process run");
}

fn entry(status: AutomationCostStatus, reserved: u64, actual: Option<u64>, updated_at_ms: u64) -> AutomationCostEntry {
    AutomationCostEntry {
        task_id: 10,
        run_id: 1,
        automation_id: AUTOMATION.to_owned(),
        day_bucket: 0,
        reserved_cost_microunits: reserved,
        actual_cost_microunits: actual,
        status,
        updated_at_ms,
    }
}

#[test]
fn settlement_needs_a_current_covering_reservation() {
    let reserved = entry(AutomationCostStatus::Reserved, 50, None, 100);
    let settled = settle_entry(&reserved, 50, 100).expect("settle at the reservation");
    assert_eq!(settled, entry(AutomationCostStatus::Settled, 50, Some(50), 100));
    assert_eq!(settle_entry(&reserved, 20, 99), Err(SqlitePersistenceError::AutomationCostReservationConflict));
    assert_eq!(settle_entry(&settled, 50, 200), Ok(settled.clone()));
    assert_eq!(settle_entry(&settled, 40, 200), Err(SqlitePersistenceError::AutomationCostReservationConflict));
    let unknown = entry(AutomationCostStatus::Indeterminate, 50, None, 100);
    assert_eq!(settle_entry(&unknown, 10, 200), Err(SqlitePersistenceError::AutomationCostReservationConflict));
    let mut nil = reserved.clone();
    nil.task_id = 0;
    assert_eq!(settle_entry(&nil, 10, 200), Err(SqlitePersistenceError::InvalidAutomationGovernance));
    assert_eq!(settle_entry(&reserved, u64::MAX, 200), Err(SqlitePersistenceError::InvalidAutomationGovernance));
}

#[test]
fn only_current_reservations_become_indeterminate() {
    let reserved = entry(AutomationCostStatus::Reserved, 50, None, 100);
    assert_eq!(
        mark_entry_indeterminate(&reserved, 150),
        Ok(entry(AutomationCostStatus::Indeterminate, 50, None, 150))
    );
    assert_eq!(mark_entry_indeterminate(&reserved, 99), Err(SqlitePersistenceError::AutomationCostReservationConflict));
    let settled = entry(AutomationCostStatus::Settled, 50, Some(5), 100);
    assert_eq!(mark_entry_indeterminate(&settled, 150), Err(SqlitePersistenceError::AutomationCostReservationConflict));
    assert_eq!(mark_entry_indeterminate(&reserved, u64::MAX), Err(SqlitePersistenceError::InvalidAutomationGovernance));
}

#[test]
fn recovery_keeps_later_and_resolved_entries() {
    let mut entries = vec![
        entry(AutomationCostStatus::Reserved, 50, None, 100),
        entry(AutomationCostStatus::Reserved, 60, None, 300),
        entry(AutomationCostStatus::Settled, 70, Some(7), 100),
    ];
    let mut leases = vec![
        RunLease { run_id: 1, automation_id: AUTOMATION.to_owned(), acquired_at_ms: 0, expires_at_ms: 10, daily_cost_budget_microunits: 100 },
        RunLease { run_id: 2, automation_id: "automation.other".to_owned(), acquired_at_ms: 0, expires_at_ms: 900, daily_cost_budget_microunits: 100 },
    ];
    assert_eq!(recover_governance(&mut entries, &mut leases, 200), Ok(2));
    assert!(leases.is_empty());
    assert_eq!(entries[0], entry(AutomationCostStatus::Indeterminate, 50, None, 200));
    assert_eq!(entries[1], entry(AutomationCostStatus::Reserved, 60, None, 300));
    assert_eq!(entries[2], entry(AutomationCostStatus::Settled, 70, Some(7), 100));
    let before = entries.clone();
    let mut more = vec![RunLease { run_id: 3, automation_id: AUTOMATION.to_owned(), acquired_at_ms: 0, expires_at_ms: 1, daily_cost_budget_microunits: 100 }];
    assert_eq!(
        recover_governance(&mut entries, &mut more, u64::MAX),
        Err(SqlitePersistenceError::InvalidAutomationGovernance)
    );
    assert_eq!(entries, before);
    assert_eq!(more.len(), 1);
}

#[test]
fn cooldown_boundary_and_start_are_recorded() {
    let mut store = Ledger::default();
    let mut first = admission(1, 100);
    first.cooldown_ms = 1_000;
    store.start_run(&first).expect("first");
    assert_eq!(store.states, vec![GovernanceState { automation_id: AUTOMATION.to_owned(), last_started_at_ms: 100 }]);
    assert_eq!(store.leases.len(), 1);
    assert_eq!(store.leases[0].daily_cost_budget_microunits, 100);
    assert!(store.release(1));
    let mut early = admission(2, 1_099);
    early.cooldown_ms = 1_000;
    let before = (store.leases.clone(), store.states.clone());
    assert_eq!(store.start_run(&early), Err(SqlitePersistenceError::AutomationCooldownActive));
    assert_eq!((store.leases.clone(), store.states.clone()), before);
    let mut boundary = admission(2, 1_100);
    boundary.cooldown_ms = 1_000;
    store.start_run(&boundary).expect("boundary");
    assert_eq!(store.states[0].last_started_at_ms, 1_100);
}

#[test]
fn expired_leases_are_dropped_and_a_live_run_is_not_leased_twice() {
    let mut store = Ledger::default();
    let mut wide = admission(1, 100);
    wide.max_concurrent_runs = 5;
    store.start_run(&wide).expect("first");
    let mut again = admission(1, 200);
    again.max_concurrent_runs = 5;
    match store.start_run(&again) {
        Err(SqlitePersistenceError::Sqlite(message)) => assert_eq!(message, DUPLICATE_RUN_LEASE),
        other => panic!("unexpected {:?}", other),
    }
    assert_eq!(store.states[0].last_started_at_ms, 100);
    // After the first lease expired (at 1_100) the run may be leased again.
    let mut later = admission(1, 1_100);
    later.max_concurrent_runs = 5;
    store.start_run(&later).expect("after expiry");
    assert_eq!(store.leases.len(), 1);
    assert_eq!(store.leases[0].acquired_at_ms, 1_100);
}

#[test]
fn reservations_need_a_lease_and_repeat_idempotently() {
    let mut store = Ledger::default();
    assert_eq!(store.reserve(reservation(10, 1, 10, 101)), Err(SqlitePersistenceError::InvalidAutomationGovernance));
    assert!(store.entries.is_empty());
    store.start_run(&admission(1, 100)).expect("run");
    store.reserve(reservation(10, 1, 10, 101)).expect("reserve");
    store.reserve(reservation(10, 1, 10, 150)).expect("same reservation again");
    assert_eq!(store.entries.len(), 1);
    assert_eq!(store.get(10).automation_id, AUTOMATION);
    assert_eq!(store.get(10).updated_at_ms, 101);
    assert_eq!(
        store.reserve(reservation(10, 1, 11, 150)),
        Err(SqlitePersistenceError::AutomationCostReservationConflict)
    );
    assert_eq!(store.entries.len(), 1);
}
