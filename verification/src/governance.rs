//! Automation governance decisions: run admission under concurrency and
//! cooldown policy, daily cost budgets, settlement and reconciliation.
//!
//! The host reads the ledger rows inside its transaction, hands them to these
//! functions, and writes what they decide. Identifiers are UUIDs held as
//! 128-bit integers; the nil UUID is zero.
use crate::error::SqlitePersistenceError;
use crate::journals::{AutomationCostReconciliationReason, AutomationCostStatus};
use crate::context_cache::INTEGER_OVERFLOW;
use crate::records::{automation_id_ok, validate_automation_id, AutomationGovernanceSnapshot};
use crate::text::{has_control_char, str_equal};
use vstd::prelude::*;
use vstd::utf8::encode_utf8;

verus! {

/// Length of one cost-budget day.
pub const DAY_MS: u64 = 86_400_000;

/// Largest page of cost entries or reconciliations returned at once.
pub const MAX_GOVERNANCE_PAGE: usize = 200;

/// A request to start one Automation run.
#[derive(Debug, Clone, PartialEq, Eq)]
pub struct AutomationRunAdmission {
    pub run_id: u128,
    pub automation_id: String,
    pub max_concurrent_runs: u16,
    pub cooldown_ms: u64,
    pub daily_cost_budget_microunits: u64,
    pub now_ms: u64,
    pub lease_expires_at_ms: u64,
}

/// A request to reserve Provider cost for one Agent task of a run.
#[derive(Debug, Clone, Copy, PartialEq, Eq, Structural)]
pub struct AutomationCostReservation {
    pub task_id: u128,
    pub run_id: u128,
    pub reserved_cost_microunits: u64,
    pub now_ms: u64,
}

/// One row of the cost ledger.
#[derive(Debug, Clone, PartialEq, Eq)]
pub struct AutomationCostEntry {
    pub task_id: u128,
    pub run_id: u128,
    pub automation_id: String,
    pub day_bucket: u64,
    pub reserved_cost_microunits: u64,
    pub actual_cost_microunits: Option<u64>,
    pub status: AutomationCostStatus,
    pub updated_at_ms: u64,
}

/// An operator's request to resolve an indeterminate cost.
#[derive(Debug, Clone, Copy, PartialEq, Eq, Structural)]
pub struct ReconcileAutomationCostRequest {
    pub decision_id: u128,
    pub task_id: u128,
    pub expected_updated_at_ms: u64,
    pub actual_cost_microunits: u64,
    pub reason: AutomationCostReconciliationReason,
    pub decided_at_ms: u64,
}

/// An immutable audit record of a reconciliation decision.
#[derive(Debug, Clone, PartialEq, Eq)]
pub struct AutomationCostReconciliation {
    pub decision_id: u128,
    pub task_id: u128,
    pub run_id: u128,
    pub automation_id: String,
    pub reserved_cost_microunits: u64,
    pub actual_cost_microunits: u64,
    pub reason: AutomationCostReconciliationReason,
    pub decided_at_ms: u64,
}

/// What a cost reservation asks of the ledger.
#[derive(Debug, Clone, Copy, PartialEq, Eq, Structural)]
pub enum ReservationStep {
    /// The same reservation is already recorded; nothing to write.
    AlreadyReserved,
    /// No entry exists for the task; check the run's budget next.
    CheckBudget,
}

pub open spec fn fits_i64(v: u64) -> bool {
    v <= i64::MAX
}

/// An Automation identifier: 1 to 128 UTF-8 bytes, no control character.
pub open spec fn governed_id_ok(id: Seq<char>) -> bool {
    0 < encode_utf8(id).len() <= 128 && !has_control_char(id)
}

// ----------------------------------------------------------------------------
// Run admission
// ----------------------------------------------------------------------------

/// A well-formed admission request.
pub open spec fn run_admission_ok(admission: AutomationRunAdmission) -> bool {
    &&& admission.run_id != 0
    &&& governed_id_ok(admission.automation_id@)
    &&& admission.max_concurrent_runs > 0
    &&& admission.lease_expires_at_ms > admission.now_ms
}

/// Checks an admission request's fields.
///
/// # Errors
///
/// Returns [`SqlitePersistenceError::InvalidAutomationGovernance`] unless
/// [`run_admission_ok`] holds.
pub fn validate_run_admission(admission: &AutomationRunAdmission) -> (r: Result<
    (),
    SqlitePersistenceError,
>)
    ensures
        r is Ok <==> run_admission_ok(*admission),
        r is Err ==> r == Err::<(), SqlitePersistenceError>(
            SqlitePersistenceError::InvalidAutomationGovernance,
        ),
{
    if admission.run_id == 0 || admission.max_concurrent_runs == 0
        || admission.lease_expires_at_ms <= admission.now_ms {
        return Err(SqlitePersistenceError::InvalidAutomationGovernance);
    }
    validate_automation_id(admission.automation_id.as_str())
}

/// The admission decision, given the live leases of the Automation and when
/// it last started.
pub open spec fn admission_outcome(
    admission: AutomationRunAdmission,
    active_leases: u64,
    last_started_at_ms: Option<u64>,
) -> Result<(), SqlitePersistenceError> {
    if !run_admission_ok(admission) || !fits_i64(admission.now_ms) || !fits_i64(
        admission.lease_expires_at_ms,
    ) {
        Err(SqlitePersistenceError::InvalidAutomationGovernance)
    } else if active_leases >= admission.max_concurrent_runs {
        Err(SqlitePersistenceError::AutomationConcurrencyExceeded)
    } else if last_started_at_ms is Some && last_started_at_ms->0 + admission.cooldown_ms
        > u64::MAX {
        Err(SqlitePersistenceError::InvalidAutomationGovernance)
    } else if last_started_at_ms is Some && admission.now_ms < last_started_at_ms->0
        + admission.cooldown_ms {
        Err(SqlitePersistenceError::AutomationCooldownActive)
    } else if !fits_i64(admission.daily_cost_budget_microunits) {
        Err(SqlitePersistenceError::InvalidAutomationGovernance)
    } else {
        Ok(())
    }
}

/// Decides whether a run may start: the request is well formed, fewer than
/// `max_concurrent_runs` leases are live and the cooldown since the last start
/// has passed. On `Ok` the host records a lease and the new start time.
pub fn admit_run(
    admission: &AutomationRunAdmission,
    active_leases: u64,
    last_started_at_ms: Option<u64>,
) -> (r: Result<(), SqlitePersistenceError>)
    ensures
        r == admission_outcome(*admission, active_leases, last_started_at_ms),
{
    match validate_run_admission(admission) {
        Ok(()) => {},
        Err(e) => return Err(e),
    }
    if admission.now_ms > i64::MAX as u64 || admission.lease_expires_at_ms > i64::MAX as u64 {
        return Err(SqlitePersistenceError::InvalidAutomationGovernance);
    }
    if active_leases >= admission.max_concurrent_runs as u64 {
        return Err(SqlitePersistenceError::AutomationConcurrencyExceeded);
    }
    match last_started_at_ms {
        Some(last) => {
            let cooldown_end = match last.checked_add(admission.cooldown_ms) {
                Some(end) => end,
                None => return Err(SqlitePersistenceError::InvalidAutomationGovernance),
            };
            if admission.now_ms < cooldown_end {
                return Err(SqlitePersistenceError::AutomationCooldownActive);
            }
        },
        None => {},
    }
    if admission.daily_cost_budget_microunits > i64::MAX as u64 {
        return Err(SqlitePersistenceError::InvalidAutomationGovernance);
    }
    Ok(())
}

// ----------------------------------------------------------------------------
// Cost reservation
// ----------------------------------------------------------------------------

/// A reservation names a task and a run.
pub open spec fn cost_reservation_ok(reservation: AutomationCostReservation) -> bool {
    reservation.task_id != 0 && reservation.run_id != 0
}

/// Checks a reservation's identifiers.
///
/// # Errors
///
/// Returns [`SqlitePersistenceError::InvalidAutomationGovernance`] for a nil
/// task or run identifier.
pub fn validate_cost_reservation(reservation: AutomationCostReservation) -> (r: Result<
    (),
    SqlitePersistenceError,
>)
    ensures
        r is Ok <==> cost_reservation_ok(reservation),
        r is Err ==> r == Err::<(), SqlitePersistenceError>(
            SqlitePersistenceError::InvalidAutomationGovernance,
        ),
{
    if reservation.task_id == 0 || reservation.run_id == 0 {
        return Err(SqlitePersistenceError::InvalidAutomationGovernance);
    }
    Ok(())
}

/// The first step of a reservation, given the ledger entry of its task: an
/// identical earlier reservation is accepted again, any other entry conflicts.
pub open spec fn existing_reservation_outcome(
    reservation: AutomationCostReservation,
    existing: Option<AutomationCostEntry>,
) -> Result<ReservationStep, SqlitePersistenceError> {
    if !cost_reservation_ok(reservation) {
        Err(SqlitePersistenceError::InvalidAutomationGovernance)
    } else {
        match existing {
            None => Ok(ReservationStep::CheckBudget),
            Some(entry) => if entry.run_id == reservation.run_id && entry.day_bucket
                == reservation.now_ms / DAY_MS && entry.reserved_cost_microunits
                == reservation.reserved_cost_microunits {
                Ok(ReservationStep::AlreadyReserved)
            } else {
                Err(SqlitePersistenceError::AutomationCostReservationConflict)
            },
        }
    }
}

/// Compares a reservation with the ledger entry already recorded for its task.
pub fn check_existing_reservation(
    reservation: AutomationCostReservation,
    existing: &Option<AutomationCostEntry>,
) -> (r: Result<ReservationStep, SqlitePersistenceError>)
    ensures
        r == existing_reservation_outcome(reservation, *existing),
{
    match validate_cost_reservation(reservation) {
        Ok(()) => {},
        Err(e) => return Err(e),
    }
    match existing {
        None => Ok(ReservationStep::CheckBudget),
        Some(entry) => {
            if entry.run_id == reservation.run_id && entry.day_bucket == reservation.now_ms / DAY_MS
                && entry.reserved_cost_microunits == reservation.reserved_cost_microunits {
                Ok(ReservationStep::AlreadyReserved)
            } else {
                Err(SqlitePersistenceError::AutomationCostReservationConflict)
            }
        },
    }
}

/// The budget step of a reservation, given the daily budget of the run's
/// lease (`None` without a lease) and what the Automation has already
/// committed that day: the day bucket to record, or why not.
pub open spec fn budget_outcome(
    reservation: AutomationCostReservation,
    daily_budget_microunits: Option<u64>,
    committed_microunits: u64,
) -> Result<u64, SqlitePersistenceError> {
    match daily_budget_microunits {
        None => Err(SqlitePersistenceError::InvalidAutomationGovernance),
        Some(budget) => {
            let projected = committed_microunits + reservation.reserved_cost_microunits;
            if projected > u64::MAX {
                Err(SqlitePersistenceError::InvalidAutomationGovernance)
            } else if projected > budget {
                Err(SqlitePersistenceError::AutomationDailyCostBudgetExceeded)
            } else if !fits_i64(reservation.reserved_cost_microunits) || !fits_i64(
                reservation.now_ms,
            ) {
                Err(SqlitePersistenceError::InvalidAutomationGovernance)
            } else {
                Ok((reservation.now_ms / DAY_MS) as u64)
            }
        },
    }
}

/// Decides whether a new reservation fits the run's daily budget; on `Ok`
/// the host records a reserved entry in the returned day bucket.
pub fn check_daily_budget(
    reservation: AutomationCostReservation,
    daily_budget_microunits: Option<u64>,
    committed_microunits: u64,
) -> (r: Result<u64, SqlitePersistenceError>)
    ensures
        r == budget_outcome(reservation, daily_budget_microunits, committed_microunits),
{
    let budget = match daily_budget_microunits {
        Some(budget) => budget,
        None => return Err(SqlitePersistenceError::InvalidAutomationGovernance),
    };
    let projected = match committed_microunits.checked_add(reservation.reserved_cost_microunits) {
        Some(projected) => projected,
        None => return Err(SqlitePersistenceError::InvalidAutomationGovernance),
    };
    if projected > budget {
        return Err(SqlitePersistenceError::AutomationDailyCostBudgetExceeded);
    }
    if reservation.reserved_cost_microunits > i64::MAX as u64 || reservation.now_ms > i64::MAX
        as u64 {
        return Err(SqlitePersistenceError::InvalidAutomationGovernance);
    }
    Ok(reservation.now_ms / DAY_MS)
}

// ----------------------------------------------------------------------------
// Settlement
// ----------------------------------------------------------------------------

/// A cost update names a task and carries storable values.
pub open spec fn cost_update_ok(task_id: u128, values: Seq<u64>) -> bool {
    task_id != 0 && forall|k: int| 0 <= k < values.len() ==> fits_i64(#[trigger] values[k])
}

/// Checks a settlement request before the ledger is updated.
///
/// # Errors
///
/// Returns [`SqlitePersistenceError::InvalidAutomationGovernance`] for a nil
/// task or a value beyond `i64::MAX`.
pub fn validate_settlement(task_id: u128, actual_cost_microunits: u64, now_ms: u64) -> (r: Result<
    (),
    SqlitePersistenceError,
>)
    ensures
        r is Ok <==> cost_update_ok(task_id, seq![actual_cost_microunits, now_ms]),
        r is Err ==> r == Err::<(), SqlitePersistenceError>(
            SqlitePersistenceError::InvalidAutomationGovernance,
        ),
{
    if task_id == 0 || actual_cost_microunits > i64::MAX as u64 || now_ms > i64::MAX as u64 {
        proof {
            if task_id != 0 {
                let v = seq![actual_cost_microunits, now_ms];
                if actual_cost_microunits > i64::MAX as u64 {
                    assert(!fits_i64(v[0]));
                } else {
                    assert(!fits_i64(v[1]));
                }
            }
        }
        return Err(SqlitePersistenceError::InvalidAutomationGovernance);
    }
    Ok(())
}

/// Checks a request to mark a cost indeterminate.
///
/// # Errors
///
/// Returns [`SqlitePersistenceError::InvalidAutomationGovernance`] for a nil
/// task or a time beyond `i64::MAX`.
pub fn validate_indeterminate_mark(task_id: u128, now_ms: u64) -> (r: Result<
    (),
    SqlitePersistenceError,
>)
    ensures
        r is Ok <==> cost_update_ok(task_id, seq![now_ms]),
        r is Err ==> r == Err::<(), SqlitePersistenceError>(
            SqlitePersistenceError::InvalidAutomationGovernance,
        ),
{
    if task_id == 0 || now_ms > i64::MAX as u64 {
        proof {
            if task_id != 0 {
                assert(!fits_i64(seq![now_ms][0]));
            }
        }
        return Err(SqlitePersistenceError::InvalidAutomationGovernance);
    }
    Ok(())
}

/// When a settlement updated no reserved entry: a repeat of a settlement
/// already recorded with the same cost is accepted, anything else conflicts.
pub open spec fn settlement_retry_outcome(
    existing: Option<AutomationCostEntry>,
    actual_cost_microunits: u64,
) -> Result<(), SqlitePersistenceError> {
    match existing {
        Some(entry) => if entry.status == AutomationCostStatus::Settled
            && entry.actual_cost_microunits == Some(actual_cost_microunits) {
            Ok(())
        } else {
            Err(SqlitePersistenceError::AutomationCostReservationConflict)
        },
        None => Err(SqlitePersistenceError::AutomationCostReservationConflict),
    }
}

/// Decides the result of a settlement that changed no ledger row.
pub fn settlement_retry(existing: &Option<AutomationCostEntry>, actual_cost_microunits: u64) -> (r:
    Result<(), SqlitePersistenceError>)
    ensures
        r == settlement_retry_outcome(*existing, actual_cost_microunits),
{
    match existing {
        Some(entry) => {
            let same = match entry.actual_cost_microunits {
                Some(actual) => actual == actual_cost_microunits,
                None => false,
            };
            if entry.status == AutomationCostStatus::Settled && same {
                Ok(())
            } else {
                Err(SqlitePersistenceError::AutomationCostReservationConflict)
            }
        },
        None => Err(SqlitePersistenceError::AutomationCostReservationConflict),
    }
}

/// The same ledger row, field by field.
fn copy_entry(entry: &AutomationCostEntry) -> (r: AutomationCostEntry)
    ensures
        r == *entry,
{
    AutomationCostEntry {
        task_id: entry.task_id,
        run_id: entry.run_id,
        automation_id: entry.automation_id.clone(),
        day_bucket: entry.day_bucket,
        reserved_cost_microunits: entry.reserved_cost_microunits,
        actual_cost_microunits: entry.actual_cost_microunits,
        status: entry.status,
        updated_at_ms: entry.updated_at_ms,
    }
}

/// A settlement at `now_ms` may replace the entry's reservation: the entry is
/// still reserved, the reservation covers the actual cost, and it was last
/// updated no later than `now_ms`.
pub open spec fn settles(entry: AutomationCostEntry, actual_cost_microunits: u64, now_ms: u64) -> bool {
    &&& entry.status == AutomationCostStatus::Reserved
    &&& entry.reserved_cost_microunits >= actual_cost_microunits
    &&& entry.updated_at_ms <= now_ms
}

/// The entry settled at `actual_cost_microunits` at `now_ms`.
pub open spec fn settled_entry(entry: AutomationCostEntry, actual_cost_microunits: u64, now_ms: u64) -> AutomationCostEntry {
    AutomationCostEntry {
        actual_cost_microunits: Some(actual_cost_microunits),
        status: AutomationCostStatus::Settled,
        updated_at_ms: now_ms,
        ..entry
    }
}

/// What settling the stored entry decides: an invalid request is refused, a
/// settleable reservation is replaced by the actual cost, a repeat of the
/// recorded settlement leaves the entry as it is, and anything else
/// conflicts.
pub open spec fn settlement_outcome(
    entry: AutomationCostEntry,
    actual_cost_microunits: u64,
    now_ms: u64,
) -> Result<AutomationCostEntry, SqlitePersistenceError> {
    if !cost_update_ok(entry.task_id, seq![actual_cost_microunits, now_ms]) {
        Err(SqlitePersistenceError::InvalidAutomationGovernance)
    } else if settles(entry, actual_cost_microunits, now_ms) {
        Ok(settled_entry(entry, actual_cost_microunits, now_ms))
    } else if settlement_retry_outcome(Some(entry), actual_cost_microunits) is Ok {
        Ok(entry)
    } else {
        Err(SqlitePersistenceError::AutomationCostReservationConflict)
    }
}

/// Settles the stored cost entry of a task with its verified Provider usage
/// and returns the entry as it is afterwards.
///
/// # Errors
///
/// Returns [`SqlitePersistenceError::InvalidAutomationGovernance`] for a nil
/// task or a value beyond `i64::MAX`, and
/// [`SqlitePersistenceError::AutomationCostReservationConflict`] when the
/// entry is not a reservation that covers the cost (or was updated later),
/// unless it is already settled at that cost.
pub fn settle_entry(entry: &AutomationCostEntry, actual_cost_microunits: u64, now_ms: u64) -> (r:
    Result<AutomationCostEntry, SqlitePersistenceError>)
    ensures
        r == settlement_outcome(*entry, actual_cost_microunits, now_ms),
{
    match validate_settlement(entry.task_id, actual_cost_microunits, now_ms) {
        Ok(()) => {},
        Err(e) => return Err(e),
    }
    if entry.status == AutomationCostStatus::Reserved && entry.reserved_cost_microunits
        >= actual_cost_microunits && entry.updated_at_ms <= now_ms {
        let mut next = copy_entry(entry);
        next.actual_cost_microunits = Some(actual_cost_microunits);
        next.status = AutomationCostStatus::Settled;
        next.updated_at_ms = now_ms;
        return Ok(next);
    }
    let existing = Some(copy_entry(entry));
    match settlement_retry(&existing, actual_cost_microunits) {
        Ok(()) => Ok(copy_entry(entry)),
        Err(e) => Err(e),
    }
}

/// A reservation that may be marked indeterminate at `now_ms`: still
/// reserved and last updated no later than `now_ms`.
pub open spec fn becomes_indeterminate(entry: AutomationCostEntry, now_ms: u64) -> bool {
    entry.status == AutomationCostStatus::Reserved && entry.updated_at_ms <= now_ms
}

/// The entry marked indeterminate at `now_ms`, its reservation kept in full.
pub open spec fn indeterminate_entry(entry: AutomationCostEntry, now_ms: u64) -> AutomationCostEntry {
    AutomationCostEntry { status: AutomationCostStatus::Indeterminate, updated_at_ms: now_ms, ..entry }
}

/// Marks the stored cost entry of a task indeterminate, keeping its full
/// reservation against the budget, and returns the updated entry.
///
/// # Errors
///
/// Returns [`SqlitePersistenceError::InvalidAutomationGovernance`] for a nil
/// task or a time beyond `i64::MAX`, and
/// [`SqlitePersistenceError::AutomationCostReservationConflict`] unless the
/// entry is a reservation last updated no later than `now_ms`.
pub fn mark_entry_indeterminate(entry: &AutomationCostEntry, now_ms: u64) -> (r: Result<
    AutomationCostEntry,
    SqlitePersistenceError,
>)
    ensures
        !cost_update_ok(entry.task_id, seq![now_ms]) ==> r == Err::<
            AutomationCostEntry,
            SqlitePersistenceError,
        >(SqlitePersistenceError::InvalidAutomationGovernance),
        cost_update_ok(entry.task_id, seq![now_ms]) ==> r == if becomes_indeterminate(*entry, now_ms) {
            Ok::<AutomationCostEntry, SqlitePersistenceError>(indeterminate_entry(*entry, now_ms))
        } else {
            Err::<AutomationCostEntry, SqlitePersistenceError>(
                SqlitePersistenceError::AutomationCostReservationConflict,
            )
        },
{
    match validate_indeterminate_mark(entry.task_id, now_ms) {
        Ok(()) => {},
        Err(e) => return Err(e),
    }
    if entry.status == AutomationCostStatus::Reserved && entry.updated_at_ms <= now_ms {
        let mut next = copy_entry(entry);
        next.status = AutomationCostStatus::Indeterminate;
        next.updated_at_ms = now_ms;
        Ok(next)
    } else {
        Err(SqlitePersistenceError::AutomationCostReservationConflict)
    }
}

/// An entry after a restart at `now_ms`: a reservation last updated no later
/// than `now_ms` can no longer be settled by its lost process and becomes
/// indeterminate; every other entry is kept.
pub open spec fn recovered_entry(entry: AutomationCostEntry, now_ms: u64) -> AutomationCostEntry {
    if becomes_indeterminate(entry, now_ms) {
        indeterminate_entry(entry, now_ms)
    } else {
        entry
    }
}

/// Recovers governance state after a host restart: unresolved reservations
/// become indeterminate and every process lease is released. Returns how
/// many leases were released.
///
/// # Errors
///
/// Returns [`SqlitePersistenceError::InvalidAutomationGovernance`] for a time
/// beyond `i64::MAX`; nothing changes then.
pub fn recover_governance(
    entries: &mut Vec<AutomationCostEntry>,
    leases: &mut Vec<RunLease>,
    now_ms: u64,
) -> (r: Result<u64, SqlitePersistenceError>)
    ensures
        !fits_i64(now_ms) ==> r == Err::<u64, SqlitePersistenceError>(
            SqlitePersistenceError::InvalidAutomationGovernance,
        ) && final(entries)@ == old(entries)@ && final(leases)@ == old(leases)@,
        fits_i64(now_ms) ==> {
            &&& r == Ok::<u64, SqlitePersistenceError>(old(leases)@.len() as u64)
            &&& final(leases)@.len() == 0
            &&& final(entries)@.len() == old(entries)@.len()
            &&& forall|i: int|
                0 <= i < old(entries)@.len() ==> #[trigger] final(entries)@[i] == recovered_entry(
                    old(entries)@[i],
                    now_ms,
                )
        },
{
    if now_ms > i64::MAX as u64 {
        return Err(SqlitePersistenceError::InvalidAutomationGovernance);
    }
    let mut out: Vec<AutomationCostEntry> = Vec::new();
    let mut i: usize = 0;
    while i < entries.len()
        invariant
            0 <= i <= entries@.len(),
            out@.len() == i,
            forall|k: int| 0 <= k < i ==> #[trigger] out@[k] == recovered_entry(entries@[k], now_ms),
        decreases entries@.len() - i,
    {
        let entry = &entries[i];
        let mut next = copy_entry(entry);
        if entry.status == AutomationCostStatus::Reserved && entry.updated_at_ms <= now_ms {
            next.status = AutomationCostStatus::Indeterminate;
            next.updated_at_ms = now_ms;
        }
        out.push(next);
        i = i + 1;
    }
    let released = leases.len() as u64;
    leases.clear();
    *entries = out;
    Ok(released)
}

// ----------------------------------------------------------------------------
// Reconciliation
// ----------------------------------------------------------------------------

/// A reconciliation request names a decision and a task.
pub open spec fn reconciliation_request_ok(request: ReconcileAutomationCostRequest) -> bool {
    request.decision_id != 0 && request.task_id != 0
}

/// Checks a reconciliation request's identifiers.
///
/// # Errors
///
/// Returns [`SqlitePersistenceError::InvalidAutomationGovernance`] for a nil
/// decision or task identifier.
pub fn validate_reconciliation(request: &ReconcileAutomationCostRequest) -> (r: Result<
    (),
    SqlitePersistenceError,
>)
    ensures
        r is Ok <==> reconciliation_request_ok(*request),
        r is Err ==> r == Err::<(), SqlitePersistenceError>(
            SqlitePersistenceError::InvalidAutomationGovernance,
        ),
{
    if request.decision_id == 0 || request.task_id == 0 {
        return Err(SqlitePersistenceError::InvalidAutomationGovernance);
    }
    Ok(())
}

/// The audit record of resolving `entry` as `request` asks.
pub open spec fn reconciliation_record(
    request: ReconcileAutomationCostRequest,
    entry: AutomationCostEntry,
) -> AutomationCostReconciliation {
    AutomationCostReconciliation {
        decision_id: request.decision_id,
        task_id: request.task_id,
        run_id: entry.run_id,
        automation_id: entry.automation_id,
        reserved_cost_microunits: entry.reserved_cost_microunits,
        actual_cost_microunits: request.actual_cost_microunits,
        reason: request.reason,
        decided_at_ms: request.decided_at_ms,
    }
}

/// The reconciliation decision, given the ledger entry of the task: only an
/// indeterminate entry, unchanged since the operator looked at it and not
/// decided before its last update, can be resolved.
pub open spec fn reconciliation_outcome(
    request: ReconcileAutomationCostRequest,
    entry: Option<AutomationCostEntry>,
) -> Result<AutomationCostReconciliation, SqlitePersistenceError> {
    if !reconciliation_request_ok(request) {
        Err(SqlitePersistenceError::InvalidAutomationGovernance)
    } else {
        match entry {
            None => Err(SqlitePersistenceError::AutomationCostReconciliationConflict),
            Some(e) => if e.status != AutomationCostStatus::Indeterminate || e.updated_at_ms
                != request.expected_updated_at_ms || request.decided_at_ms < e.updated_at_ms {
                Err(SqlitePersistenceError::AutomationCostReconciliationConflict)
            } else if !fits_i64(e.reserved_cost_microunits) || !fits_i64(
                request.actual_cost_microunits,
            ) || !fits_i64(request.decided_at_ms) || !fits_i64(request.expected_updated_at_ms) {
                Err(SqlitePersistenceError::InvalidAutomationGovernance)
            } else {
                Ok(reconciliation_record(request, e))
            },
        }
    }
}

/// Decides a reconciliation; on `Ok` the host appends the returned audit
/// record and settles the entry at `actual_cost_microunits`.
pub fn reconcile_cost(
    request: &ReconcileAutomationCostRequest,
    entry: Option<AutomationCostEntry>,
) -> (r: Result<AutomationCostReconciliation, SqlitePersistenceError>)
    ensures
        r == reconciliation_outcome(*request, entry),
{
    match validate_reconciliation(request) {
        Ok(()) => {},
        Err(e) => return Err(e),
    }
    let e = match entry {
        Some(e) => e,
        None => return Err(SqlitePersistenceError::AutomationCostReconciliationConflict),
    };
    if e.status != AutomationCostStatus::Indeterminate || e.updated_at_ms
        != request.expected_updated_at_ms || request.decided_at_ms < e.updated_at_ms {
        return Err(SqlitePersistenceError::AutomationCostReconciliationConflict);
    }
    let max = i64::MAX as u64;
    if e.reserved_cost_microunits > max || request.actual_cost_microunits > max
        || request.decided_at_ms > max || request.expected_updated_at_ms > max {
        return Err(SqlitePersistenceError::InvalidAutomationGovernance);
    }
    Ok(
        AutomationCostReconciliation {
            decision_id: request.decision_id,
            task_id: request.task_id,
            run_id: e.run_id,
            automation_id: e.automation_id,
            reserved_cost_microunits: e.reserved_cost_microunits,
            actual_cost_microunits: request.actual_cost_microunits,
            reason: request.reason,
            decided_at_ms: request.decided_at_ms,
        },
    )
}

// ----------------------------------------------------------------------------
// Listing and snapshots
// ----------------------------------------------------------------------------

/// Checks the size of a requested page.
///
/// # Errors
///
/// Returns [`SqlitePersistenceError::InvalidAutomationGovernance`] unless
/// `1 <= limit <= MAX_GOVERNANCE_PAGE`.
pub fn validate_page_limit(limit: usize) -> (r: Result<(), SqlitePersistenceError>)
    ensures
        r is Ok <==> 1 <= limit <= MAX_GOVERNANCE_PAGE,
        r is Err ==> r == Err::<(), SqlitePersistenceError>(
            SqlitePersistenceError::InvalidAutomationGovernance,
        ),
{
    if limit < 1 || limit > MAX_GOVERNANCE_PAGE {
        return Err(SqlitePersistenceError::InvalidAutomationGovernance);
    }
    Ok(())
}

/// The day bucket a snapshot of `automation_id` at `now_ms` aggregates.
///
/// # Errors
///
/// Returns [`SqlitePersistenceError::InvalidAutomationGovernance`] for an
/// invalid identifier or a time beyond `i64::MAX`.
pub fn snapshot_day_bucket(automation_id: &str, now_ms: u64) -> (r: Result<
    u64,
    SqlitePersistenceError,
>)
    ensures
        automation_id_ok(automation_id) && fits_i64(now_ms) ==> r == Ok::<
            u64,
            SqlitePersistenceError,
        >((now_ms / DAY_MS) as u64),
        !(automation_id_ok(automation_id) && fits_i64(now_ms)) ==> r == Err::<
            u64,
            SqlitePersistenceError,
        >(SqlitePersistenceError::InvalidAutomationGovernance),
{
    match validate_automation_id(automation_id) {
        Ok(()) => {},
        Err(e) => return Err(e),
    }
    if now_ms > i64::MAX as u64 {
        return Err(SqlitePersistenceError::InvalidAutomationGovernance);
    }
    Ok(now_ms / DAY_MS)
}

// ----------------------------------------------------------------------------
// Leases and day totals
// ----------------------------------------------------------------------------

/// One run's hold on a concurrency slot of its Automation.
#[derive(Debug, Clone, PartialEq, Eq)]
pub struct RunLease {
    pub run_id: u128,
    pub automation_id: String,
    pub acquired_at_ms: u64,
    pub expires_at_ms: u64,
    /// The daily cost budget the run was admitted under.
    pub daily_cost_budget_microunits: u64,
}

/// The number of leases of `automation_id` that are still held at `now_ms`.
pub open spec fn active_leases(leases: Seq<RunLease>, automation_id: Seq<char>, now_ms: u64) -> nat
    decreases leases.len(),
{
    if leases.len() == 0 {
        0
    } else {
        let l = leases.last();
        active_leases(leases.drop_last(), automation_id, now_ms) + if l.automation_id@
            == automation_id && l.expires_at_ms > now_ms {
            1nat
        } else {
            0nat
        }
    }
}

/// Counts the leases of `automation_id` held at `now_ms`.
pub fn count_active_leases(leases: &Vec<RunLease>, automation_id: &str, now_ms: u64) -> (r: u64)
    ensures
        r == active_leases(leases@, automation_id@, now_ms),
{
    let mut count: u64 = 0;
    let mut i: usize = 0;
    while i < leases.len()
        invariant
            0 <= i <= leases@.len(),
            count == active_leases(leases@.take(i as int), automation_id@, now_ms),
            count <= i,
        decreases leases@.len() - i,
    {
        proof {
            assert(leases@.take(i + 1).drop_last() =~= leases@.take(i as int));
        }
        if str_equal(leases[i].automation_id.as_str(), automation_id) && leases[i].expires_at_ms
            > now_ms {
            count = count + 1;
        }
        i = i + 1;
    }
    assert(leases@.take(leases@.len() as int) =~= leases@);
    count
}

/// A ledger entry of `automation_id` on `day_bucket`.
pub open spec fn in_day(entry: AutomationCostEntry, automation_id: Seq<char>, day_bucket: u64) -> bool {
    entry.automation_id@ == automation_id && entry.day_bucket == day_bucket
}

/// What an entry counts against the day's budget: its actual cost once
/// settled, its reservation otherwise.
pub open spec fn committed_amount(entry: AutomationCostEntry) -> int {
    if entry.status == AutomationCostStatus::Settled {
        match entry.actual_cost_microunits {
            Some(a) => a as int,
            None => 0,
        }
    } else {
        entry.reserved_cost_microunits as int
    }
}

/// What an entry in `status` contributes to that status's total.
pub open spec fn status_amount(entry: AutomationCostEntry, status: AutomationCostStatus) -> int {
    if entry.status != status {
        0
    } else {
        committed_amount(entry)
    }
}

/// The day's cost committed against the budget.
pub open spec fn committed_cost(
    entries: Seq<AutomationCostEntry>,
    automation_id: Seq<char>,
    day_bucket: u64,
) -> int
    decreases entries.len(),
{
    if entries.len() == 0 {
        0
    } else {
        committed_cost(entries.drop_last(), automation_id, day_bucket) + if in_day(
            entries.last(),
            automation_id,
            day_bucket,
        ) {
            committed_amount(entries.last())
        } else {
            0
        }
    }
}

/// The day's cost of entries in one status.
pub open spec fn status_cost(
    entries: Seq<AutomationCostEntry>,
    automation_id: Seq<char>,
    day_bucket: u64,
    status: AutomationCostStatus,
) -> int
    decreases entries.len(),
{
    if entries.len() == 0 {
        0
    } else {
        status_cost(entries.drop_last(), automation_id, day_bucket, status) + if in_day(
            entries.last(),
            automation_id,
            day_bucket,
        ) {
            status_amount(entries.last(), status)
        } else {
            0
        }
    }
}

/// The day's number of entries in one status.
pub open spec fn status_count(
    entries: Seq<AutomationCostEntry>,
    automation_id: Seq<char>,
    day_bucket: u64,
    status: AutomationCostStatus,
) -> nat
    decreases entries.len(),
{
    if entries.len() == 0 {
        0
    } else {
        status_count(entries.drop_last(), automation_id, day_bucket, status) + if in_day(
            entries.last(),
            automation_id,
            day_bucket,
        ) && entries.last().status == status {
            1nat
        } else {
            0nat
        }
    }
}

fn committed_part(entry: &AutomationCostEntry) -> (r: u64)
    ensures
        r == committed_amount(*entry),
{
    if entry.status == AutomationCostStatus::Settled {
        match entry.actual_cost_microunits {
            Some(a) => a,
            None => 0,
        }
    } else {
        entry.reserved_cost_microunits
    }
}

/// The day's cost committed against the budget of `automation_id`.
///
/// # Errors
///
/// A storage error when the total leaves the signed 64-bit range.
pub fn day_committed_cost(
    entries: &Vec<AutomationCostEntry>,
    automation_id: &str,
    day_bucket: u64,
) -> (r: Result<u64, SqlitePersistenceError>)
    ensures
        committed_cost(entries@, automation_id@, day_bucket) <= i64::MAX ==> r == Ok::<
            u64,
            SqlitePersistenceError,
        >(committed_cost(entries@, automation_id@, day_bucket) as u64),
        committed_cost(entries@, automation_id@, day_bucket) > i64::MAX ==> (r matches Err(
            SqlitePersistenceError::Sqlite(m),
        ) && m@ == INTEGER_OVERFLOW@),
{
    let mut total: u128 = 0;
    let mut i: usize = 0;
    while i < entries.len()
        invariant
            0 <= i <= entries@.len(),
            total == committed_cost(entries@.take(i as int), automation_id@, day_bucket),
            total <= i * 0xffff_ffff_ffff_ffff,
        decreases entries@.len() - i,
    {
        proof {
            assert(entries@.take(i + 1).drop_last() =~= entries@.take(i as int));
        }
        let e = &entries[i];
        if str_equal(e.automation_id.as_str(), automation_id) && e.day_bucket == day_bucket {
            total = total + committed_part(e) as u128;
        }
        i = i + 1;
    }
    assert(entries@.take(entries@.len() as int) =~= entries@);
    if total > 9_223_372_036_854_775_807u128 {
        return Err(SqlitePersistenceError::Sqlite(INTEGER_OVERFLOW.to_owned()));
    }
    Ok(total as u64)
}

/// The governance state of `automation_id` at `now_ms`: its active runs, its
/// last start, and the day's reserved, settled and indeterminate costs.
///
/// # Errors
///
/// [`SqlitePersistenceError::InvalidAutomationGovernance`] for an invalid
/// identifier or a time beyond `i64::MAX`, and a storage error when a cost
/// total leaves the signed 64-bit range.
pub fn governance_snapshot(
    automation_id: &str,
    now_ms: u64,
    leases: &Vec<RunLease>,
    last_started_at_ms: Option<u64>,
    entries: &Vec<AutomationCostEntry>,
) -> (r: Result<AutomationGovernanceSnapshot, SqlitePersistenceError>)
    ensures
        !(automation_id_ok(automation_id) && fits_i64(now_ms)) ==> r == Err::<
            AutomationGovernanceSnapshot,
            SqlitePersistenceError,
        >(SqlitePersistenceError::InvalidAutomationGovernance),
        automation_id_ok(automation_id) && fits_i64(now_ms) ==> {
            let day = (now_ms / DAY_MS) as u64;
            let reserved = status_cost(entries@, automation_id@, day, AutomationCostStatus::Reserved);
            let settled = status_cost(entries@, automation_id@, day, AutomationCostStatus::Settled);
            let unknown = status_cost(
                entries@,
                automation_id@,
                day,
                AutomationCostStatus::Indeterminate,
            );
            if reserved <= i64::MAX && settled <= i64::MAX && unknown <= i64::MAX {
                r == Ok::<AutomationGovernanceSnapshot, SqlitePersistenceError>(
                    AutomationGovernanceSnapshot {
                        active_runs: active_leases(leases@, automation_id@, now_ms) as u64,
                        last_started_at_ms,
                        reserved_cost_microunits: reserved as u64,
                        settled_cost_microunits: settled as u64,
                        indeterminate_cost_microunits: unknown as u64,
                        indeterminate_cost_count: status_count(
                            entries@,
                            automation_id@,
                            day,
                            AutomationCostStatus::Indeterminate,
                        ) as u64,
                    },
                )
            } else {
                r matches Err(SqlitePersistenceError::Sqlite(m)) && m@ == INTEGER_OVERFLOW@
            }
        },
{
    let day = snapshot_day_bucket(automation_id, now_ms)?;
    let active = count_active_leases(leases, automation_id, now_ms);
    let mut reserved: u128 = 0;
    let mut settled: u128 = 0;
    let mut unknown: u128 = 0;
    let mut unknown_count: u64 = 0;
    let mut i: usize = 0;
    while i < entries.len()
        invariant
            0 <= i <= entries@.len(),
            reserved == status_cost(entries@.take(i as int), automation_id@, day, AutomationCostStatus::Reserved),
            settled == status_cost(entries@.take(i as int), automation_id@, day, AutomationCostStatus::Settled),
            unknown == status_cost(
                entries@.take(i as int),
                automation_id@,
                day,
                AutomationCostStatus::Indeterminate,
            ),
            unknown_count == status_count(
                entries@.take(i as int),
                automation_id@,
                day,
                AutomationCostStatus::Indeterminate,
            ),
            reserved <= i * 0xffff_ffff_ffff_ffff,
            settled <= i * 0xffff_ffff_ffff_ffff,
            unknown <= i * 0xffff_ffff_ffff_ffff,
            unknown_count <= i,
        decreases entries@.len() - i,
    {
        proof {
            assert(entries@.take(i + 1).drop_last() =~= entries@.take(i as int));
        }
        let e = &entries[i];
        if str_equal(e.automation_id.as_str(), automation_id) && e.day_bucket == day {
            let amount = committed_part(e) as u128;
            match e.status {
                AutomationCostStatus::Reserved => {
                    reserved = reserved + amount;
                },
                AutomationCostStatus::Settled => {
                    settled = settled + amount;
                },
                AutomationCostStatus::Indeterminate => {
                    unknown = unknown + amount;
                    unknown_count = unknown_count + 1;
                },
            }
        }
        i = i + 1;
    }
    assert(entries@.take(entries@.len() as int) =~= entries@);
    if reserved > 9_223_372_036_854_775_807u128 || settled > 9_223_372_036_854_775_807u128
        || unknown > 9_223_372_036_854_775_807u128 {
        return Err(SqlitePersistenceError::Sqlite(INTEGER_OVERFLOW.to_owned()));
    }
    Ok(
        AutomationGovernanceSnapshot {
            active_runs: active,
            last_started_at_ms,
            reserved_cost_microunits: reserved as u64,
            settled_cost_microunits: settled as u64,
            indeterminate_cost_microunits: unknown as u64,
            indeterminate_cost_count: unknown_count,
        },
    )
}

/// Law: the reserved, settled and indeterminate totals of a snapshot add up
/// to the cost the daily budget counts.
pub proof fn law_snapshot_totals_are_committed_cost(
    entries: Seq<AutomationCostEntry>,
    automation_id: Seq<char>,
    day_bucket: u64,
)
    ensures
        status_cost(entries, automation_id, day_bucket, AutomationCostStatus::Reserved)
            + status_cost(entries, automation_id, day_bucket, AutomationCostStatus::Settled)
            + status_cost(entries, automation_id, day_bucket, AutomationCostStatus::Indeterminate)
            == committed_cost(entries, automation_id, day_bucket),
    decreases entries.len(),
{
    if entries.len() > 0 {
        law_snapshot_totals_are_committed_cost(entries.drop_last(), automation_id, day_bucket);
    }
}

// ----------------------------------------------------------------------------
// Laws
// ----------------------------------------------------------------------------

/// Law: a run cannot start again within its cooldown. Once an admission at
/// `started_at_ms` was accepted, a well-formed admission of the same
/// Automation before `started_at_ms + cooldown_ms` is refused for the
/// cooldown (when it is under its concurrency limit and the end of the
/// cooldown is representable).
pub proof fn law_cooldown_blocks_restart(
    first: AutomationRunAdmission,
    first_active: u64,
    first_last: Option<u64>,
    second: AutomationRunAdmission,
    second_active: u64,
)
    requires
        admission_outcome(first, first_active, first_last) is Ok,
        run_admission_ok(second),
        fits_i64(second.now_ms),
        fits_i64(second.lease_expires_at_ms),
        second_active < second.max_concurrent_runs,
        first.now_ms + second.cooldown_ms <= u64::MAX,
        second.now_ms < first.now_ms + second.cooldown_ms,
    ensures
        admission_outcome(second, second_active, Some(first.now_ms)) == Err::<
            (),
            SqlitePersistenceError,
        >(SqlitePersistenceError::AutomationCooldownActive),
{
}

/// Law: reservations are idempotent. Repeating a reservation whose entry was
/// recorded in the day bucket that the budget check returned is accepted
/// without writing again.
pub proof fn law_reservation_retry_accepted(
    reservation: AutomationCostReservation,
    daily_budget_microunits: u64,
    committed_microunits: u64,
    recorded: AutomationCostEntry,
)
    requires
        cost_reservation_ok(reservation),
        budget_outcome(reservation, Some(daily_budget_microunits), committed_microunits) is Ok,
        recorded.run_id == reservation.run_id,
        recorded.day_bucket == budget_outcome(
            reservation,
            Some(daily_budget_microunits),
            committed_microunits,
        )->Ok_0,
        recorded.reserved_cost_microunits == reservation.reserved_cost_microunits,
    ensures
        existing_reservation_outcome(reservation, Some(recorded)) == Ok::<
            ReservationStep,
            SqlitePersistenceError,
        >(ReservationStep::AlreadyReserved),
{
}

/// Law: a reservation never lets the day's committed cost exceed the budget.
pub proof fn law_budget_never_exceeded(
    reservation: AutomationCostReservation,
    daily_budget_microunits: u64,
    committed_microunits: u64,
)
    requires
        budget_outcome(reservation, Some(daily_budget_microunits), committed_microunits) is Ok,
    ensures
        committed_microunits + reservation.reserved_cost_microunits <= daily_budget_microunits,
{
}

/// Law: settlements are idempotent. Once an entry is settled at a cost,
/// settling it again at that cost is accepted; at another cost it conflicts.
pub proof fn law_settlement_retry(entry: AutomationCostEntry, actual_cost_microunits: u64)
    requires
        entry.status == AutomationCostStatus::Settled,
        entry.actual_cost_microunits is Some,
    ensures
        (settlement_retry_outcome(Some(entry), actual_cost_microunits) is Ok)
            == (entry.actual_cost_microunits == Some(actual_cost_microunits)),
{
}

/// Law: a settlement never records more than was reserved. Settling a
/// reservation either replaces it by an actual cost no larger than the
/// reservation (which is kept) or fails.
pub proof fn law_settlement_within_reservation(
    entry: AutomationCostEntry,
    actual_cost_microunits: u64,
    now_ms: u64,
)
    requires
        entry.status == AutomationCostStatus::Reserved,
    ensures
        settlement_outcome(entry, actual_cost_microunits, now_ms) matches Ok(next) ==> {
            &&& next.status == AutomationCostStatus::Settled
            &&& next.actual_cost_microunits == Some(actual_cost_microunits)
            &&& actual_cost_microunits <= next.reserved_cost_microunits
            &&& next.reserved_cost_microunits == entry.reserved_cost_microunits
            &&& committed_amount(next) <= committed_amount(entry)
        },
        actual_cost_microunits > entry.reserved_cost_microunits ==> settlement_outcome(
            entry,
            actual_cost_microunits,
            now_ms,
        ) is Err,
{
}

/// Law: only a reservation is changed by a settlement; any other entry is
/// left as it is or the settlement fails.
pub proof fn law_only_reservations_settle(
    entry: AutomationCostEntry,
    actual_cost_microunits: u64,
    now_ms: u64,
)
    requires
        entry.status != AutomationCostStatus::Reserved,
    ensures
        settlement_outcome(entry, actual_cost_microunits, now_ms) is Err
            || settlement_outcome(entry, actual_cost_microunits, now_ms) == Ok::<
            AutomationCostEntry,
            SqlitePersistenceError,
        >(entry),
{
}

/// Law: recovery frees no budget. Every entry keeps what it counts against
/// its day, and no reservation made up to the restart stays reserved.
pub proof fn law_recovery_keeps_committed_cost(entry: AutomationCostEntry, now_ms: u64)
    ensures
        committed_amount(recovered_entry(entry, now_ms)) == committed_amount(entry),
        recovered_entry(entry, now_ms).automation_id == entry.automation_id,
        recovered_entry(entry, now_ms).day_bucket == entry.day_bucket,
        entry.updated_at_ms <= now_ms ==> recovered_entry(entry, now_ms).status
            != AutomationCostStatus::Reserved,
{
}

/// Law: a reconciliation resolves only an indeterminate entry, and its audit
/// record keeps the entry's run, Automation and reserved cost with the
/// operator's decision.
pub proof fn law_reconciliation_audits_entry(
    request: ReconcileAutomationCostRequest,
    entry: Option<AutomationCostEntry>,
)
    requires
        reconciliation_outcome(request, entry) is Ok,
    ensures
        entry matches Some(e) && e.status == AutomationCostStatus::Indeterminate
            && reconciliation_outcome(request, entry)->Ok_0 == reconciliation_record(request, e)
            && e.updated_at_ms == request.expected_updated_at_ms,
{
}


// ----------------------------------------------------------------------------
// The store: leases, start times and the ledger
// ----------------------------------------------------------------------------

/// When one Automation last started a run.
#[derive(Debug, Clone, PartialEq, Eq)]
pub struct GovernanceState {
    pub automation_id: String,
    pub last_started_at_ms: u64,
}

/// What storage answers a second lease for one run.
pub const DUPLICATE_RUN_LEASE: &'static str = "UNIQUE constraint failed: automation_run_lease.run_id";

/// The leases still held at `now_ms`, in order.
pub open spec fn unexpired_leases(leases: Seq<RunLease>, now_ms: u64) -> Seq<RunLease>
    decreases leases.len(),
{
    if leases.len() == 0 {
        seq![]
    } else {
        let previous = unexpired_leases(leases.drop_last(), now_ms);
        if leases.last().expires_at_ms > now_ms {
            previous.push(leases.last())
        } else {
            previous
        }
    }
}

/// Row `i` is the first state of the Automation.
pub open spec fn first_state(states: Seq<GovernanceState>, automation_id: Seq<char>, i: int) -> bool {
    &&& 0 <= i < states.len()
    &&& states[i].automation_id@ == automation_id
    &&& forall|j: int| 0 <= j < i ==> #[trigger] states[j].automation_id@ != automation_id
}

/// When the Automation last started, if it ever did.
pub open spec fn recorded_start(states: Seq<GovernanceState>, automation_id: Seq<char>) -> Option<u64> {
    if exists|i: int| first_state(states, automation_id, i) {
        Some(states[choose|i: int| first_state(states, automation_id, i)].last_started_at_ms)
    } else {
        None
    }
}

/// Row `i` is the first lease of the run.
pub open spec fn first_lease(leases: Seq<RunLease>, run_id: u128, i: int) -> bool {
    &&& 0 <= i < leases.len()
    &&& leases[i].run_id == run_id
    &&& forall|j: int| 0 <= j < i ==> #[trigger] leases[j].run_id != run_id
}

/// The run's lease, if one is stored.
pub open spec fn run_lease(leases: Seq<RunLease>, run_id: u128) -> Option<RunLease> {
    if exists|i: int| first_lease(leases, run_id, i) {
        Some(leases[choose|i: int| first_lease(leases, run_id, i)])
    } else {
        None
    }
}

/// Row `i` is the first ledger entry of the task.
pub open spec fn first_task(entries: Seq<AutomationCostEntry>, task_id: u128, i: int) -> bool {
    &&& 0 <= i < entries.len()
    &&& entries[i].task_id == task_id
    &&& forall|j: int| 0 <= j < i ==> #[trigger] entries[j].task_id != task_id
}

/// The task's ledger entry, if one is stored.
pub open spec fn task_entry(entries: Seq<AutomationCostEntry>, task_id: u128) -> Option<AutomationCostEntry> {
    if exists|i: int| first_task(entries, task_id, i) {
        Some(entries[choose|i: int| first_task(entries, task_id, i)])
    } else {
        None
    }
}

fn copy_lease(lease: &RunLease) -> (r: RunLease)
    ensures
        r == *lease,
{
    RunLease {
        run_id: lease.run_id,
        automation_id: lease.automation_id.clone(),
        acquired_at_ms: lease.acquired_at_ms,
        expires_at_ms: lease.expires_at_ms,
        daily_cost_budget_microunits: lease.daily_cost_budget_microunits,
    }
}

fn find_state(states: &Vec<GovernanceState>, automation_id: &str) -> (r: Option<usize>)
    ensures
        match r {
            Some(i) => first_state(states@, automation_id@, i as int),
            None => forall|j: int|
                0 <= j < states@.len() ==> #[trigger] states@[j].automation_id@ != automation_id@,
        },
        r matches Some(i) ==> recorded_start(states@, automation_id@) == Some(
            states@[i as int].last_started_at_ms,
        ),
        r is None ==> recorded_start(states@, automation_id@) is None,
{
    let mut i: usize = 0;
    while i < states.len()
        invariant
            0 <= i <= states@.len(),
            forall|j: int| 0 <= j < i ==> #[trigger] states@[j].automation_id@ != automation_id@,
        decreases states@.len() - i,
    {
        if str_equal(states[i].automation_id.as_str(), automation_id) {
            proof {
                assert(first_state(states@, automation_id@, i as int));
                let c = choose|c: int| first_state(states@, automation_id@, c);
                if c < i {
                    assert(states@[c].automation_id@ != automation_id@);
                } else if c > i {
                    assert(states@[i as int].automation_id@ != automation_id@);
                }
            }
            return Some(i);
        }
        i = i + 1;
    }
    None
}

fn find_lease(leases: &Vec<RunLease>, run_id: u128) -> (r: Option<usize>)
    ensures
        match r {
            Some(i) => i < leases@.len() && run_lease(leases@, run_id) == Some(leases@[i as int]),
            None => run_lease(leases@, run_id) is None && forall|j: int|
                0 <= j < leases@.len() ==> #[trigger] leases@[j].run_id != run_id,
        },
{
    let mut i: usize = 0;
    while i < leases.len()
        invariant
            0 <= i <= leases@.len(),
            forall|j: int| 0 <= j < i ==> #[trigger] leases@[j].run_id != run_id,
        decreases leases@.len() - i,
    {
        if leases[i].run_id == run_id {
            proof {
                assert(first_lease(leases@, run_id, i as int));
                let c = choose|c: int| first_lease(leases@, run_id, c);
                if c < i {
                    assert(leases@[c].run_id != run_id);
                } else if c > i {
                    assert(leases@[i as int].run_id != run_id);
                }
            }
            return Some(i);
        }
        i = i + 1;
    }
    None
}

fn find_task(entries: &Vec<AutomationCostEntry>, task_id: u128) -> (r: Option<usize>)
    ensures
        match r {
            Some(i) => i < entries@.len() && task_entry(entries@, task_id) == Some(entries@[i as int]),
            None => task_entry(entries@, task_id) is None,
        },
{
    let mut i: usize = 0;
    while i < entries.len()
        invariant
            0 <= i <= entries@.len(),
            forall|j: int| 0 <= j < i ==> #[trigger] entries@[j].task_id != task_id,
        decreases entries@.len() - i,
    {
        if entries[i].task_id == task_id {
            proof {
                assert(first_task(entries@, task_id, i as int));
                let c = choose|c: int| first_task(entries@, task_id, c);
                if c < i {
                    assert(entries@[c].task_id != task_id);
                } else if c > i {
                    assert(entries@[i as int].task_id != task_id);
                }
            }
            return Some(i);
        }
        i = i + 1;
    }
    None
}

/// Two state tables that agree on every row of `other` (the longer one having
/// no further row of it) record the same start for `other`.
proof fn lemma_recorded_start_same(a: Seq<GovernanceState>, b: Seq<GovernanceState>, other: Seq<char>)
    requires
        a.len() <= b.len(),
        forall|j: int|
            0 <= j < a.len() ==> (#[trigger] a[j].automation_id@ == other) == (b[j].automation_id@
                == other),
        forall|j: int|
            0 <= j < a.len() && #[trigger] a[j].automation_id@ == other ==> a[j].last_started_at_ms
                == b[j].last_started_at_ms,
        forall|j: int| a.len() <= j < b.len() ==> #[trigger] b[j].automation_id@ != other,
    ensures
        recorded_start(a, other) == recorded_start(b, other),
{
    assert forall|c: int| first_state(a, other, c) <==> first_state(b, other, c) by {
        if first_state(a, other, c) {
            assert forall|j: int| 0 <= j < c implies #[trigger] b[j].automation_id@ != other by {
                assert(a[j].automation_id@ != other);
            }
        }
        if first_state(b, other, c) {
            if c >= a.len() {
                assert(b[c].automation_id@ != other);
            }
            assert(a[c].automation_id@ == other);
            assert forall|j: int| 0 <= j < c implies #[trigger] a[j].automation_id@ != other by {
                assert(b[j].automation_id@ != other);
            }
        }
    }
    if exists|c: int| first_state(a, other, c) {
        let c = choose|c: int| first_state(a, other, c);
        let d = choose|d: int| first_state(b, other, d);
        assert(first_state(b, other, c));
        if d < c {
            assert(first_state(a, other, d));
            assert(a[d].automation_id@ != other);
        } else if c < d {
            assert(b[c].automation_id@ != other);
        }
        assert(a[c].automation_id@ == other);
    }
}

/// The lease a run is admitted under.
pub open spec fn admitted_lease(admission: AutomationRunAdmission) -> RunLease {
    RunLease {
        run_id: admission.run_id,
        automation_id: admission.automation_id,
        acquired_at_ms: admission.now_ms,
        expires_at_ms: admission.lease_expires_at_ms,
        daily_cost_budget_microunits: admission.daily_cost_budget_microunits,
    }
}

/// Admits a run against the stored leases and start times: expired leases
/// are dropped, [`admission_outcome`] decides from the Automation's live
/// leases and last start, and an admitted run gets its lease and becomes the
/// Automation's last start.
///
/// # Errors
///
/// Those of [`admission_outcome`], and a storage error when the run already
/// holds a live lease; the store is then unchanged.
pub fn start_run(
    leases: &mut Vec<RunLease>,
    states: &mut Vec<GovernanceState>,
    admission: &AutomationRunAdmission,
) -> (r: Result<(), SqlitePersistenceError>)
    ensures
        admission_outcome(
            *admission,
            active_leases(old(leases)@, admission.automation_id@, admission.now_ms) as u64,
            recorded_start(old(states)@, admission.automation_id@),
        ) matches Err(e) ==> r == Err::<(), SqlitePersistenceError>(e),
        admission_outcome(
            *admission,
            active_leases(old(leases)@, admission.automation_id@, admission.now_ms) as u64,
            recorded_start(old(states)@, admission.automation_id@),
        ) is Ok ==> if run_lease(unexpired_leases(old(leases)@, admission.now_ms), admission.run_id)
            is Some {
            r matches Err(SqlitePersistenceError::Sqlite(m)) && m@ == DUPLICATE_RUN_LEASE@
        } else {
            r is Ok
        },
        r is Err ==> final(leases)@ == old(leases)@ && final(states)@ == old(states)@,
        r is Ok ==> {
            &&& final(leases)@ == unexpired_leases(old(leases)@, admission.now_ms).push(
                admitted_lease(*admission),
            )
            &&& recorded_start(final(states)@, admission.automation_id@) == Some(admission.now_ms)
            &&& forall|other: Seq<char>|
                other != admission.automation_id@ ==> #[trigger] recorded_start(final(states)@, other)
                    == recorded_start(old(states)@, other)
        },
{
    let now = admission.now_ms;
    let active = count_active_leases(leases, admission.automation_id.as_str(), now);
    let found = find_state(states, admission.automation_id.as_str());
    let last = match found {
        Some(i) => Some(states[i].last_started_at_ms),
        None => None,
    };
    match admit_run(admission, active, last) {
        Ok(()) => {},
        Err(e) => return Err(e),
    }
    let mut live: Vec<RunLease> = Vec::new();
    let mut k: usize = 0;
    while k < leases.len()
        invariant
            0 <= k <= leases@.len(),
            live@ == unexpired_leases(leases@.take(k as int), now),
        decreases leases@.len() - k,
    {
        proof {
            assert(leases@.take(k + 1).drop_last() =~= leases@.take(k as int));
        }
        if leases[k].expires_at_ms > now {
            live.push(copy_lease(&leases[k]));
        }
        k = k + 1;
    }
    proof {
        assert(leases@.take(leases@.len() as int) =~= leases@);
    }
    if find_lease(&live, admission.run_id).is_some() {
        return Err(SqlitePersistenceError::Sqlite(DUPLICATE_RUN_LEASE.to_owned()));
    }
    live.push(
        RunLease {
            run_id: admission.run_id,
            automation_id: admission.automation_id.clone(),
            acquired_at_ms: now,
            expires_at_ms: admission.lease_expires_at_ms,
            daily_cost_budget_microunits: admission.daily_cost_budget_microunits,
        },
    );
    *leases = live;
    let ghost before = states@;
    match found {
        Some(i) => {
            let updated = GovernanceState {
                automation_id: states[i].automation_id.clone(),
                last_started_at_ms: now,
            };
            states.set(i, updated);
            proof {
                assert(first_state(states@, admission.automation_id@, i as int));
                let d = choose|d: int| first_state(states@, admission.automation_id@, d);
                if d < i {
                    assert(states@[d].automation_id@ != admission.automation_id@);
                } else if d > i {
                    assert(states@[i as int].automation_id@ != admission.automation_id@);
                }
                assert forall|other: Seq<char>| other != admission.automation_id@ implies #[trigger] recorded_start(
                    states@,
                    other,
                ) == recorded_start(before, other) by {
                    lemma_recorded_start_same(before, states@, other);
                }
            }
        },
        None => {
            states.push(GovernanceState { automation_id: admission.automation_id.clone(), last_started_at_ms: now });
            proof {
                let n = before.len() as int;
                assert forall|j: int| 0 <= j < n implies #[trigger] states@[j].automation_id@
                    != admission.automation_id@ by {
                    assert(states@[j] == before[j]);
                }
                assert(first_state(states@, admission.automation_id@, n));
                let d = choose|d: int| first_state(states@, admission.automation_id@, d);
                if d < n {
                    assert(states@[d].automation_id@ != admission.automation_id@);
                }
                assert forall|other: Seq<char>| other != admission.automation_id@ implies #[trigger] recorded_start(
                    states@,
                    other,
                ) == recorded_start(before, other) by {
                    lemma_recorded_start_same(before, states@, other);
                }
            }
        },
    }
    Ok(())
}

/// The ledger entry a reservation records, in the day bucket `day_bucket`,
/// for the Automation of its run's lease.
pub open spec fn reserved_entry(reservation: AutomationCostReservation, lease: RunLease, day_bucket: u64) -> AutomationCostEntry {
    AutomationCostEntry {
        task_id: reservation.task_id,
        run_id: reservation.run_id,
        automation_id: lease.automation_id,
        day_bucket,
        reserved_cost_microunits: reservation.reserved_cost_microunits,
        actual_cost_microunits: None,
        status: AutomationCostStatus::Reserved,
        updated_at_ms: reservation.now_ms,
    }
}

/// What reserving does to the ledger, given its run's lease: the error
/// (`None` when the day's sum overflows storage), or the entry added (`None`
/// when the same reservation is already recorded).
pub open spec fn reservation_effect(
    entries: Seq<AutomationCostEntry>,
    lease: Option<RunLease>,
    reservation: AutomationCostReservation,
) -> Result<Option<AutomationCostEntry>, Option<SqlitePersistenceError>> {
    match existing_reservation_outcome(reservation, task_entry(entries, reservation.task_id)) {
        Err(e) => Err(Some(e)),
        Ok(ReservationStep::AlreadyReserved) => Ok(None),
        Ok(ReservationStep::CheckBudget) => match lease {
            None => Err(Some(SqlitePersistenceError::InvalidAutomationGovernance)),
            Some(l) => {
                let committed = committed_cost(entries, l.automation_id@, (reservation.now_ms / DAY_MS) as u64);
                if committed > i64::MAX {
                    Err(None)
                } else {
                    match budget_outcome(reservation, Some(l.daily_cost_budget_microunits), committed as u64) {
                        Err(e) => Err(Some(e)),
                        Ok(day) => Ok(Some(reserved_entry(reservation, l, day))),
                    }
                }
            },
        },
    }
}

/// Reserves the cost of an Agent task against its run's daily budget: an
/// identical earlier reservation is accepted again, otherwise the run's lease
/// gives the Automation and budget, and a reserved entry is added when the
/// day's committed cost leaves room for it.
///
/// # Errors
///
/// Those of [`reservation_effect`], and a storage error when the day's sum
/// overflows; the ledger is then unchanged.
pub fn reserve_cost(
    entries: &mut Vec<AutomationCostEntry>,
    leases: &Vec<RunLease>,
    reservation: AutomationCostReservation,
) -> (r: Result<(), SqlitePersistenceError>)
    ensures
        match reservation_effect(old(entries)@, run_lease(leases@, reservation.run_id), reservation) {
            Err(None) => r matches Err(SqlitePersistenceError::Sqlite(m)) && m@ == INTEGER_OVERFLOW@,
            Err(Some(e)) => r == Err::<(), SqlitePersistenceError>(e),
            Ok(None) => r is Ok && final(entries)@ == old(entries)@,
            Ok(Some(entry)) => r is Ok && final(entries)@ == old(entries)@.push(entry),
        },
        r is Err ==> final(entries)@ == old(entries)@,
{
    let existing = match find_task(entries, reservation.task_id) {
        Some(i) => Some(copy_entry(&entries[i])),
        None => None,
    };
    match check_existing_reservation(reservation, &existing) {
        Err(e) => return Err(e),
        Ok(ReservationStep::AlreadyReserved) => return Ok(()),
        Ok(ReservationStep::CheckBudget) => {},
    }
    let lease = match find_lease(leases, reservation.run_id) {
        Some(i) => &leases[i],
        None => return Err(SqlitePersistenceError::InvalidAutomationGovernance),
    };
    let day_bucket = reservation.now_ms / DAY_MS;
    let committed = match day_committed_cost(entries, lease.automation_id.as_str(), day_bucket) {
        Ok(c) => c,
        Err(e) => return Err(e),
    };
    let day = match check_daily_budget(reservation, Some(lease.daily_cost_budget_microunits), committed) {
        Ok(d) => d,
        Err(e) => return Err(e),
    };
    entries.push(
        AutomationCostEntry {
            task_id: reservation.task_id,
            run_id: reservation.run_id,
            automation_id: lease.automation_id.clone(),
            day_bucket: day,
            reserved_cost_microunits: reservation.reserved_cost_microunits,
            actual_cost_microunits: None,
            status: AutomationCostStatus::Reserved,
            updated_at_ms: reservation.now_ms,
        },
    );
    Ok(())
}

} // verus!
