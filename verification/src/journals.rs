//! Persisted status vocabularies and their stored names.
use crate::text::str_equal;
use vstd::prelude::*;

verus! {

/// Status of an Automation child Agent task.
#[derive(Debug, Clone, Copy, PartialEq, Eq, Structural)]
pub enum AutomationAgentJournalStatus {
    Submitted,
    WaitingForConfirmation,
    Completed,
    Failed,
    Cancelled,
    Interrupted,
}

/// Stored name of a [`AutomationAgentJournalStatus`].
pub open spec fn automation_agent_status_label(value: AutomationAgentJournalStatus) -> Seq<char> {
    match value {
        AutomationAgentJournalStatus::Submitted => "submitted"@,
        AutomationAgentJournalStatus::WaitingForConfirmation => "waiting_for_confirmation"@,
        AutomationAgentJournalStatus::Completed => "completed"@,
        AutomationAgentJournalStatus::Failed => "failed"@,
        AutomationAgentJournalStatus::Cancelled => "cancelled"@,
        AutomationAgentJournalStatus::Interrupted => "interrupted"@,
    }
}

/// The stored name of a [`AutomationAgentJournalStatus`].
pub fn automation_agent_status_name(value: AutomationAgentJournalStatus) -> (r: &'static str)
    ensures
        r@ == automation_agent_status_label(value),
{
    match value {
        AutomationAgentJournalStatus::Submitted => "submitted",
        AutomationAgentJournalStatus::WaitingForConfirmation => "waiting_for_confirmation",
        AutomationAgentJournalStatus::Completed => "completed",
        AutomationAgentJournalStatus::Failed => "failed",
        AutomationAgentJournalStatus::Cancelled => "cancelled",
        AutomationAgentJournalStatus::Interrupted => "interrupted",
    }
}

/// The [`AutomationAgentJournalStatus`] with the given stored name.
pub open spec fn parsed_automation_agent_status(text: Seq<char>) -> Option<AutomationAgentJournalStatus> {
    if text == "submitted"@ {
        Some(AutomationAgentJournalStatus::Submitted)
    } else if text == "waiting_for_confirmation"@ {
        Some(AutomationAgentJournalStatus::WaitingForConfirmation)
    } else if text == "completed"@ {
        Some(AutomationAgentJournalStatus::Completed)
    } else if text == "failed"@ {
        Some(AutomationAgentJournalStatus::Failed)
    } else if text == "cancelled"@ {
        Some(AutomationAgentJournalStatus::Cancelled)
    } else if text == "interrupted"@ {
        Some(AutomationAgentJournalStatus::Interrupted)
    } else {
        None
    }
}

/// Parses a stored [`AutomationAgentJournalStatus`] name; `None` for unknown names.
pub fn parse_automation_agent_status(text: &str) -> (r: Option<AutomationAgentJournalStatus>)
    ensures
        r == parsed_automation_agent_status(text@),
{
    if str_equal(text, "submitted") {
        return Some(AutomationAgentJournalStatus::Submitted);
    }
    if str_equal(text, "waiting_for_confirmation") {
        return Some(AutomationAgentJournalStatus::WaitingForConfirmation);
    }
    if str_equal(text, "completed") {
        return Some(AutomationAgentJournalStatus::Completed);
    }
    if str_equal(text, "failed") {
        return Some(AutomationAgentJournalStatus::Failed);
    }
    if str_equal(text, "cancelled") {
        return Some(AutomationAgentJournalStatus::Cancelled);
    }
    if str_equal(text, "interrupted") {
        return Some(AutomationAgentJournalStatus::Interrupted);
    }
    None
}

/// Status of an Automation approval request.
#[derive(Debug, Clone, Copy, PartialEq, Eq, Structural)]
pub enum AutomationApprovalStatus {
    Pending,
    Executing,
    Completed,
    Rejected,
    Expired,
    Failed,
    Interrupted,
}

/// Stored name of a [`AutomationApprovalStatus`].
pub open spec fn automation_approval_status_label(value: AutomationApprovalStatus) -> Seq<char> {
    match value {
        AutomationApprovalStatus::Pending => "pending"@,
        AutomationApprovalStatus::Executing => "executing"@,
        AutomationApprovalStatus::Completed => "completed"@,
        AutomationApprovalStatus::Rejected => "rejected"@,
        AutomationApprovalStatus::Expired => "expired"@,
        AutomationApprovalStatus::Failed => "failed"@,
        AutomationApprovalStatus::Interrupted => "interrupted"@,
    }
}

/// The stored name of a [`AutomationApprovalStatus`].
pub fn automation_approval_status_name(value: AutomationApprovalStatus) -> (r: &'static str)
    ensures
        r@ == automation_approval_status_label(value),
{
    match value {
        AutomationApprovalStatus::Pending => "pending",
        AutomationApprovalStatus::Executing => "executing",
        AutomationApprovalStatus::Completed => "completed",
        AutomationApprovalStatus::Rejected => "rejected",
        AutomationApprovalStatus::Expired => "expired",
        AutomationApprovalStatus::Failed => "failed",
        AutomationApprovalStatus::Interrupted => "interrupted",
    }
}

/// Status of a pending Skill execution plan.
#[derive(Debug, Clone, Copy, PartialEq, Eq, Structural)]
pub enum SkillApprovalJournalStatus {
    Pending,
    Executing,
    Completed,
    Rejected,
    Expired,
    Failed,
    Interrupted,
}

/// Stored name of a [`SkillApprovalJournalStatus`].
pub open spec fn skill_approval_status_label(value: SkillApprovalJournalStatus) -> Seq<char> {
    match value {
        SkillApprovalJournalStatus::Pending => "pending"@,
        SkillApprovalJournalStatus::Executing => "executing"@,
        SkillApprovalJournalStatus::Completed => "completed"@,
        SkillApprovalJournalStatus::Rejected => "rejected"@,
        SkillApprovalJournalStatus::Expired => "expired"@,
        SkillApprovalJournalStatus::Failed => "failed"@,
        SkillApprovalJournalStatus::Interrupted => "interrupted"@,
    }
}

/// The stored name of a [`SkillApprovalJournalStatus`].
pub fn skill_approval_status_name(value: SkillApprovalJournalStatus) -> (r: &'static str)
    ensures
        r@ == skill_approval_status_label(value),
{
    match value {
        SkillApprovalJournalStatus::Pending => "pending",
        SkillApprovalJournalStatus::Executing => "executing",
        SkillApprovalJournalStatus::Completed => "completed",
        SkillApprovalJournalStatus::Rejected => "rejected",
        SkillApprovalJournalStatus::Expired => "expired",
        SkillApprovalJournalStatus::Failed => "failed",
        SkillApprovalJournalStatus::Interrupted => "interrupted",
    }
}

/// Status of a recorded Skill execution.
#[derive(Debug, Clone, Copy, PartialEq, Eq, Structural)]
pub enum SkillExecutionHistoryStatus {
    WaitingForApproval,
    Completed,
    Rejected,
    Cancelled,
    Failed,
}

/// Stored name of a [`SkillExecutionHistoryStatus`].
pub open spec fn skill_execution_status_label(value: SkillExecutionHistoryStatus) -> Seq<char> {
    match value {
        SkillExecutionHistoryStatus::WaitingForApproval => "waiting-for-approval"@,
        SkillExecutionHistoryStatus::Completed => "completed"@,
        SkillExecutionHistoryStatus::Rejected => "rejected"@,
        SkillExecutionHistoryStatus::Cancelled => "cancelled"@,
        SkillExecutionHistoryStatus::Failed => "failed"@,
    }
}

/// The stored name of a [`SkillExecutionHistoryStatus`].
pub fn skill_execution_status_name(value: SkillExecutionHistoryStatus) -> (r: &'static str)
    ensures
        r@ == skill_execution_status_label(value),
{
    match value {
        SkillExecutionHistoryStatus::WaitingForApproval => "waiting-for-approval",
        SkillExecutionHistoryStatus::Completed => "completed",
        SkillExecutionHistoryStatus::Rejected => "rejected",
        SkillExecutionHistoryStatus::Cancelled => "cancelled",
        SkillExecutionHistoryStatus::Failed => "failed",
    }
}

/// Status of an Automation run.
#[derive(Debug, Clone, Copy, PartialEq, Eq, Structural)]
pub enum AutomationJournalStatus {
    Running,
    Completed,
    Interrupted,
}

/// Stored name of a [`AutomationJournalStatus`].
pub open spec fn automation_journal_status_label(value: AutomationJournalStatus) -> Seq<char> {
    match value {
        AutomationJournalStatus::Running => "running"@,
        AutomationJournalStatus::Completed => "completed"@,
        AutomationJournalStatus::Interrupted => "interrupted"@,
    }
}

/// The stored name of a [`AutomationJournalStatus`].
pub fn automation_journal_status_name(value: AutomationJournalStatus) -> (r: &'static str)
    ensures
        r@ == automation_journal_status_label(value),
{
    match value {
        AutomationJournalStatus::Running => "running",
        AutomationJournalStatus::Completed => "completed",
        AutomationJournalStatus::Interrupted => "interrupted",
    }
}

/// The [`AutomationJournalStatus`] with the given stored name.
pub open spec fn parsed_automation_journal_status(text: Seq<char>) -> Option<AutomationJournalStatus> {
    if text == "running"@ {
        Some(AutomationJournalStatus::Running)
    } else if text == "completed"@ {
        Some(AutomationJournalStatus::Completed)
    } else if text == "interrupted"@ {
        Some(AutomationJournalStatus::Interrupted)
    } else {
        None
    }
}

/// Parses a stored [`AutomationJournalStatus`] name; `None` for unknown names.
pub fn parse_automation_journal_status(text: &str) -> (r: Option<AutomationJournalStatus>)
    ensures
        r == parsed_automation_journal_status(text@),
{
    if str_equal(text, "running") {
        return Some(AutomationJournalStatus::Running);
    }
    if str_equal(text, "completed") {
        return Some(AutomationJournalStatus::Completed);
    }
    if str_equal(text, "interrupted") {
        return Some(AutomationJournalStatus::Interrupted);
    }
    None
}

/// Status of an Auto Mode turn attempt.
#[derive(Debug, Clone, Copy, PartialEq, Eq, Structural)]
pub enum AutoModeTurnAttemptStatus {
    Active,
    Indeterminate,
}

/// Stored name of a [`AutoModeTurnAttemptStatus`].
pub open spec fn turn_attempt_status_label(value: AutoModeTurnAttemptStatus) -> Seq<char> {
    match value {
        AutoModeTurnAttemptStatus::Active => "active"@,
        AutoModeTurnAttemptStatus::Indeterminate => "indeterminate"@,
    }
}

/// The stored name of a [`AutoModeTurnAttemptStatus`].
pub fn turn_attempt_status_name(value: AutoModeTurnAttemptStatus) -> (r: &'static str)
    ensures
        r@ == turn_attempt_status_label(value),
{
    match value {
        AutoModeTurnAttemptStatus::Active => "active",
        AutoModeTurnAttemptStatus::Indeterminate => "indeterminate",
    }
}

/// The [`AutoModeTurnAttemptStatus`] with the given stored name.
pub open spec fn parsed_turn_attempt_status(text: Seq<char>) -> Option<AutoModeTurnAttemptStatus> {
    if text == "active"@ {
        Some(AutoModeTurnAttemptStatus::Active)
    } else if text == "indeterminate"@ {
        Some(AutoModeTurnAttemptStatus::Indeterminate)
    } else {
        None
    }
}

/// Parses a stored [`AutoModeTurnAttemptStatus`] name; `None` for unknown names.
pub fn parse_turn_attempt_status(text: &str) -> (r: Option<AutoModeTurnAttemptStatus>)
    ensures
        r == parsed_turn_attempt_status(text@),
{
    if str_equal(text, "active") {
        return Some(AutoModeTurnAttemptStatus::Active);
    }
    if str_equal(text, "indeterminate") {
        return Some(AutoModeTurnAttemptStatus::Indeterminate);
    }
    None
}

/// Status of a reserved Automation cost.
#[derive(Debug, Clone, Copy, PartialEq, Eq, Structural)]
pub enum AutomationCostStatus {
    Reserved,
    Settled,
    Indeterminate,
}

/// Stored name of a [`AutomationCostStatus`].
pub open spec fn cost_status_label(value: AutomationCostStatus) -> Seq<char> {
    match value {
        AutomationCostStatus::Reserved => "reserved"@,
        AutomationCostStatus::Settled => "settled"@,
        AutomationCostStatus::Indeterminate => "indeterminate"@,
    }
}

/// The stored name of a [`AutomationCostStatus`].
pub fn cost_status_name(value: AutomationCostStatus) -> (r: &'static str)
    ensures
        r@ == cost_status_label(value),
{
    match value {
        AutomationCostStatus::Reserved => "reserved",
        AutomationCostStatus::Settled => "settled",
        AutomationCostStatus::Indeterminate => "indeterminate",
    }
}

/// The [`AutomationCostStatus`] with the given stored name.
pub open spec fn parsed_cost_status(text: Seq<char>) -> Option<AutomationCostStatus> {
    if text == "reserved"@ {
        Some(AutomationCostStatus::Reserved)
    } else if text == "settled"@ {
        Some(AutomationCostStatus::Settled)
    } else if text == "indeterminate"@ {
        Some(AutomationCostStatus::Indeterminate)
    } else {
        None
    }
}

/// Parses a stored [`AutomationCostStatus`] name; `None` for unknown names.
pub fn parse_cost_status(text: &str) -> (r: Option<AutomationCostStatus>)
    ensures
        r == parsed_cost_status(text@),
{
    if str_equal(text, "reserved") {
        return Some(AutomationCostStatus::Reserved);
    }
    if str_equal(text, "settled") {
        return Some(AutomationCostStatus::Settled);
    }
    if str_equal(text, "indeterminate") {
        return Some(AutomationCostStatus::Indeterminate);
    }
    None
}

/// Evidence behind a cost reconciliation.
#[derive(Debug, Clone, Copy, PartialEq, Eq, Structural)]
pub enum AutomationCostReconciliationReason {
    ProviderStatement,
    BillingExport,
    OperatorConservativeEstimate,
}

/// Stored name of a [`AutomationCostReconciliationReason`].
pub open spec fn reconciliation_reason_label(value: AutomationCostReconciliationReason) -> Seq<char> {
    match value {
        AutomationCostReconciliationReason::ProviderStatement => "provider_statement"@,
        AutomationCostReconciliationReason::BillingExport => "billing_export"@,
        AutomationCostReconciliationReason::OperatorConservativeEstimate => "operator_conservative_estimate"@,
    }
}

/// The stored name of a [`AutomationCostReconciliationReason`].
pub fn reconciliation_reason_name(value: AutomationCostReconciliationReason) -> (r: &'static str)
    ensures
        r@ == reconciliation_reason_label(value),
{
    match value {
        AutomationCostReconciliationReason::ProviderStatement => "provider_statement",
        AutomationCostReconciliationReason::BillingExport => "billing_export",
        AutomationCostReconciliationReason::OperatorConservativeEstimate => "operator_conservative_estimate",
    }
}

/// The [`AutomationCostReconciliationReason`] with the given stored name.
pub open spec fn parsed_reconciliation_reason(text: Seq<char>) -> Option<AutomationCostReconciliationReason> {
    if text == "provider_statement"@ {
        Some(AutomationCostReconciliationReason::ProviderStatement)
    } else if text == "billing_export"@ {
        Some(AutomationCostReconciliationReason::BillingExport)
    } else if text == "operator_conservative_estimate"@ {
        Some(AutomationCostReconciliationReason::OperatorConservativeEstimate)
    } else {
        None
    }
}

/// Parses a stored [`AutomationCostReconciliationReason`] name; `None` for unknown names.
pub fn parse_reconciliation_reason(text: &str) -> (r: Option<AutomationCostReconciliationReason>)
    ensures
        r == parsed_reconciliation_reason(text@),
{
    if str_equal(text, "provider_statement") {
        return Some(AutomationCostReconciliationReason::ProviderStatement);
    }
    if str_equal(text, "billing_export") {
        return Some(AutomationCostReconciliationReason::BillingExport);
    }
    if str_equal(text, "operator_conservative_estimate") {
        return Some(AutomationCostReconciliationReason::OperatorConservativeEstimate);
    }
    None
}

/// Operator decision on an indeterminate Auto Mode attempt.
#[derive(Debug, Clone, Copy, PartialEq, Eq, Structural)]
pub enum AutoModeAttemptResolutionDecision {
    ConfirmedNotExecuted,
    AcceptExternalEffectAndCancel,
}

/// Stored name of a [`AutoModeAttemptResolutionDecision`].
pub open spec fn decision_label(value: AutoModeAttemptResolutionDecision) -> Seq<char> {
    match value {
        AutoModeAttemptResolutionDecision::ConfirmedNotExecuted => "confirmed_not_executed"@,
        AutoModeAttemptResolutionDecision::AcceptExternalEffectAndCancel => "accept_external_effect_and_cancel"@,
    }
}

/// The stored name of a [`AutoModeAttemptResolutionDecision`].
pub fn decision_name(value: AutoModeAttemptResolutionDecision) -> (r: &'static str)
    ensures
        r@ == decision_label(value),
{
    match value {
        AutoModeAttemptResolutionDecision::ConfirmedNotExecuted => "confirmed_not_executed",
        AutoModeAttemptResolutionDecision::AcceptExternalEffectAndCancel => "accept_external_effect_and_cancel",
    }
}

/// An Automation child Agent task moves from `Submitted` to any later state,
/// and from `WaitingForConfirmation` to a terminal one; nothing else moves.
pub open spec fn agent_transition_allowed(
    from: AutomationAgentJournalStatus,
    to: AutomationAgentJournalStatus,
) -> bool {
    match from {
        AutomationAgentJournalStatus::Submitted => to != AutomationAgentJournalStatus::Submitted,
        AutomationAgentJournalStatus::WaitingForConfirmation => to
            != AutomationAgentJournalStatus::Submitted && to
            != AutomationAgentJournalStatus::WaitingForConfirmation,
        _ => false,
    }
}

/// Whether an Automation child Agent task may move from `from` to `to`.
pub fn valid_transition(from: AutomationAgentJournalStatus, to: AutomationAgentJournalStatus) -> (r:
    bool)
    ensures
        r == agent_transition_allowed(from, to),
{
    match (from, to) {
        (AutomationAgentJournalStatus::Submitted, AutomationAgentJournalStatus::Submitted) => false,
        (AutomationAgentJournalStatus::Submitted, _) => true,
        (
            AutomationAgentJournalStatus::WaitingForConfirmation,
            AutomationAgentJournalStatus::Submitted,
        ) => false,
        (
            AutomationAgentJournalStatus::WaitingForConfirmation,
            AutomationAgentJournalStatus::WaitingForConfirmation,
        ) => false,
        (AutomationAgentJournalStatus::WaitingForConfirmation, _) => true,
        _ => false,
    }
}

/// Law: terminal Automation child Agent states never move, and no state moves
/// to itself.
pub proof fn law_agent_terminal_states_are_final(
    from: AutomationAgentJournalStatus,
    to: AutomationAgentJournalStatus,
)
    ensures
        from != AutomationAgentJournalStatus::Submitted && from
            != AutomationAgentJournalStatus::WaitingForConfirmation ==> !agent_transition_allowed(
            from,
            to,
        ),
        !agent_transition_allowed(from, from),
{
}

/// Law: parsing the stored name of a [`AutomationAgentJournalStatus`] gives it back.
pub proof fn law_automation_agent_status_round_trip(value: AutomationAgentJournalStatus)
    ensures
        parsed_automation_agent_status(automation_agent_status_label(value)) == Some(value),
{
    reveal_strlit("submitted");
    reveal_strlit("waiting_for_confirmation");
    reveal_strlit("completed");
    reveal_strlit("failed");
    reveal_strlit("cancelled");
    reveal_strlit("interrupted");
    match value {
        AutomationAgentJournalStatus::Submitted => {
            assert("submitted"@.len() != "waiting_for_confirmation"@.len());
            assert("submitted"@[0] != "completed"@[0]);
            assert("submitted"@.len() != "failed"@.len());
            assert("submitted"@[0] != "cancelled"@[0]);
            assert("submitted"@.len() != "interrupted"@.len());
        },
        AutomationAgentJournalStatus::WaitingForConfirmation => {
            assert("waiting_for_confirmation"@.len() != "submitted"@.len());
            assert("waiting_for_confirmation"@.len() != "completed"@.len());
            assert("waiting_for_confirmation"@.len() != "failed"@.len());
            assert("waiting_for_confirmation"@.len() != "cancelled"@.len());
            assert("waiting_for_confirmation"@.len() != "interrupted"@.len());
        },
        AutomationAgentJournalStatus::Completed => {
            assert("completed"@[0] != "submitted"@[0]);
            assert("completed"@.len() != "waiting_for_confirmation"@.len());
            assert("completed"@.len() != "failed"@.len());
            assert("completed"@[1] != "cancelled"@[1]);
            assert("completed"@.len() != "interrupted"@.len());
        },
        AutomationAgentJournalStatus::Failed => {
            assert("failed"@.len() != "submitted"@.len());
            assert("failed"@.len() != "waiting_for_confirmation"@.len());
            assert("failed"@.len() != "completed"@.len());
            assert("failed"@.len() != "cancelled"@.len());
            assert("failed"@.len() != "interrupted"@.len());
        },
        AutomationAgentJournalStatus::Cancelled => {
            assert("cancelled"@[0] != "submitted"@[0]);
            assert("cancelled"@.len() != "waiting_for_confirmation"@.len());
            assert("cancelled"@[1] != "completed"@[1]);
            assert("cancelled"@.len() != "failed"@.len());
            assert("cancelled"@.len() != "interrupted"@.len());
        },
        AutomationAgentJournalStatus::Interrupted => {
            assert("interrupted"@.len() != "submitted"@.len());
            assert("interrupted"@.len() != "waiting_for_confirmation"@.len());
            assert("interrupted"@.len() != "completed"@.len());
            assert("interrupted"@.len() != "failed"@.len());
            assert("interrupted"@.len() != "cancelled"@.len());
        },
    }
}

/// Law: parsing the stored name of a [`AutomationJournalStatus`] gives it back.
pub proof fn law_automation_journal_status_round_trip(value: AutomationJournalStatus)
    ensures
        parsed_automation_journal_status(automation_journal_status_label(value)) == Some(value),
{
    reveal_strlit("running");
    reveal_strlit("completed");
    reveal_strlit("interrupted");
    match value {
        AutomationJournalStatus::Running => {
            assert("running"@.len() != "completed"@.len());
            assert("running"@.len() != "interrupted"@.len());
        },
        AutomationJournalStatus::Completed => {
            assert("completed"@.len() != "running"@.len());
            assert("completed"@.len() != "interrupted"@.len());
        },
        AutomationJournalStatus::Interrupted => {
            assert("interrupted"@.len() != "running"@.len());
            assert("interrupted"@.len() != "completed"@.len());
        },
    }
}

/// Law: parsing the stored name of a [`AutoModeTurnAttemptStatus`] gives it back.
pub proof fn law_turn_attempt_status_round_trip(value: AutoModeTurnAttemptStatus)
    ensures
        parsed_turn_attempt_status(turn_attempt_status_label(value)) == Some(value),
{
    reveal_strlit("active");
    reveal_strlit("indeterminate");
    match value {
        AutoModeTurnAttemptStatus::Active => {
            assert("active"@.len() != "indeterminate"@.len());
        },
        AutoModeTurnAttemptStatus::Indeterminate => {
            assert("indeterminate"@.len() != "active"@.len());
        },
    }
}

/// Law: parsing the stored name of a [`AutomationCostStatus`] gives it back.
pub proof fn law_cost_status_round_trip(value: AutomationCostStatus)
    ensures
        parsed_cost_status(cost_status_label(value)) == Some(value),
{
    reveal_strlit("reserved");
    reveal_strlit("settled");
    reveal_strlit("indeterminate");
    match value {
        AutomationCostStatus::Reserved => {
            assert("reserved"@.len() != "settled"@.len());
            assert("reserved"@.len() != "indeterminate"@.len());
        },
        AutomationCostStatus::Settled => {
            assert("settled"@.len() != "reserved"@.len());
            assert("settled"@.len() != "indeterminate"@.len());
        },
        AutomationCostStatus::Indeterminate => {
            assert("indeterminate"@.len() != "reserved"@.len());
            assert("indeterminate"@.len() != "settled"@.len());
        },
    }
}

/// Law: parsing the stored name of a [`AutomationCostReconciliationReason`] gives it back.
pub proof fn law_reconciliation_reason_round_trip(value: AutomationCostReconciliationReason)
    ensures
        parsed_reconciliation_reason(reconciliation_reason_label(value)) == Some(value),
{
    reveal_strlit("provider_statement");
    reveal_strlit("billing_export");
    reveal_strlit("operator_conservative_estimate");
    match value {
        AutomationCostReconciliationReason::ProviderStatement => {
            assert("provider_statement"@.len() != "billing_export"@.len());
            assert("provider_statement"@.len() != "operator_conservative_estimate"@.len());
        },
        AutomationCostReconciliationReason::BillingExport => {
            assert("billing_export"@.len() != "provider_statement"@.len());
            assert("billing_export"@.len() != "operator_conservative_estimate"@.len());
        },
        AutomationCostReconciliationReason::OperatorConservativeEstimate => {
            assert("operator_conservative_estimate"@.len() != "provider_statement"@.len());
            assert("operator_conservative_estimate"@.len() != "billing_export"@.len());
        },
    }
}

} // verus!
