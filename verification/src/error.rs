//! Errors of the persistence rules.
use vstd::prelude::*;

verus! {

/// Errors produced while validating, converting or deciding on persisted records.
///
/// Failures of the storage engine, serialization, the file system or the
/// clock carry the host's message.
#[derive(Debug, Clone, PartialEq, Eq)]
pub enum SqlitePersistenceError {
    StatePoisoned,
    InvalidAutomationGovernance,
    InvalidOutboxRequest,
    InvalidContextCache,
    InvalidAgentGoal,
    AuthorizationGrantEncryption,
    InvalidAutoModeSession,
    ContextCacheEncryption,
    InvalidProviderConfig,
    InvalidAutomationJournal,
    InvalidAutoModeCheckpoint,
    InvalidAutoModeAttemptResolution,
    InvalidAuthorizationGrant,
    SkillApprovalNotPending,
    InvalidAgentHistory,
    AutoModeAttemptResolutionConflict,
    InvalidWorkspaceSnapshot,
    InvalidAutomationAgentJournal,
    InvalidAutoModeTurnAttempt,
    InvalidSkillApprovalJournal,
    InvalidAutomationApprovalJournal,
    InvalidSkillExecutionHistory,
    InvalidBackupRequest,
    AutomationCostReconciliationConflict,
    OutboxLeaseNotOwned,
    InvalidSkillState,
    AgentGoalConflict,
    WorkspaceSnapshotConflict,
    ProviderConfigConflict,
    InvalidPermissionGrant,
    InvalidAutomationCatalog,
    AutomationCostReservationConflict,
    AutomationApprovalNotPending,
    AutoModeCommitConflict,
    AutomationPreviousVersionUnavailable,
    AutomationDailyCostBudgetExceeded,
    AutomationCooldownActive,
    AutomationConcurrencyExceeded,
    AutoModeSessionConflict,
    SnapshotVersionMismatch,
    SkillApprovalExpired,
    AutomationVersionNotNewer,
    AutomationVersionAlreadyInstalled,
    AutomationNotInstalled,
    AutoModeTurnAttemptConflict,
    AutoModeSessionNotFound,
    AutoModeCheckpointConflict,
    AuthorizationGrantNotFound,
    AuthorizationGrantConflict,
    AuthorizationGrantAlreadyRevoked,
    AgentGoalNotFound,
    AutomationApprovalExpired,
    UnsupportedDatabaseVersion(i64),
    UnsupportedPetSnapshotVersion(u32),
    UnsupportedProfileSnapshotVersion(u32),
    UnsupportedAuthorizationGrantVersion(u32),
    UnsupportedContextCacheVersion(u32),
    UnsupportedWorkspaceSnapshotVersion(u32),
    UnsupportedSkillExecutionHistoryVersion(u32),
    UnsupportedSkillApprovalJournalVersion(u32),
    UnsupportedAutomationJournalVersion(u32),
    UnsupportedAutomationApprovalJournalVersion(u32),
    UnsupportedAutomationAgentJournalVersion(u32),
    UnsupportedAutoModeSessionVersion(u32),
    UnsupportedAutoModeCheckpointVersion(u32),
    UnsupportedAgentHistoryVersion(u32),
    UnsupportedAgentGoalVersion(u32),
    Sqlite(String),
    Json(String),
    Io(String),
    SystemClock(String),
}

} // verus!
