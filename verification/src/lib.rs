//! Verified core of the Nimora desktop lifeform runtime.
#![allow(unused_imports)]

pub mod agent_journal;
pub mod approvals;
pub mod authorization;
pub mod auto_mode;
pub mod automation_approvals;
pub mod backup;
pub mod capabilities;
pub mod catalog;
pub mod context_cache;
pub mod diagnostics;
pub mod displays;
pub mod error;
pub mod execution_history;
pub mod freshness;
pub mod goals;
pub mod grants;
pub mod governance;
pub mod hex;
pub mod history;
pub mod journal_entries;
pub mod journals;
pub mod model_import;
pub mod module_agent;
pub mod motion;
pub mod obstacles;
pub mod occlusion;
pub mod outbox;
pub mod paging;
pub mod provider_config;
pub mod records;
pub mod run_journal;
pub mod sensory;
pub mod singletons;
pub mod snapshot;
pub mod text;
pub mod turn_commit;
pub mod workspace_snapshots;

pub use obstacles::{
    avoid_obstacles, blocked_by_any, clamp_pet_origin, free_wander_target, rects_overlap,
    safe_origin_bounds,
    AvoidRequest, Rect, Size,
};
pub use sensory::{
    battery_sensory_band, battery_should_emit, idle_sensory_band, idle_sensory_band_from_ms,
    idle_should_emit, meeting_hint_label, meeting_should_emit, notification_should_emit,
    notification_unread_from_counts, sanitize_idle_ms, BooleanSensorGate, BATTERY_BAND_CHARGING,
    BATTERY_BAND_CRITICAL, BATTERY_BAND_LOW, BATTERY_BAND_OK, BATTERY_BAND_UNKNOWN,
    BATTERY_SAME_BAND_THROTTLE_MS, BOOLEAN_SENSOR_HOLD_MS, IDLE_BAND_ACTIVE, IDLE_BAND_APPROACH,
    IDLE_BAND_NOTICE, IDLE_BAND_REST, MAX_ENUMERATED_WINDOWS,
};
pub use snapshot::{
    obstacle_windows, validate_lifetime, validate_snapshot_fields, DegradationReason,
    DesktopContextError, DesktopWindow, ForegroundApp, Freshness, MeetingHint, MeetingState,
    PowerState, WorkArea, DESKTOP_CONTEXT_SPEC, MAX_SNAPSHOT_LIFETIME_MS,
};
