//! Versioned desktop observation types and their integral geometry.
//!
//! The host samples the operating system; these types hold what the planners
//! read. Fractional values (display scale, cursor position) stay with the host.
use crate::displays;
use crate::displays::{containing_display, display_bounds_seq, union_area};
use crate::occlusion::{occluders_from_snapshot, snapshot_occluders_ok, OccluderRect};
use vstd::prelude::*;

verus! {

/// Wire/spec identifier for desktop context snapshots.
pub const DESKTOP_CONTEXT_SPEC: &'static str = "nimora.desktop-context/1";

/// Maximum allowed observation lifetime (hard cap at construction).
pub const MAX_SNAPSHOT_LIFETIME_MS: u64 = 30_000;

/// Errors produced while constructing or validating desktop context values.
#[derive(Debug, Clone, Copy, PartialEq, Eq, Structural)]
pub enum DesktopContextError {
    InvalidLifetime,
    ClockSkew,
    InvalidSpec,
}

/// How trustworthy a snapshot is for motion decisions.
#[derive(Debug, Clone, Copy, PartialEq, Eq, Structural)]
pub enum Freshness {
    /// Sample is recent and complete enough for full motion planning.
    Fresh,
    /// Sample is past its soft expiry; treat as free-wander only.
    Stale,
    /// Sample is partial or degraded; do not use obstacle geometry.
    Degraded,
}

/// Why a snapshot was marked degraded.
#[derive(Debug, Clone, Copy, PartialEq, Eq, Structural)]
pub enum DegradationReason {
    Timeout,
    PermissionDenied,
    PlatformUnavailable,
    PartialSample,
    ClockSkew,
}

/// Best-effort meeting application hint (privacy-preserving; no titles).
#[derive(Debug, Clone, Copy, PartialEq, Eq, Structural)]
pub enum MeetingHint {
    Zoom,
    Teams,
    Meet,
    Webex,
    Unknown,
    NoHint,
}

/// Axis-aligned integer rectangle in physical desktop coordinates.
#[derive(Debug, Clone, Copy, PartialEq, Eq, Structural)]
pub struct WorkArea {
    pub x: i32,
    pub y: i32,
    pub width: u32,
    pub height: u32,
}

/// Observed OS window, with optional hashed title only (never raw user titles).
#[derive(Debug, Clone, PartialEq, Eq)]
pub struct DesktopWindow {
    pub id: String,
    /// Privacy-preserving hash of the window title when available.
    pub title_hash: Option<String>,
    /// Host set this when a raw title was redacted before persistence.
    pub title_redacted: bool,
    pub x: i32,
    pub y: i32,
    pub width: u32,
    pub height: u32,
    pub z_order: i32,
    pub owner_pid: u32,
    pub owner_name: String,
    pub onscreen: bool,
    pub is_minimized: bool,
    pub is_fullscreen_candidate: bool,
    /// Shell/chrome windows (taskbar, dock) are excluded from obstacles.
    pub is_shell: bool,
}

/// Foreground application summary without window titles.
#[derive(Debug, Clone, PartialEq, Eq)]
pub struct ForegroundApp {
    pub app_name: String,
    pub pid: u32,
    pub window_id: Option<String>,
}

/// Display geometry and work area in physical pixels.
///
/// The host keeps each display's scale factor; the planners read geometry only.
#[derive(Debug, Clone, PartialEq, Eq)]
pub struct DesktopDisplay {
    pub id: String,
    pub x: i32,
    pub y: i32,
    pub width: u32,
    pub height: u32,
    pub work_area: WorkArea,
}

/// Battery / AC power summary.
#[derive(Debug, Clone, Copy, PartialEq, Eq, Structural)]
pub struct PowerState {
    pub on_battery: bool,
    pub battery_percent: Option<u8>,
    pub charging: bool,
}

/// Meeting activity hint derived from process/app signals.
#[derive(Debug, Clone, Copy, PartialEq, Eq, Structural)]
pub struct MeetingState {
    pub active: bool,
    pub hint: MeetingHint,
}

impl WorkArea {
    pub open spec fn right_edge(self) -> int {
        self.x + self.width
    }

    pub open spec fn bottom_edge(self) -> int {
        self.y + self.height
    }

    pub open spec fn area_value(self) -> int {
        self.width * self.height
    }

    /// Area in square pixels.
    pub fn area(&self) -> (r: u64)
        ensures
            r == self.area_value(),
    {
        proof {
            let w = self.width as int;
            let h = self.height as int;
            assert(0 <= w * h <= u32::MAX * u32::MAX) by (nonlinear_arith)
                requires
                    0 <= w <= u32::MAX,
                    0 <= h <= u32::MAX,
            ;
        }
        self.width as u64 * self.height as u64
    }

    /// Right edge (exclusive) as `i64`.
    pub fn right(&self) -> (r: i64)
        ensures
            r == self.right_edge(),
    {
        self.x as i64 + self.width as i64
    }

    /// Bottom edge (exclusive) as `i64`.
    pub fn bottom(&self) -> (r: i64)
        ensures
            r == self.bottom_edge(),
    {
        self.y as i64 + self.height as i64
    }
}

impl DesktopDisplay {
    /// Full display bounds as a [`WorkArea`].
    pub open spec fn bounds_value(self) -> WorkArea {
        WorkArea { x: self.x, y: self.y, width: self.width, height: self.height }
    }

    /// Full display bounds as a [`WorkArea`].
    pub fn bounds(&self) -> (r: WorkArea)
        ensures
            r == self.bounds_value(),
    {
        WorkArea { x: self.x, y: self.y, width: self.width, height: self.height }
    }
}

impl DesktopWindow {
    /// Returns the window bounds as a [`WorkArea`].
    pub fn bounds(&self) -> (r: WorkArea)
        ensures
            r == (WorkArea { x: self.x, y: self.y, width: self.width, height: self.height }),
    {
        WorkArea { x: self.x, y: self.y, width: self.width, height: self.height }
    }

    /// Onscreen, non-minimized, non-shell windows are obstacles.
    pub open spec fn is_obstacle(self) -> bool {
        self.onscreen && !self.is_minimized && !self.is_shell
    }
}

/// A lifetime `expires_at_ms - observed_at_ms` is valid when positive and at
/// most [`MAX_SNAPSHOT_LIFETIME_MS`].
pub open spec fn valid_lifetime(observed_at_ms: u64, expires_at_ms: u64) -> bool {
    observed_at_ms < expires_at_ms && expires_at_ms - observed_at_ms <= MAX_SNAPSHOT_LIFETIME_MS
}

/// Checks the observation lifetime of a snapshot.
///
/// # Errors
///
/// Returns [`DesktopContextError::InvalidLifetime`] when the lifetime is zero,
/// inverted, or longer than the policy cap.
pub fn validate_lifetime(observed_at_ms: u64, expires_at_ms: u64) -> (r: Result<
    (),
    DesktopContextError,
>)
    ensures
        r is Ok <==> valid_lifetime(observed_at_ms, expires_at_ms),
        r is Err ==> r == Err::<(), DesktopContextError>(DesktopContextError::InvalidLifetime),
{
    let lifetime = match expires_at_ms.checked_sub(observed_at_ms) {
        Some(value) => value,
        None => return Err(DesktopContextError::InvalidLifetime),
    };
    if lifetime == 0 || lifetime > MAX_SNAPSHOT_LIFETIME_MS {
        return Err(DesktopContextError::InvalidLifetime);
    }
    Ok(())
}

/// Validates the wire fields of a deserialized snapshot: the spec identifier
/// first, then the lifetime.
///
/// # Errors
///
/// Returns [`DesktopContextError::InvalidSpec`] for an unknown spec and
/// [`DesktopContextError::InvalidLifetime`] for an invalid lifetime.
pub fn validate_snapshot_fields(spec: &str, observed_at_ms: u64, expires_at_ms: u64) -> (r: Result<
    (),
    DesktopContextError,
>)
    ensures
        spec@ != DESKTOP_CONTEXT_SPEC@ ==> r == Err::<(), DesktopContextError>(
            DesktopContextError::InvalidSpec,
        ),
        spec@ == DESKTOP_CONTEXT_SPEC@ ==> (r is Ok <==> valid_lifetime(
            observed_at_ms,
            expires_at_ms,
        )),
        spec@ == DESKTOP_CONTEXT_SPEC@ && r is Err ==> r == Err::<(), DesktopContextError>(
            DesktopContextError::InvalidLifetime,
        ),
{
    if !crate::text::str_equal(spec, DESKTOP_CONTEXT_SPEC) {
        return Err(DesktopContextError::InvalidSpec);
    }
    validate_lifetime(observed_at_ms, expires_at_ms)
}

/// Construction inputs for a versioned [`DesktopSnapshot`].
#[derive(Debug, Clone, PartialEq, Eq)]
pub struct DesktopSnapshotParts {
    pub windows: Vec<DesktopWindow>,
    pub foreground: Option<ForegroundApp>,
    pub displays: Vec<DesktopDisplay>,
    pub power: Option<PowerState>,
    pub idle_ms: u64,
    pub meeting: MeetingState,
    pub observed_at_ms: u64,
    pub expires_at_ms: u64,
    pub freshness: Freshness,
    pub degradation_reason: Option<DegradationReason>,
}

/// Versioned desktop lifeform context snapshot, as read by the planners.
///
/// The host keeps the optional cursor sample beside it.
#[derive(Debug, Clone, PartialEq, Eq)]
pub struct DesktopSnapshot {
    pub spec: String,
    pub windows: Vec<DesktopWindow>,
    pub foreground: Option<ForegroundApp>,
    pub displays: Vec<DesktopDisplay>,
    pub power: Option<PowerState>,
    pub idle_ms: u64,
    pub meeting: MeetingState,
    pub observed_at_ms: u64,
    pub expires_at_ms: u64,
    pub freshness: Freshness,
    pub degradation_reason: Option<DegradationReason>,
}

impl DesktopSnapshot {
    /// Builds a validated snapshot with the current wire spec.
    ///
    /// # Errors
    ///
    /// Returns an error when the lifetime is zero, inverted, or longer than the policy cap.
    pub fn new(parts: DesktopSnapshotParts) -> (r: Result<Self, DesktopContextError>)
        ensures
            r is Ok <==> valid_lifetime(parts.observed_at_ms, parts.expires_at_ms),
            r is Err ==> r == Err::<Self, DesktopContextError>(DesktopContextError::InvalidLifetime),
            r matches Ok(snapshot) ==> {
                &&& snapshot.spec@ == DESKTOP_CONTEXT_SPEC@
                &&& snapshot.windows == parts.windows
                &&& snapshot.foreground == parts.foreground
                &&& snapshot.displays == parts.displays
                &&& snapshot.power == parts.power
                &&& snapshot.idle_ms == parts.idle_ms
                &&& snapshot.meeting == parts.meeting
                &&& snapshot.observed_at_ms == parts.observed_at_ms
                &&& snapshot.expires_at_ms == parts.expires_at_ms
                &&& snapshot.freshness == parts.freshness
                &&& snapshot.degradation_reason == parts.degradation_reason
            },
    {
        match validate_lifetime(parts.observed_at_ms, parts.expires_at_ms) {
            Ok(()) => {},
            Err(e) => return Err(e),
        }
        Ok(DesktopSnapshot {
            spec: DESKTOP_CONTEXT_SPEC.to_owned(),
            windows: parts.windows,
            foreground: parts.foreground,
            displays: parts.displays,
            power: parts.power,
            idle_ms: parts.idle_ms,
            meeting: parts.meeting,
            observed_at_ms: parts.observed_at_ms,
            expires_at_ms: parts.expires_at_ms,
            freshness: parts.freshness,
            degradation_reason: parts.degradation_reason,
        })
    }

    /// Validates wire fields after deserialization.
    ///
    /// # Errors
    ///
    /// Returns an error for unknown specs or inverted/oversized lifetimes.
    pub fn validate(&self) -> (r: Result<(), DesktopContextError>)
        ensures
            self.spec@ != DESKTOP_CONTEXT_SPEC@ ==> r == Err::<(), DesktopContextError>(
                DesktopContextError::InvalidSpec,
            ),
            self.spec@ == DESKTOP_CONTEXT_SPEC@ ==> (r is Ok <==> valid_lifetime(
                self.observed_at_ms,
                self.expires_at_ms,
            )),
            self.spec@ == DESKTOP_CONTEXT_SPEC@ && r is Err ==> r == Err::<(), DesktopContextError>(
                DesktopContextError::InvalidLifetime,
            ),
    {
        validate_snapshot_fields(self.spec.as_str(), self.observed_at_ms, self.expires_at_ms)
    }

    /// Obstacle rects: onscreen, non-minimized, non-shell windows.
    pub fn obstacle_windows(&self) -> (r: Vec<WorkArea>)
        ensures
            r@ == obstacle_areas(self.windows@),
    {
        obstacle_windows(self.windows.as_slice())
    }

    /// The primary display (the first one listed).
    pub fn primary_display(&self) -> (r: Option<&DesktopDisplay>)
        ensures
            self.displays@.len() == 0 ==> r is None,
            self.displays@.len() > 0 ==> r == Some(&self.displays@[0]),
    {
        displays::primary_display(self.displays.as_slice())
    }

    /// Work areas of all displays, in order.
    pub fn work_areas(&self) -> (r: Vec<WorkArea>)
        ensures
            r@ == self.displays@.map_values(|d: DesktopDisplay| d.work_area),
    {
        displays::work_areas(self.displays.as_slice())
    }

    /// The display whose bounds contain the integer point `(x, y)`.
    pub fn display_containing_origin(&self, x: i32, y: i32) -> (r: Option<&DesktopDisplay>)
        ensures
            match containing_display(self.displays@, x as int, y as int) {
                Some(i) => r == Some(&self.displays@[i]),
                None => r is None,
            },
    {
        displays::display_containing_origin(self.displays.as_slice(), x, y)
    }

    /// Work area of the display containing `(x, y)`, else of the primary one.
    pub fn work_area_for_origin(&self, x: i32, y: i32) -> (r: Option<WorkArea>)
        ensures
            match containing_display(self.displays@, x as int, y as int) {
                Some(i) => r == Some(self.displays@[i].work_area),
                None => if self.displays@.len() > 0 {
                    r == Some(self.displays@[0].work_area)
                } else {
                    r is None
                },
            },
    {
        displays::work_area_for_origin(self.displays.as_slice(), x, y)
    }

    /// Bounding box of all displays.
    pub fn union_display_bounds(&self) -> (r: Option<WorkArea>)
        ensures
            r == union_area(display_bounds_seq(self.displays@)),
    {
        displays::union_display_bounds(self.displays.as_slice())
    }

    /// Occluder rects for a pet owned by `pet_owner_pid`, as sampled.
    pub fn occluders_for_pet(&self, pet_owner_pid: u32) -> (r: Vec<OccluderRect>)
        ensures
            snapshot_occluders_ok(self.windows@, pet_owner_pid, r@),
    {
        occluders_from_snapshot(self, pet_owner_pid)
    }
}

/// Bounds of the obstacle windows, in order.
pub open spec fn obstacle_areas(windows: Seq<DesktopWindow>) -> Seq<WorkArea> {
    windows.filter(|w: DesktopWindow| w.is_obstacle()).map_values(
        |w: DesktopWindow| WorkArea { x: w.x, y: w.y, width: w.width, height: w.height },
    )
}

/// Obstacle rects: onscreen, non-minimized, non-shell windows, in order.
pub fn obstacle_windows(windows: &[DesktopWindow]) -> (r: Vec<WorkArea>)
    ensures
        r@ == obstacle_areas(windows@),
{
    let mut out: Vec<WorkArea> = Vec::new();
    let mut i: usize = 0;
    while i < windows.len()
        invariant
            0 <= i <= windows@.len(),
            out@ == windows@.take(i as int).filter(|w: DesktopWindow| w.is_obstacle()).map_values(
                |w: DesktopWindow|
                    WorkArea { x: w.x, y: w.y, width: w.width, height: w.height },
            ),
        decreases windows@.len() - i,
    {
        let window = &windows[i];
        proof {
            reveal_with_fuel(Seq::filter, 1);
            assert(windows@.take(i + 1).drop_last() =~= windows@.take(i as int));
        }
        if window.onscreen && !window.is_minimized && !window.is_shell {
            out.push(window.bounds());
        }
        i = i + 1;
    }
    proof {
        assert(windows@.take(windows@.len() as int) =~= windows@);
    }
    out
}

} // verus!
