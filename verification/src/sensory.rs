//! Stable, throttled sensory bands for OS samples and pet directives.
//!
//! Hosts map battery / idle / meeting samples into discrete bands and decide
//! when a directive edge should fire. Never reads window titles.
use crate::snapshot::{MeetingHint, PowerState};
use vstd::prelude::*;

verus! {

/// Re-emit the same low/critical battery band at most once per this interval.
pub const BATTERY_SAME_BAND_THROTTLE_MS: u64 = 60_000;

/// Minimum hold before a boolean sensor edge is considered stable (ms).
pub const BOOLEAN_SENSOR_HOLD_MS: u64 = 1_500;

/// Maximum windows retained for occlusion / obstacles (keeps samples stable).
pub const MAX_ENUMERATED_WINDOWS: usize = 64;

/// Idle active band: user still interacting.
pub const IDLE_BAND_ACTIVE: u8 = 0;

/// Idle notice band: 90 s and more.
pub const IDLE_BAND_NOTICE: u8 = 1;

/// Idle approach band: 5 min and more.
pub const IDLE_BAND_APPROACH: u8 = 2;

/// Idle rest band: 30 min and more.
pub const IDLE_BAND_REST: u8 = 3;

/// Battery band: unknown / unavailable.
pub const BATTERY_BAND_UNKNOWN: u8 = 0;

/// Battery band: critical (at most 10%, on battery, not charging).
pub const BATTERY_BAND_CRITICAL: u8 = 1;

/// Battery band: low (at most 20%, on battery, not charging).
pub const BATTERY_BAND_LOW: u8 = 2;

/// Battery band: ok / AC / high.
pub const BATTERY_BAND_OK: u8 = 3;

/// Battery band: charging.
pub const BATTERY_BAND_CHARGING: u8 = 4;

/// Upper bound for idle durations fed into the sensory bands: 7 days.
pub const MAX_IDLE_MS: u64 = 604_800_000;

/// The sensory band of a power sample.
pub open spec fn battery_band(power: Option<PowerState>) -> u8 {
    match power {
        None => BATTERY_BAND_UNKNOWN,
        Some(p) => if p.charging {
            BATTERY_BAND_CHARGING
        } else if !p.on_battery {
            BATTERY_BAND_OK
        } else {
            match p.battery_percent {
                Some(percent) => if percent <= 10 {
                    BATTERY_BAND_CRITICAL
                } else if percent <= 20 {
                    BATTERY_BAND_LOW
                } else {
                    BATTERY_BAND_OK
                },
                None => BATTERY_BAND_OK,
            }
        },
    }
}

/// Law: what a battery band means. A charging sample is in the charging band
/// whatever it says about the battery; the critical and low bands come only
/// from a sample on battery and not charging, at 10 % or less and at 11 to
/// 20 %; every other sample is ok, and only a missing sample is unknown.
pub proof fn law_battery_band_meaning(p: PowerState)
    ensures
        p.charging ==> battery_band(Some(p)) == BATTERY_BAND_CHARGING,
        battery_band(Some(p)) == BATTERY_BAND_CHARGING ==> p.charging,
        battery_band(Some(p)) == BATTERY_BAND_CRITICAL <==> (!p.charging && p.on_battery && (
        p.battery_percent matches Some(x) && x <= 10)),
        battery_band(Some(p)) == BATTERY_BAND_LOW <==> (!p.charging && p.on_battery && (
        p.battery_percent matches Some(x) && 10 < x <= 20)),
        !p.charging && !p.on_battery ==> battery_band(Some(p)) == BATTERY_BAND_OK,
        battery_band(Some(p)) != BATTERY_BAND_UNKNOWN,
        battery_band(None) == BATTERY_BAND_UNKNOWN,
{
}

/// The sensory band of an idle duration in seconds.
pub open spec fn idle_band(idle_secs: u64) -> u8 {
    if idle_secs >= 1800 {
        IDLE_BAND_REST
    } else if idle_secs >= 300 {
        IDLE_BAND_APPROACH
    } else if idle_secs >= 90 {
        IDLE_BAND_NOTICE
    } else {
        IDLE_BAND_ACTIVE
    }
}

/// Low and critical bands, and charging, are the bands worth announcing.
pub open spec fn notable_battery_band(band: u8) -> bool {
    band == BATTERY_BAND_CRITICAL || band == BATTERY_BAND_LOW || band == BATTERY_BAND_CHARGING
}

/// Battery emission rule: never for an unknown band; on a band change when
/// either side is notable; and within the same low/critical band once the
/// throttle interval has passed since the last emission.
pub open spec fn battery_emits(previous_band: u8, band: u8, last_emit_ms: u64, now_ms: u64) -> bool {
    if band == BATTERY_BAND_UNKNOWN {
        false
    } else if previous_band != band {
        notable_battery_band(band) || notable_battery_band(previous_band)
    } else {
        (band == BATTERY_BAND_CRITICAL || band == BATTERY_BAND_LOW) && (if now_ms >= last_emit_ms {
            now_ms - last_emit_ms
        } else {
            0
        }) >= BATTERY_SAME_BAND_THROTTLE_MS
    }
}

/// Maps power state into a stable sensory band for directive throttling.
///
/// `0` = unknown, `1` = critical, `2` = low, `3` = ok/AC, `4` = charging.
pub fn battery_sensory_band(power: Option<&PowerState>) -> (r: u8)
    ensures
        r == battery_band(
            match power {
                Some(p) => Some(*p),
                None => None,
            },
        ),
        power is None ==> r == BATTERY_BAND_UNKNOWN,
        power matches Some(p) && p.charging ==> r == BATTERY_BAND_CHARGING,
        power matches Some(p) && !p.charging && !p.on_battery ==> r == BATTERY_BAND_OK,
{
    let power = match power {
        Some(p) => p,
        None => return BATTERY_BAND_UNKNOWN,
    };
    if power.charging {
        return BATTERY_BAND_CHARGING;
    }
    if !power.on_battery {
        return BATTERY_BAND_OK;
    }
    match power.battery_percent {
        Some(percent) => {
            if percent <= 10 {
                BATTERY_BAND_CRITICAL
            } else if percent <= 20 {
                BATTERY_BAND_LOW
            } else {
                BATTERY_BAND_OK
            }
        },
        None => BATTERY_BAND_OK,
    }
}

/// Idle duration (seconds) to a discrete sensory band:
/// `0` active, `1` from 90 s, `2` from 5 min, `3` from 30 min.
pub fn idle_sensory_band(idle_secs: u64) -> (r: u8)
    ensures
        r == idle_band(idle_secs),
        r <= IDLE_BAND_REST,
{
    if idle_secs >= 30 * 60 {
        IDLE_BAND_REST
    } else if idle_secs >= 5 * 60 {
        IDLE_BAND_APPROACH
    } else if idle_secs >= 90 {
        IDLE_BAND_NOTICE
    } else {
        IDLE_BAND_ACTIVE
    }
}

/// Idle milliseconds to a band (whole seconds, rounded down).
pub fn idle_sensory_band_from_ms(idle_ms: u64) -> (r: u8)
    ensures
        r == idle_band(idle_ms / 1000),
{
    idle_sensory_band(idle_ms / 1_000)
}

/// Whether battery sensory should emit a pet directive.
///
/// Threshold / charging transitions always win; the same low/critical band
/// re-emits at most once per [`BATTERY_SAME_BAND_THROTTLE_MS`].
pub fn battery_should_emit(previous_band: u8, band: u8, last_emit_ms: u64, now_ms: u64) -> (r: bool)
    ensures
        r == battery_emits(previous_band, band, last_emit_ms, now_ms),
        band == BATTERY_BAND_UNKNOWN ==> !r,
        previous_band == band && band != BATTERY_BAND_CRITICAL && band != BATTERY_BAND_LOW ==> !r,
{
    if band == BATTERY_BAND_UNKNOWN {
        return false;
    }
    if previous_band != band {
        return band == BATTERY_BAND_CRITICAL || band == BATTERY_BAND_LOW || band
            == BATTERY_BAND_CHARGING || previous_band == BATTERY_BAND_CRITICAL || previous_band
            == BATTERY_BAND_LOW || previous_band == BATTERY_BAND_CHARGING;
    }
    (band == BATTERY_BAND_CRITICAL || band == BATTERY_BAND_LOW) && now_ms.saturating_sub(
        last_emit_ms,
    ) >= BATTERY_SAME_BAND_THROTTLE_MS
}

/// Whether idle sensory should emit: only when crossing into a higher band.
pub fn idle_should_emit(previous_band: u8, band: u8) -> (r: bool)
    ensures
        r == (band > previous_band),
{
    band > previous_band
}

/// Whether meeting sensory should emit: edge-triggered on the active flag.
pub fn meeting_should_emit(previous_active: bool, active: bool) -> (r: bool)
    ensures
        r == (previous_active != active),
{
    previous_active != active
}

/// Whether notification-unread sensory should emit: edge-triggered on the
/// privacy-preserving boolean only (no titles or bodies).
pub fn notification_should_emit(previous_unread: bool, has_unread: bool) -> (r: bool)
    ensures
        r == (previous_unread != has_unread),
{
    previous_unread != has_unread
}

/// Aggregates app-local unread hints (counts only) into a boolean.
pub fn notification_unread_from_counts(
    outbox_pending: u32,
    outbox_dead_letter: u32,
    attention_pending: u32,
) -> (r: bool)
    ensures
        r == (outbox_pending > 0 || outbox_dead_letter > 0 || attention_pending > 0),
{
    outbox_pending > 0 || outbox_dead_letter > 0 || attention_pending > 0
}

/// Clamps idle milliseconds to [`MAX_IDLE_MS`] (7 days) for stable inputs.
pub fn sanitize_idle_ms(idle_ms: u64) -> (r: u64)
    ensures
        r == if idle_ms > MAX_IDLE_MS {
            MAX_IDLE_MS
        } else {
            idle_ms
        },
{
    if idle_ms > MAX_IDLE_MS {
        MAX_IDLE_MS
    } else {
        idle_ms
    }
}

/// Compact label of a meeting hint.
pub open spec fn meeting_label(hint: MeetingHint) -> Seq<char> {
    match hint {
        MeetingHint::Zoom => "zoom"@,
        MeetingHint::Teams => "teams"@,
        MeetingHint::Meet => "meet"@,
        MeetingHint::Webex => "webex"@,
        MeetingHint::Unknown => "unknown"@,
        MeetingHint::NoHint => ""@,
    }
}

/// Compact meeting label for host mapping (privacy-preserving; no titles).
pub fn meeting_hint_label(hint: MeetingHint) -> (r: &'static str)
    ensures
        r@ == meeting_label(hint),
{
    match hint {
        MeetingHint::Zoom => "zoom",
        MeetingHint::Teams => "teams",
        MeetingHint::Meet => "meet",
        MeetingHint::Webex => "webex",
        MeetingHint::Unknown => "unknown",
        MeetingHint::NoHint => "",
    }
}

/// Debounce gate for boolean sensors (fullscreen, DND, meeting).
///
/// Emits only after the new value has been observed continuously for the hold
/// window, preventing flicker spam into pet directives / presence.
#[derive(Debug, Clone, Copy, PartialEq, Eq)]
pub struct BooleanSensorGate {
    published: Option<bool>,
    pending: Option<bool>,
    pending_since_ms: u64,
    hold_ms: u64,
}

impl BooleanSensorGate {
    /// The last stably published value.
    pub closed spec fn published_value(self) -> Option<bool> {
        self.published
    }

    /// The value waiting to be held long enough.
    pub closed spec fn pending_value(self) -> Option<bool> {
        self.pending
    }

    /// When the pending value was first seen.
    pub closed spec fn pending_since(self) -> u64 {
        self.pending_since_ms
    }

    /// How long a new value must be held before it is published.
    pub closed spec fn hold_interval(self) -> u64 {
        self.hold_ms
    }

    /// The new state of this gate once `value` is seen at `now_ms`, and what it emits:
    /// a sample equal to the published value clears the pending one; a pending
    /// value seen again after the hold interval is published and emitted;
    /// any other sample becomes the new pending value.
    pub open spec fn observed(self, value: bool, now_ms: u64) -> (BooleanSensorGate, Option<bool>) {
        if self.published_value() == Some(value) {
            (self.with_state(self.published_value(), None, self.pending_since()), None)
        } else if self.pending_value() == Some(value) {
            let elapsed: int = if now_ms >= self.pending_since() {
                now_ms - self.pending_since()
            } else {
                0
            };
            if elapsed >= self.hold_interval() {
                (self.with_state(Some(value), None, self.pending_since()), Some(value))
            } else {
                (self, None)
            }
        } else {
            (self.with_state(self.published_value(), Some(value), now_ms), None)
        }
    }

    /// This gate with its published, pending and pending-since fields replaced.
    pub closed spec fn with_state(
        self,
        published: Option<bool>,
        pending: Option<bool>,
        pending_since_ms: u64,
    ) -> BooleanSensorGate {
        BooleanSensorGate { published, pending, pending_since_ms, hold_ms: self.hold_ms }
    }

    /// Replacing the state keeps the hold interval and sets the given fields.
    pub broadcast proof fn with_state_fields(
        self,
        published: Option<bool>,
        pending: Option<bool>,
        pending_since_ms: u64,
    )
        ensures
            #![trigger self.with_state(published, pending, pending_since_ms)]
            self.with_state(published, pending, pending_since_ms).published_value() == published,
            self.with_state(published, pending, pending_since_ms).pending_value() == pending,
            self.with_state(published, pending, pending_since_ms).pending_since()
                == pending_since_ms,
            self.with_state(published, pending, pending_since_ms).hold_interval()
                == self.hold_interval(),
    {
    }

    /// Builds a gate with a custom hold interval and nothing published.
    pub fn new(hold_ms: u64) -> (r: Self)
        ensures
            r.published_value() is None,
            r.pending_value() is None,
            r.pending_since() == 0,
            r.hold_interval() == hold_ms,
    {
        BooleanSensorGate { published: None, pending: None, pending_since_ms: 0, hold_ms }
    }

    /// Last stably published value, if any.
    pub fn published(self) -> (r: Option<bool>)
        ensures
            r == self.published_value(),
    {
        self.published
    }

    /// Observes a raw sample. Returns `Some(stable)` only when the published
    /// value changes after the hold window.
    pub fn observe(self, value: bool, now_ms: u64) -> (r: (Self, Option<bool>))
        ensures
            r == self.observed(value, now_ms),
            r.1 is Some ==> r.1 == Some(value) && r.0.published_value() == Some(value)
                && self.published_value() != Some(value),
            r.0.hold_interval() == self.hold_interval(),
    {
        let mut gate = self;
        if gate.published == Some(value) {
            gate.pending = None;
            return (gate, None);
        }
        match gate.pending {
            Some(pending) if pending == value => {
                if now_ms.saturating_sub(gate.pending_since_ms) >= gate.hold_ms {
                    gate.published = Some(value);
                    gate.pending = None;
                    return (gate, Some(value));
                }
                (gate, None)
            },
            _ => {
                gate.pending = Some(value);
                gate.pending_since_ms = now_ms;
                (gate, None)
            },
        }
    }

    /// Force-publish (tests / fail-closed reset).
    pub fn force(self, value: bool) -> (r: Self)
        ensures
            r.published_value() == Some(value),
            r.pending_value() is None,
            r.pending_since() == self.pending_since(),
            r.hold_interval() == self.hold_interval(),
    {
        let mut gate = self;
        gate.published = Some(value);
        gate.pending = None;
        gate
    }
}

impl Default for BooleanSensorGate {
    /// A gate with the default hold interval [`BOOLEAN_SENSOR_HOLD_MS`].
    fn default() -> (r: Self)
        ensures
            r.published_value() is None,
            r.pending_value() is None,
            r.pending_since() == 0,
            r.hold_interval() == BOOLEAN_SENSOR_HOLD_MS,
    {
        Self::new(BOOLEAN_SENSOR_HOLD_MS)
    }
}

/// Law: a value that differs from the published one is published after it has
/// been seen twice, at least the hold interval apart, with the clock of this gate
/// not running backwards; the emission carries that value.
pub proof fn law_gate_publishes_held_value(gate: BooleanSensorGate, value: bool, t0: u64, t1: u64)
    requires
        gate.published_value() != Some(value),
        t0 <= t1,
        t1 - t0 >= gate.hold_interval(),
        gate.pending_value() == Some(value) ==> gate.pending_since() <= t0,
    ensures
        ({
            let (g1, e1) = gate.observed(value, t0);
            let (g2, e2) = g1.observed(value, t1);
            &&& g2.published_value() == Some(value)
            &&& (e1 == Some(value) || e2 == Some(value))
        }),
{
    broadcast use BooleanSensorGate::with_state_fields;

}

/// Law: observing the published value never emits and leaves it published.
pub proof fn law_gate_quiet_on_published(gate: BooleanSensorGate, value: bool, now_ms: u64)
    requires
        gate.published_value() == Some(value),
    ensures
        gate.observed(value, now_ms).1 is None,
        gate.observed(value, now_ms).0.published_value() == Some(value),
        gate.observed(value, now_ms).0.pending_value() is None,
{
    broadcast use BooleanSensorGate::with_state_fields;

}

/// Law: a value seen for the first time is never emitted immediately.
pub proof fn law_gate_new_value_is_held(gate: BooleanSensorGate, value: bool, now_ms: u64)
    requires
        gate.published_value() != Some(value),
        gate.pending_value() != Some(value),
    ensures
        gate.observed(value, now_ms).1 is None,
        gate.observed(value, now_ms).0.pending_value() == Some(value),
        gate.observed(value, now_ms).0.pending_since() == now_ms,
{
    broadcast use BooleanSensorGate::with_state_fields;

}

} // verus!
