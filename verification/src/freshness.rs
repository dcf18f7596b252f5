//! Freshness and expiry policy for desktop snapshots.
use crate::snapshot::{DesktopSnapshot, Freshness};
use vstd::prelude::*;

verus! {

/// The snapshot is past its expiry timestamp.
pub open spec fn expired(snapshot: DesktopSnapshot, now_ms: u64) -> bool {
    now_ms >= snapshot.expires_at_ms
}

/// The snapshot may drive full motion planning: Fresh and not expired.
pub open spec fn usable(snapshot: DesktopSnapshot, now_ms: u64) -> bool {
    snapshot.freshness == Freshness::Fresh && !expired(snapshot, now_ms)
}

/// Returns true when the snapshot is past its expiry timestamp.
pub fn is_expired(snapshot: &DesktopSnapshot, now_ms: u64) -> (r: bool)
    ensures
        r == expired(*snapshot, now_ms),
{
    now_ms >= snapshot.expires_at_ms
}

/// A snapshot may drive full motion planning only while Fresh and not expired.
///
/// Stale and Degraded samples must not feed obstacle-dependent planners.
pub fn is_usable(snapshot: &DesktopSnapshot, now_ms: u64) -> (r: bool)
    ensures
        r == usable(*snapshot, now_ms),
{
    match snapshot.freshness {
        Freshness::Fresh => !is_expired(snapshot, now_ms),
        _ => false,
    }
}

/// Obstacle geometry is only trusted when the snapshot is usable.
pub fn obstacles_usable(snapshot: &DesktopSnapshot, now_ms: u64) -> (r: bool)
    ensures
        r == usable(*snapshot, now_ms),
{
    is_usable(snapshot, now_ms)
}

/// Recomputes freshness from wall-clock age without mutating other fields.
///
/// Expired samples become [`Freshness::Stale`]. Degraded stays degraded until
/// the host rebuilds the snapshot.
pub fn refresh_freshness(snapshot: &DesktopSnapshot, now_ms: u64) -> (r: Freshness)
    ensures
        r == if snapshot.freshness == Freshness::Degraded {
            Freshness::Degraded
        } else if expired(*snapshot, now_ms) {
            Freshness::Stale
        } else {
            Freshness::Fresh
        },
        r == Freshness::Fresh ==> usable(*snapshot, now_ms) || snapshot.freshness == Freshness::Stale,
{
    if let Freshness::Degraded = snapshot.freshness {
        return Freshness::Degraded;
    }
    if is_expired(snapshot, now_ms) {
        Freshness::Stale
    } else {
        Freshness::Fresh
    }
}

} // verus!
