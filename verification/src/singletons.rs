//! Decisions of the Pet and Profile snapshot stores: one versioned snapshot
//! of each, replaced together with the outbox event that announces it, or
//! not at all.
//!
//! The snapshot payload is serialized and parsed by the host; the store reads
//! its versions.
use crate::error::SqlitePersistenceError;
use crate::outbox::{OutboxEntry, OutboxStatus};
use crate::text::str_equal;
use vstd::prelude::*;

verus! {

/// Schema version of stored Pet and Profile snapshots.
pub const SNAPSHOT_VERSION: u32 = 1;

/// What storage answers a second outbox event with one identifier.
pub const DUPLICATE_EVENT: &'static str = "UNIQUE constraint failed: event_outbox.event_id";

/// Which singleton snapshot a request concerns.
#[derive(Debug, Clone, Copy, PartialEq, Eq, Structural)]
pub enum SnapshotKind {
    Pet,
    Profile,
}

/// The stored singleton: its schema version beside its payload.
#[derive(Debug, Clone, PartialEq, Eq)]
pub struct SingletonSnapshot {
    pub schema_version: u32,
    pub payload: String,
}

/// The error for a stored snapshot of another schema version.
pub open spec fn unsupported_version(kind: SnapshotKind, version: u32) -> SqlitePersistenceError {
    match kind {
        SnapshotKind::Pet => SqlitePersistenceError::UnsupportedPetSnapshotVersion(version),
        SnapshotKind::Profile => SqlitePersistenceError::UnsupportedProfileSnapshotVersion(version),
    }
}

/// What reading the stored snapshot gives: its payload, nothing when none is
/// stored, or the error for another schema version.
pub open spec fn snapshot_read(slot: Option<SingletonSnapshot>, kind: SnapshotKind) -> Result<
    Option<Seq<char>>,
    SqlitePersistenceError,
> {
    match slot {
        None => Ok(None),
        Some(s) => if s.schema_version != SNAPSHOT_VERSION {
            Err(unsupported_version(kind, s.schema_version))
        } else {
            Ok(Some(s.payload@))
        },
    }
}

/// Loads the payload of the stored snapshot.
///
/// # Errors
///
/// The kind's unsupported-version error for another schema version.
pub fn load_snapshot(slot: &Option<SingletonSnapshot>, kind: SnapshotKind) -> (r: Result<
    Option<String>,
    SqlitePersistenceError,
>)
    ensures
        match r {
            Ok(Some(p)) => snapshot_read(*slot, kind) == Ok::<
                Option<Seq<char>>,
                SqlitePersistenceError,
            >(Some(p@)),
            Ok(None) => snapshot_read(*slot, kind) == Ok::<
                Option<Seq<char>>,
                SqlitePersistenceError,
            >(None),
            Err(e) => snapshot_read(*slot, kind) == Err::<Option<Seq<char>>, SqlitePersistenceError>(
                e,
            ),
        },
{
    match slot {
        None => Ok(None),
        Some(s) => {
            if s.schema_version != SNAPSHOT_VERSION {
                return Err(
                    match kind {
                        SnapshotKind::Pet => SqlitePersistenceError::UnsupportedPetSnapshotVersion(
                            s.schema_version,
                        ),
                        SnapshotKind::Profile => SqlitePersistenceError::UnsupportedProfileSnapshotVersion(
                            s.schema_version,
                        ),
                    },
                );
            }
            Ok(Some(s.payload.clone()))
        },
    }
}

/// Checks the version a loaded payload names against its stored version.
///
/// # Errors
///
/// [`SqlitePersistenceError::SnapshotVersionMismatch`] when they differ.
pub fn check_payload_version(stored_version: u32, payload_version: u32) -> (r: Result<
    (),
    SqlitePersistenceError,
>)
    ensures
        stored_version == payload_version ==> r is Ok,
        stored_version != payload_version ==> r == Err::<(), SqlitePersistenceError>(
            SqlitePersistenceError::SnapshotVersionMismatch,
        ),
{
    if stored_version != payload_version {
        return Err(SqlitePersistenceError::SnapshotVersionMismatch);
    }
    Ok(())
}

/// Some outbox entry carries the event identifier.
pub open spec fn has_event(outbox: Seq<OutboxEntry>, event_id: Seq<char>) -> bool {
    exists|i: int| 0 <= i < outbox.len() && outbox[i].event_id@ == event_id
}

/// The outbox entry of a newly announced event written at `created_at`:
/// pending, available at once, never delivered.
pub open spec fn fresh_entry(entry: OutboxEntry, event_id: Seq<char>, created_at: Seq<char>) -> bool {
    &&& entry.event_id@ == event_id
    &&& entry.created_at@ == created_at
    &&& entry.status == OutboxStatus::Pending
    &&& entry.available_at_ms == 0
    &&& entry.delivery_attempts == 0
    &&& entry.lease_owner is None
    &&& entry.lease_until_ms is None
    &&& entry.delivered_at_ms is None
    &&& entry.last_error is None
}

/// Replaces the snapshot and, when an event is given, appends it to the
/// outbox as written at `created_at` (the store's clock), both or neither.
///
/// # Errors
///
/// A storage error when the outbox already holds the event; the snapshot and
/// the outbox are then unchanged.
pub fn save_snapshot(
    slot: &mut Option<SingletonSnapshot>,
    outbox: &mut Vec<OutboxEntry>,
    payload: String,
    event_id: Option<&str>,
    created_at: &str,
) -> (r: Result<(), SqlitePersistenceError>)
    ensures
        match event_id {
            Some(id) => if has_event(old(outbox)@, id@) {
                (r matches Err(SqlitePersistenceError::Sqlite(m)) && m@ == DUPLICATE_EVENT@)
                    && *final(slot) == *old(slot) && final(outbox)@ == old(outbox)@
            } else {
                &&& r is Ok
                &&& final(outbox)@.len() == old(outbox)@.len() + 1
                &&& final(outbox)@.drop_last() == old(outbox)@
                &&& fresh_entry(final(outbox)@.last(), id@, created_at@)
            },
            None => r is Ok && final(outbox)@ == old(outbox)@,
        },
        r is Ok ==> (*final(slot) matches Some(s) && s.schema_version == SNAPSHOT_VERSION
            && s.payload@ == payload@),
{
    if let Some(id) = event_id {
        let mut i: usize = 0;
        while i < outbox.len()
            invariant
                0 <= i <= outbox@.len(),
                outbox@ == old(outbox)@,
                *slot == *old(slot),
                event_id == Some(id),
                forall|j: int| 0 <= j < i ==> #[trigger] outbox@[j].event_id@ != id@,
            decreases outbox@.len() - i,
        {
            if str_equal(outbox[i].event_id.as_str(), id) {
                return Err(SqlitePersistenceError::Sqlite(DUPLICATE_EVENT.to_owned()));
            }
            i = i + 1;
        }
        let ghost o = outbox@;
        outbox.push(
            OutboxEntry {
                event_id: id.to_owned(),
                created_at: created_at.to_owned(),
                status: OutboxStatus::Pending,
                available_at_ms: 0,
                delivery_attempts: 0,
                lease_owner: None,
                lease_until_ms: None,
                delivered_at_ms: None,
                last_error: None,
            },
        );
        proof {
            assert(outbox@.drop_last() =~= o);
        }
    }
    *slot = Some(SingletonSnapshot { schema_version: SNAPSHOT_VERSION, payload });
    Ok(())
}

/// A snapshot that was saved is what reading gives back, whichever the kind.
pub proof fn law_saved_snapshot_reads_back(slot: Option<SingletonSnapshot>, payload: Seq<char>, kind: SnapshotKind)
    requires
        slot matches Some(s) && s.schema_version == SNAPSHOT_VERSION && s.payload@ == payload,
    ensures
        snapshot_read(slot, kind) == Ok::<Option<Seq<char>>, SqlitePersistenceError>(Some(payload)),
{
}

} // verus!
