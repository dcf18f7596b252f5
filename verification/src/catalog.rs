//! Decisions of the Automation catalog: install a strictly newer version,
//! keep the one it replaced, switch the enabled flag, and roll back.
//!
//! A catalog slot holds one Automation's current version with its stored
//! definition text, the version it replaced, the enabled flag and two
//! timestamps. Storage keeps `updated_at_ms >= installed_at_ms`; a write that
//! would break that order fails as storage does, with the constraint's message.
use crate::error::SqlitePersistenceError;
use crate::records::{version_components, version_tuple};
use crate::text::str_equal;
use vstd::prelude::*;
use vstd::utf8::encode_utf8;

verus! {

/// Spec identifier of install and rollback receipts.
pub const AUTOMATION_INSTALL_RECEIPT_SPEC: &'static str = "nimora.automation-install-receipt/1";

/// What storage answers a write that would leave a slot updated before it was installed.
pub const TIMESTAMP_ORDER_VIOLATION: &'static str =
    "CHECK constraint failed: updated_at_ms >= installed_at_ms";

/// Largest timestamp that storage accepts (`i64::MAX`).
pub const MAX_CATALOG_TIMESTAMP_MS: u64 = 9_223_372_036_854_775_807;

/// Result of installing or rolling back an Automation.
#[derive(Debug, Clone, PartialEq, Eq)]
pub struct AutomationInstallReceipt {
    pub spec: String,
    pub automation_id: String,
    pub version: String,
    pub replaced_version: Option<String>,
    pub enabled: bool,
}

/// One Automation's row in the catalog.
#[derive(Debug, Clone, PartialEq, Eq)]
pub struct CatalogSlot {
    pub automation_id: String,
    pub current_version: String,
    pub current_payload: String,
    pub previous_version: Option<String>,
    pub previous_payload: Option<String>,
    pub enabled: bool,
    pub installed_at_ms: u64,
    pub updated_at_ms: u64,
}

/// The mathematical content of a [`CatalogSlot`].
pub ghost struct CatalogSlotView {
    pub automation_id: Seq<char>,
    pub current_version: Seq<char>,
    pub current_payload: Seq<char>,
    pub previous_version: Option<Seq<char>>,
    pub previous_payload: Option<Seq<char>>,
    pub enabled: bool,
    pub installed_at_ms: u64,
    pub updated_at_ms: u64,
}

/// The characters of an optional text.
pub open spec fn opt_text(s: Option<String>) -> Option<Seq<char>> {
    match s {
        Some(t) => Some(t@),
        None => None,
    }
}

impl View for CatalogSlot {
    type V = CatalogSlotView;

    open spec fn view(&self) -> CatalogSlotView {
        CatalogSlotView {
            automation_id: self.automation_id@,
            current_version: self.current_version@,
            current_payload: self.current_payload@,
            previous_version: opt_text(self.previous_version),
            previous_payload: opt_text(self.previous_payload),
            enabled: self.enabled,
            installed_at_ms: self.installed_at_ms,
            updated_at_ms: self.updated_at_ms,
        }
    }
}

/// The view of an optional slot.
pub open spec fn slot_view(slot: Option<CatalogSlot>) -> Option<CatalogSlotView> {
    match slot {
        Some(s) => Some(s@),
        None => None,
    }
}

/// A slot as storage keeps it: timestamps in order and within range, and a
/// previous version exactly when its definition is kept too.
pub open spec fn slot_ok(s: CatalogSlotView) -> bool {
    &&& s.installed_at_ms <= s.updated_at_ms <= MAX_CATALOG_TIMESTAMP_MS
    &&& s.previous_version.is_some() == s.previous_payload.is_some()
}

/// `(major, minor, patch)` of a version text; components that are missing or
/// not numbers count as `u64::MAX`.
pub open spec fn version_key(version: Seq<char>) -> (u64, u64, u64) {
    version_components(encode_utf8(version))
}

/// Lexicographic order of version keys.
pub open spec fn key_le(a: (u64, u64, u64), b: (u64, u64, u64)) -> bool {
    a.0 < b.0 || (a.0 == b.0 && (a.1 < b.1 || (a.1 == b.1 && a.2 <= b.2)))
}

/// Why an install of `version` at `now_ms` over `existing` is refused by the
/// catalog's rules, if it is.
pub open spec fn install_rejection(
    existing: Option<CatalogSlotView>,
    version: Seq<char>,
    now_ms: u64,
) -> Option<SqlitePersistenceError> {
    if now_ms > MAX_CATALOG_TIMESTAMP_MS {
        Some(SqlitePersistenceError::InvalidAutomationCatalog)
    } else {
        match existing {
            None => None,
            Some(old) => if old.current_version == version {
                Some(SqlitePersistenceError::AutomationVersionAlreadyInstalled)
            } else if key_le(version_key(version), version_key(old.current_version)) {
                Some(SqlitePersistenceError::AutomationVersionNotNewer)
            } else {
                None
            },
        }
    }
}

/// The slot after installing `version` with its definition text `payload`:
/// the old current version becomes the previous one, the result is disabled,
/// and the first install time is kept.
pub open spec fn installed_slot(
    existing: Option<CatalogSlotView>,
    automation_id: Seq<char>,
    version: Seq<char>,
    payload: Seq<char>,
    now_ms: u64,
) -> CatalogSlotView {
    match existing {
        None => CatalogSlotView {
            automation_id,
            current_version: version,
            current_payload: payload,
            previous_version: None,
            previous_payload: None,
            enabled: false,
            installed_at_ms: now_ms,
            updated_at_ms: now_ms,
        },
        Some(old) => CatalogSlotView {
            automation_id,
            current_version: version,
            current_payload: payload,
            previous_version: Some(old.current_version),
            previous_payload: Some(old.current_payload),
            enabled: false,
            installed_at_ms: old.installed_at_ms,
            updated_at_ms: now_ms,
        },
    }
}

/// The current version of an optional slot.
pub open spec fn current_version_of(existing: Option<CatalogSlotView>) -> Option<Seq<char>> {
    match existing {
        Some(old) => Some(old.current_version),
        None => None,
    }
}

/// Installs `version` of an Automation over its stored slot, if any.
///
/// On success the new slot and the receipt are returned; the caller stores the slot.
///
/// # Errors
///
/// [`SqlitePersistenceError::InvalidAutomationCatalog`] for a timestamp beyond
/// storage range, [`SqlitePersistenceError::AutomationVersionAlreadyInstalled`]
/// when `version` is the current one, [`SqlitePersistenceError::AutomationVersionNotNewer`]
/// when it is not strictly newer, and a storage error when `now_ms` precedes
/// the first install.
pub fn install_slot(
    existing: Option<CatalogSlot>,
    automation_id: &str,
    version: &str,
    payload: &str,
    now_ms: u64,
) -> (r: Result<(CatalogSlot, AutomationInstallReceipt), SqlitePersistenceError>)
    ensures
        install_rejection(slot_view(existing), version@, now_ms) matches Some(e) ==> r == Err::<
            (CatalogSlot, AutomationInstallReceipt),
            SqlitePersistenceError,
        >(e),
        install_rejection(slot_view(existing), version@, now_ms) is None && breaks_order(
            slot_view(existing),
            now_ms,
        ) ==> (r matches Err(SqlitePersistenceError::Sqlite(m)) && m@ == TIMESTAMP_ORDER_VIOLATION@),
        install_rejection(slot_view(existing), version@, now_ms) is None && !breaks_order(
            slot_view(existing),
            now_ms,
        ) ==> r is Ok,
        r matches Ok((slot, receipt)) ==> {
            &&& slot@ == installed_slot(
                slot_view(existing),
                automation_id@,
                version@,
                payload@,
                now_ms,
            )
            &&& slot_ok(slot@)
            &&& receipt.spec@ == AUTOMATION_INSTALL_RECEIPT_SPEC@
            &&& receipt.automation_id@ == automation_id@
            &&& receipt.version@ == version@
            &&& opt_text(receipt.replaced_version) == current_version_of(slot_view(existing))
            &&& !receipt.enabled
        },
{
    if now_ms > MAX_CATALOG_TIMESTAMP_MS {
        return Err(SqlitePersistenceError::InvalidAutomationCatalog);
    }
    match existing {
        None => {
            let slot = CatalogSlot {
                automation_id: automation_id.to_owned(),
                current_version: version.to_owned(),
                current_payload: payload.to_owned(),
                previous_version: None,
                previous_payload: None,
                enabled: false,
                installed_at_ms: now_ms,
                updated_at_ms: now_ms,
            };
            let receipt = AutomationInstallReceipt {
                spec: AUTOMATION_INSTALL_RECEIPT_SPEC.to_owned(),
                automation_id: automation_id.to_owned(),
                version: version.to_owned(),
                replaced_version: None,
                enabled: false,
            };
            Ok((slot, receipt))
        },
        Some(old) => {
            if str_equal(old.current_version.as_str(), version) {
                return Err(SqlitePersistenceError::AutomationVersionAlreadyInstalled);
            }
            let new_key = version_tuple(version);
            let old_key = version_tuple(old.current_version.as_str());
            if key_at_most(new_key, old_key) {
                return Err(SqlitePersistenceError::AutomationVersionNotNewer);
            }
            if now_ms < old.installed_at_ms {
                return Err(SqlitePersistenceError::Sqlite(TIMESTAMP_ORDER_VIOLATION.to_owned()));
            }
            let replaced = old.current_version.clone();
            let slot = CatalogSlot {
                automation_id: automation_id.to_owned(),
                current_version: version.to_owned(),
                current_payload: payload.to_owned(),
                previous_version: Some(old.current_version),
                previous_payload: Some(old.current_payload),
                enabled: false,
                installed_at_ms: old.installed_at_ms,
                updated_at_ms: now_ms,
            };
            let receipt = AutomationInstallReceipt {
                spec: AUTOMATION_INSTALL_RECEIPT_SPEC.to_owned(),
                automation_id: automation_id.to_owned(),
                version: version.to_owned(),
                replaced_version: Some(replaced),
                enabled: false,
            };
            Ok((slot, receipt))
        },
    }
}

/// Why a rollback at `now_ms` of `existing` is refused by the catalog's rules, if it is.
pub open spec fn rollback_rejection(existing: Option<CatalogSlotView>, now_ms: u64) -> Option<
    SqlitePersistenceError,
> {
    match existing {
        None => Some(SqlitePersistenceError::AutomationNotInstalled),
        Some(old) => if old.previous_version is None || old.previous_payload is None {
            Some(SqlitePersistenceError::AutomationPreviousVersionUnavailable)
        } else if now_ms > MAX_CATALOG_TIMESTAMP_MS {
            Some(SqlitePersistenceError::InvalidAutomationCatalog)
        } else {
            None
        },
    }
}

/// The slot with current and previous versions swapped, disabled, updated at `now_ms`.
pub open spec fn rolled_back_slot(old: CatalogSlotView, now_ms: u64) -> CatalogSlotView {
    CatalogSlotView {
        automation_id: old.automation_id,
        current_version: old.previous_version.unwrap(),
        current_payload: old.previous_payload.unwrap(),
        previous_version: Some(old.current_version),
        previous_payload: Some(old.current_payload),
        enabled: false,
        installed_at_ms: old.installed_at_ms,
        updated_at_ms: now_ms,
    }
}

/// A write at `now_ms` to a stored slot that would precede its first install.
pub open spec fn breaks_order(existing: Option<CatalogSlotView>, now_ms: u64) -> bool {
    match existing {
        Some(old) => now_ms < old.installed_at_ms,
        None => false,
    }
}

/// Swaps the current and previous versions of an installed Automation and
/// leaves it disabled.
///
/// # Errors
///
/// [`SqlitePersistenceError::AutomationNotInstalled`] without a slot,
/// [`SqlitePersistenceError::AutomationPreviousVersionUnavailable`] when no
/// previous version is kept, [`SqlitePersistenceError::InvalidAutomationCatalog`]
/// for a timestamp beyond storage range, and a storage error when `now_ms`
/// precedes the first install.
pub fn rollback_slot(existing: Option<CatalogSlot>, automation_id: &str, now_ms: u64) -> (r: Result<
    (CatalogSlot, AutomationInstallReceipt),
    SqlitePersistenceError,
>)
    ensures
        rollback_rejection(slot_view(existing), now_ms) matches Some(e) ==> r == Err::<
            (CatalogSlot, AutomationInstallReceipt),
            SqlitePersistenceError,
        >(e),
        rollback_rejection(slot_view(existing), now_ms) is None && breaks_order(
            slot_view(existing),
            now_ms,
        ) ==> (r matches Err(SqlitePersistenceError::Sqlite(m)) && m@ == TIMESTAMP_ORDER_VIOLATION@),
        rollback_rejection(slot_view(existing), now_ms) is None && !breaks_order(
            slot_view(existing),
            now_ms,
        ) ==> r is Ok,
        r matches Ok((slot, receipt)) ==> {
            &&& existing is Some
            &&& slot@ == rolled_back_slot(existing.unwrap()@, now_ms)
            &&& slot_ok(slot@)
            &&& receipt.spec@ == AUTOMATION_INSTALL_RECEIPT_SPEC@
            &&& receipt.automation_id@ == automation_id@
            &&& Some(receipt.version@) == existing.unwrap()@.previous_version
            &&& opt_text(receipt.replaced_version) == Some(existing.unwrap()@.current_version)
            &&& !receipt.enabled
        },
{
    let old = match existing {
        None => {
            return Err(SqlitePersistenceError::AutomationNotInstalled);
        },
        Some(old) => old,
    };
    let CatalogSlot {
        automation_id: stored_id,
        current_version,
        current_payload,
        previous_version,
        previous_payload,
        enabled: _,
        installed_at_ms,
        updated_at_ms: _,
    } = old;
    let previous_version = match previous_version {
        None => {
            return Err(SqlitePersistenceError::AutomationPreviousVersionUnavailable);
        },
        Some(v) => v,
    };
    let previous_payload = match previous_payload {
        None => {
            return Err(SqlitePersistenceError::AutomationPreviousVersionUnavailable);
        },
        Some(p) => p,
    };
    if now_ms > MAX_CATALOG_TIMESTAMP_MS {
        return Err(SqlitePersistenceError::InvalidAutomationCatalog);
    }
    if now_ms < installed_at_ms {
        return Err(SqlitePersistenceError::Sqlite(TIMESTAMP_ORDER_VIOLATION.to_owned()));
    }
    let version = previous_version.clone();
    let replaced = current_version.clone();
    let slot = CatalogSlot {
        automation_id: stored_id,
        current_version: previous_version,
        current_payload: previous_payload,
        previous_version: Some(current_version),
        previous_payload: Some(current_payload),
        enabled: false,
        installed_at_ms,
        updated_at_ms: now_ms,
    };
    let receipt = AutomationInstallReceipt {
        spec: AUTOMATION_INSTALL_RECEIPT_SPEC.to_owned(),
        automation_id: automation_id.to_owned(),
        version,
        replaced_version: Some(replaced),
        enabled: false,
    };
    Ok((slot, receipt))
}

/// The slot with only its enabled flag and update time changed.
pub open spec fn enabled_slot(old: CatalogSlotView, enabled: bool, now_ms: u64) -> CatalogSlotView {
    CatalogSlotView { enabled, updated_at_ms: now_ms, ..old }
}

/// Changes only the enabled flag of an installed Automation.
///
/// # Errors
///
/// [`SqlitePersistenceError::InvalidAutomationCatalog`] for a timestamp beyond
/// storage range, [`SqlitePersistenceError::AutomationNotInstalled`] without a
/// slot, and a storage error when `now_ms` precedes the first install.
pub fn set_slot_enabled(existing: Option<CatalogSlot>, enabled: bool, now_ms: u64) -> (r: Result<
    CatalogSlot,
    SqlitePersistenceError,
>)
    ensures
        now_ms > MAX_CATALOG_TIMESTAMP_MS ==> r == Err::<CatalogSlot, SqlitePersistenceError>(
            SqlitePersistenceError::InvalidAutomationCatalog,
        ),
        now_ms <= MAX_CATALOG_TIMESTAMP_MS && existing is None ==> r == Err::<
            CatalogSlot,
            SqlitePersistenceError,
        >(SqlitePersistenceError::AutomationNotInstalled),
        now_ms <= MAX_CATALOG_TIMESTAMP_MS && breaks_order(slot_view(existing), now_ms) ==> (r matches Err(
            SqlitePersistenceError::Sqlite(m),
        ) && m@ == TIMESTAMP_ORDER_VIOLATION@),
        now_ms <= MAX_CATALOG_TIMESTAMP_MS && existing is Some && !breaks_order(
            slot_view(existing),
            now_ms,
        ) ==> r is Ok,
        r matches Ok(slot) ==> {
            &&& existing is Some
            &&& slot@ == enabled_slot(existing.unwrap()@, enabled, now_ms)
            &&& slot_ok(existing.unwrap()@) ==> slot_ok(slot@)
        },
{
    if now_ms > MAX_CATALOG_TIMESTAMP_MS {
        return Err(SqlitePersistenceError::InvalidAutomationCatalog);
    }
    match existing {
        None => Err(SqlitePersistenceError::AutomationNotInstalled),
        Some(old) => {
            if now_ms < old.installed_at_ms {
                return Err(SqlitePersistenceError::Sqlite(TIMESTAMP_ORDER_VIOLATION.to_owned()));
            }
            Ok(CatalogSlot { enabled, updated_at_ms: now_ms, ..old })
        },
    }
}

/// An install that the catalog admits is strictly newer than the version it replaces.
pub proof fn law_install_only_upgrades(old: CatalogSlotView, version: Seq<char>, now_ms: u64)
    requires
        install_rejection(Some(old), version, now_ms) is None,
    ensures
        version != old.current_version,
        !key_le(version_key(version), version_key(old.current_version)),
{
}

/// Rolling back right after an upgrade restores the replaced version and its
/// definition, keeps the upgrade as the previous version, and leaves the
/// Automation disabled.
pub proof fn law_rollback_undoes_install(
    old: CatalogSlotView,
    automation_id: Seq<char>,
    version: Seq<char>,
    payload: Seq<char>,
    install_ms: u64,
    rollback_ms: u64,
)
    requires
        install_rejection(Some(old), version, install_ms) is None,
        !breaks_order(Some(old), install_ms),
        rollback_ms <= MAX_CATALOG_TIMESTAMP_MS,
        old.installed_at_ms <= rollback_ms,
    ensures
        ({
            let upgraded = installed_slot(Some(old), automation_id, version, payload, install_ms);
            let restored = rolled_back_slot(upgraded, rollback_ms);
            &&& rollback_rejection(Some(upgraded), rollback_ms) is None
            &&& !breaks_order(Some(upgraded), rollback_ms)
            &&& restored.current_version == old.current_version
            &&& restored.current_payload == old.current_payload
            &&& restored.previous_version == Some(version)
            &&& restored.previous_payload == Some(payload)
            &&& restored.installed_at_ms == old.installed_at_ms
            &&& !restored.enabled
        }),
{
}

/// Two rollbacks in a row give back the versions the slot started with.
pub proof fn law_rollback_twice_restores(old: CatalogSlotView, first_ms: u64, second_ms: u64)
    requires
        rollback_rejection(Some(old), first_ms) is None,
        !breaks_order(Some(old), first_ms),
        second_ms <= MAX_CATALOG_TIMESTAMP_MS,
        old.installed_at_ms <= second_ms,
    ensures
        ({
            let once = rolled_back_slot(old, first_ms);
            let twice = rolled_back_slot(once, second_ms);
            &&& rollback_rejection(Some(once), second_ms) is None
            &&& !breaks_order(Some(once), second_ms)
            &&& twice.current_version == old.current_version
            &&& twice.current_payload == old.current_payload
            &&& twice.previous_version == old.previous_version
            &&& twice.previous_payload == old.previous_payload
            &&& twice.installed_at_ms == old.installed_at_ms
        }),
{
}

/// Lexicographic `a <= b` on version keys.
fn key_at_most(a: (u64, u64, u64), b: (u64, u64, u64)) -> (r: bool)
    ensures
        r == key_le(a, b),
{
    a.0 < b.0 || (a.0 == b.0 && (a.1 < b.1 || (a.1 == b.1 && a.2 <= b.2)))
}


// ----------------------------------------------------------------------------
// The stored catalog
// ----------------------------------------------------------------------------

/// Row `i` is the first slot of the Automation.
pub open spec fn first_slot(slots: Seq<CatalogSlot>, automation_id: Seq<char>, i: int) -> bool {
    &&& 0 <= i < slots.len()
    &&& slots[i].automation_id@ == automation_id
    &&& forall|j: int| 0 <= j < i ==> #[trigger] slots[j].automation_id@ != automation_id
}

/// The Automation's stored slot, if any.
pub open spec fn stored_slot(slots: Seq<CatalogSlot>, automation_id: Seq<char>) -> Option<CatalogSlot> {
    if exists|i: int| first_slot(slots, automation_id, i) {
        Some(slots[choose|i: int| first_slot(slots, automation_id, i)])
    } else {
        None
    }
}

/// `after` is `before` with the Automation's slot written as `slot`: in place
/// of its stored slot, or appended when it had none.
pub open spec fn slot_written(
    before: Seq<CatalogSlot>,
    after: Seq<CatalogSlot>,
    automation_id: Seq<char>,
    slot: CatalogSlotView,
) -> bool {
    if exists|i: int| first_slot(before, automation_id, i) {
        let i = choose|i: int| first_slot(before, automation_id, i);
        &&& after.len() == before.len()
        &&& after[i]@ == slot
        &&& forall|j: int| 0 <= j < before.len() && j != i ==> #[trigger] after[j] == before[j]
    } else {
        &&& after.len() == before.len() + 1
        &&& after.drop_last() == before
        &&& after.last()@ == slot
    }
}

fn copy_text(t: &Option<String>) -> (r: Option<String>)
    ensures
        r == *t,
{
    match t {
        Some(s) => Some(s.clone()),
        None => None,
    }
}

fn copy_slot(slot: &CatalogSlot) -> (r: CatalogSlot)
    ensures
        r == *slot,
{
    CatalogSlot {
        automation_id: slot.automation_id.clone(),
        current_version: slot.current_version.clone(),
        current_payload: slot.current_payload.clone(),
        previous_version: copy_text(&slot.previous_version),
        previous_payload: copy_text(&slot.previous_payload),
        enabled: slot.enabled,
        installed_at_ms: slot.installed_at_ms,
        updated_at_ms: slot.updated_at_ms,
    }
}

fn find_slot(slots: &Vec<CatalogSlot>, automation_id: &str) -> (r: Option<usize>)
    ensures
        match r {
            Some(i) => first_slot(slots@, automation_id@, i as int) && stored_slot(
                slots@,
                automation_id@,
            ) == Some(slots@[i as int]) && (choose|c: int|
                first_slot(slots@, automation_id@, c)) == i,
            None => stored_slot(slots@, automation_id@) is None && !exists|c: int|
                first_slot(slots@, automation_id@, c) && forall|j: int|
                0 <= j < slots@.len() ==> #[trigger] slots@[j].automation_id@ != automation_id@,
        },
{
    let mut i: usize = 0;
    while i < slots.len()
        invariant
            0 <= i <= slots@.len(),
            forall|j: int| 0 <= j < i ==> #[trigger] slots@[j].automation_id@ != automation_id@,
        decreases slots@.len() - i,
    {
        if str_equal(slots[i].automation_id.as_str(), automation_id) {
            proof {
                assert(first_slot(slots@, automation_id@, i as int));
                let c = choose|c: int| first_slot(slots@, automation_id@, c);
                if c < i {
                    assert(slots@[c].automation_id@ != automation_id@);
                } else if c > i {
                    assert(slots@[i as int].automation_id@ != automation_id@);
                }
            }
            return Some(i);
        }
        i = i + 1;
    }
    None
}

/// Writes the Automation's slot back: over its stored slot at `found`, or
/// appended.
fn write_slot(slots: &mut Vec<CatalogSlot>, automation_id: &str, found: Option<usize>, slot: CatalogSlot)
    requires
        match found {
            Some(i) => first_slot(old(slots)@, automation_id@, i as int) && (choose|c: int|
                first_slot(old(slots)@, automation_id@, c)) == i,
            None => !exists|c: int| first_slot(old(slots)@, automation_id@, c),
        },
    ensures
        slot_written(old(slots)@, final(slots)@, automation_id@, slot@),
{
    let ghost before = slots@;
    match found {
        Some(i) => {
            slots.set(i, slot);
        },
        None => {
            slots.push(slot);
            proof {
                assert(slots@.drop_last() =~= before);
            }
        },
    }
}

/// Installs `version` of the Automation over its stored slot (or as its first
/// slot) and stores the new slot, disabled; returns the receipt.
///
/// # Errors
///
/// Those of [`install_slot`] for the stored slot; the catalog is then
/// unchanged.
pub fn install(
    slots: &mut Vec<CatalogSlot>,
    automation_id: &str,
    version: &str,
    payload: &str,
    now_ms: u64,
) -> (r: Result<AutomationInstallReceipt, SqlitePersistenceError>)
    ensures
        install_rejection(slot_view(stored_slot(old(slots)@, automation_id@)), version@, now_ms) matches Some(e)
            ==> r == Err::<AutomationInstallReceipt, SqlitePersistenceError>(e),
        install_rejection(slot_view(stored_slot(old(slots)@, automation_id@)), version@, now_ms) is None
            && breaks_order(slot_view(stored_slot(old(slots)@, automation_id@)), now_ms) ==> (r matches Err(
            SqlitePersistenceError::Sqlite(m),
        ) && m@ == TIMESTAMP_ORDER_VIOLATION@),
        install_rejection(slot_view(stored_slot(old(slots)@, automation_id@)), version@, now_ms) is None
            && !breaks_order(slot_view(stored_slot(old(slots)@, automation_id@)), now_ms) ==> r is Ok,
        r is Err ==> final(slots)@ == old(slots)@,
        r matches Ok(receipt) ==> {
            &&& slot_written(
                old(slots)@,
                final(slots)@,
                automation_id@,
                installed_slot(
                    slot_view(stored_slot(old(slots)@, automation_id@)),
                    automation_id@,
                    version@,
                    payload@,
                    now_ms,
                ),
            )
            &&& receipt.spec@ == AUTOMATION_INSTALL_RECEIPT_SPEC@
            &&& receipt.automation_id@ == automation_id@
            &&& receipt.version@ == version@
            &&& opt_text(receipt.replaced_version) == current_version_of(
                slot_view(stored_slot(old(slots)@, automation_id@)),
            )
            &&& !receipt.enabled
        },
{
    let found = find_slot(slots, automation_id);
    let existing = match found {
        Some(i) => Some(copy_slot(&slots[i])),
        None => None,
    };
    let (slot, receipt) = match install_slot(existing, automation_id, version, payload, now_ms) {
        Ok(done) => done,
        Err(e) => return Err(e),
    };
    write_slot(slots, automation_id, found, slot);
    Ok(receipt)
}

/// Rolls the Automation back to its previous version in the stored catalog,
/// disabled; returns the receipt.
///
/// # Errors
///
/// Those of [`rollback_slot`] for the stored slot; the catalog is then
/// unchanged.
pub fn rollback(slots: &mut Vec<CatalogSlot>, automation_id: &str, now_ms: u64) -> (r: Result<
    AutomationInstallReceipt,
    SqlitePersistenceError,
>)
    ensures
        rollback_rejection(slot_view(stored_slot(old(slots)@, automation_id@)), now_ms) matches Some(e)
            ==> r == Err::<AutomationInstallReceipt, SqlitePersistenceError>(e),
        rollback_rejection(slot_view(stored_slot(old(slots)@, automation_id@)), now_ms) is None
            && breaks_order(slot_view(stored_slot(old(slots)@, automation_id@)), now_ms) ==> (r matches Err(
            SqlitePersistenceError::Sqlite(m),
        ) && m@ == TIMESTAMP_ORDER_VIOLATION@),
        rollback_rejection(slot_view(stored_slot(old(slots)@, automation_id@)), now_ms) is None
            && !breaks_order(slot_view(stored_slot(old(slots)@, automation_id@)), now_ms) ==> r is Ok,
        r is Err ==> final(slots)@ == old(slots)@,
        r matches Ok(receipt) ==> {
            &&& stored_slot(old(slots)@, automation_id@) is Some
            &&& slot_written(
                old(slots)@,
                final(slots)@,
                automation_id@,
                rolled_back_slot(stored_slot(old(slots)@, automation_id@).unwrap()@, now_ms),
            )
            &&& receipt.spec@ == AUTOMATION_INSTALL_RECEIPT_SPEC@
            &&& receipt.automation_id@ == automation_id@
            &&& Some(receipt.version@) == stored_slot(old(slots)@, automation_id@).unwrap()@.previous_version
            &&& opt_text(receipt.replaced_version) == Some(
                stored_slot(old(slots)@, automation_id@).unwrap()@.current_version,
            )
            &&& !receipt.enabled
        },
{
    let found = find_slot(slots, automation_id);
    let existing = match found {
        Some(i) => Some(copy_slot(&slots[i])),
        None => None,
    };
    let (slot, receipt) = match rollback_slot(existing, automation_id, now_ms) {
        Ok(done) => done,
        Err(e) => return Err(e),
    };
    write_slot(slots, automation_id, found, slot);
    Ok(receipt)
}

/// Enables or disables the Automation's stored slot.
///
/// # Errors
///
/// Those of [`set_slot_enabled`] for the stored slot; the catalog is then
/// unchanged.
pub fn set_enabled(slots: &mut Vec<CatalogSlot>, automation_id: &str, enabled: bool, now_ms: u64) -> (r:
    Result<(), SqlitePersistenceError>)
    ensures
        now_ms > MAX_CATALOG_TIMESTAMP_MS ==> r == Err::<(), SqlitePersistenceError>(
            SqlitePersistenceError::InvalidAutomationCatalog,
        ),
        now_ms <= MAX_CATALOG_TIMESTAMP_MS && stored_slot(old(slots)@, automation_id@) is None ==> r
            == Err::<(), SqlitePersistenceError>(SqlitePersistenceError::AutomationNotInstalled),
        now_ms <= MAX_CATALOG_TIMESTAMP_MS && breaks_order(
            slot_view(stored_slot(old(slots)@, automation_id@)),
            now_ms,
        ) ==> (r matches Err(SqlitePersistenceError::Sqlite(m)) && m@ == TIMESTAMP_ORDER_VIOLATION@),
        now_ms <= MAX_CATALOG_TIMESTAMP_MS && stored_slot(old(slots)@, automation_id@) is Some
            && !breaks_order(slot_view(stored_slot(old(slots)@, automation_id@)), now_ms) ==> r is Ok,
        r is Err ==> final(slots)@ == old(slots)@,
        r is Ok ==> slot_written(
            old(slots)@,
            final(slots)@,
            automation_id@,
            enabled_slot(stored_slot(old(slots)@, automation_id@).unwrap()@, enabled, now_ms),
        ),
{
    let found = find_slot(slots, automation_id);
    let existing = match found {
        Some(i) => Some(copy_slot(&slots[i])),
        None => None,
    };
    let slot = match set_slot_enabled(existing, enabled, now_ms) {
        Ok(slot) => slot,
        Err(e) => return Err(e),
    };
    write_slot(slots, automation_id, found, slot);
    Ok(())
}

} // verus!
