use nimora_core::catalog::{
    install as install_stored, install_slot, rollback, rollback_slot, set_enabled, set_slot_enabled, CatalogSlot, AUTOMATION_INSTALL_RECEIPT_SPEC,
    TIMESTAMP_ORDER_VIOLATION,
};
use nimora_core::error::SqlitePersistenceError;

const AUTOMATION_ID: &str = "automation.local.catalog-test";

fn payload(version: &str) -> String {
    format!("{{\"id\":\"{AUTOMATION_ID}\",\"version\":\"{version}\",\"enabled\":false}}")
}

fn install(
    existing: Option<CatalogSlot>,
    version: &str,
    now_ms: u64,
) -> Result<(CatalogSlot, nimora_core::catalog::AutomationInstallReceipt), SqlitePersistenceError>
{
    install_slot(existing, AUTOMATION_ID, version, &payload(version), now_ms)
}

#[test]
fn install_upgrade_enable_and_rollback_are_atomic() {
    let (slot, first) = install(None, "1.0.0", 10).expect("install");
    assert!(!first.enabled);
    let slot = set_slot_enabled(Some(slot), true, 11).expect("enable");
    assert!(slot.enabled);

    let (slot, upgraded) = install(Some(slot), "2.0.0", 20).expect("upgrade");
    assert_eq!(upgraded.replaced_version.as_deref(), Some("1.0.0"));
    assert_eq!(slot.current_version, "2.0.0");
    assert!(!slot.enabled);

    let (slot, rolled_back) = rollback_slot(Some(slot), &first.automation_id, 30).expect("rollback");
    assert_eq!(rolled_back.version, "1.0.0");
    assert!(!rolled_back.enabled);
    assert_eq!(slot.current_version, "1.0.0");
}

#[test]
fn same_version_and_missing_previous_fail_closed() {
    let (slot, _) = install(None, "1.0.0", 10).expect("install");
    assert!(matches!(
        install(Some(slot.clone()), "1.0.0", 20),
        Err(SqlitePersistenceError::AutomationVersionAlreadyInstalled)
    ));
    assert!(matches!(
        install(Some(slot.clone()), "0.9.0", 20),
        Err(SqlitePersistenceError::AutomationVersionNotNewer)
    ));
    assert!(matches!(
        rollback_slot(Some(slot), AUTOMATION_ID, 30),
        Err(SqlitePersistenceError::AutomationPreviousVersionUnavailable)
    ));
}

#[test]
fn first_install_receipt_and_slot() {
    let (slot, receipt) = install(None, "1.0.0", 10).expect("install");
    assert_eq!(receipt.spec, AUTOMATION_INSTALL_RECEIPT_SPEC);
    assert_eq!(receipt.spec, "nimora.automation-install-receipt/1");
    assert_eq!(receipt.automation_id, AUTOMATION_ID);
    assert_eq!(receipt.version, "1.0.0");
    assert_eq!(receipt.replaced_version, None);
    assert_eq!(slot.current_payload, payload("1.0.0"));
    assert_eq!(slot.previous_version, None);
    assert_eq!(slot.previous_payload, None);
    assert_eq!((slot.installed_at_ms, slot.updated_at_ms), (10, 10));
}

#[test]
fn upgrade_keeps_first_install_time_and_previous_definition() {
    let (slot, _) = install(None, "1.0.0", 10).expect("install");
    let (slot, _) = install(Some(slot), "1.0.1", 25).expect("upgrade");
    assert_eq!(slot.installed_at_ms, 10);
    assert_eq!(slot.updated_at_ms, 25);
    assert_eq!(slot.previous_version.as_deref(), Some("1.0.0"));
    assert_eq!(slot.previous_payload, Some(payload("1.0.0")));
    assert_eq!(slot.current_payload, payload("1.0.1"));
}

#[test]
fn versions_compare_numerically_not_textually() {
    let (slot, _) = install(None, "1.9.9", 10).expect("install");
    let (slot, receipt) = install(Some(slot), "1.10.0", 20).expect("numeric upgrade");
    assert_eq!(receipt.replaced_version.as_deref(), Some("1.9.9"));
    assert!(matches!(
        install(Some(slot), "1.9.10", 30),
        Err(SqlitePersistenceError::AutomationVersionNotNewer)
    ));
}

#[test]
fn non_numeric_component_counts_as_largest() {
    let (slot, _) = install(None, "1.x", 10).expect("install");
    assert!(matches!(
        install(Some(slot.clone()), "1.99.99", 20),
        Err(SqlitePersistenceError::AutomationVersionNotNewer)
    ));
    assert!(install(Some(slot), "2", 20).is_ok());
}

#[test]
fn timestamps_beyond_storage_range_are_rejected() {
    let too_late = i64::MAX as u64 + 1;
    assert!(matches!(
        install(None, "1.0.0", too_late),
        Err(SqlitePersistenceError::InvalidAutomationCatalog)
    ));
    let (slot, _) = install(None, "1.0.0", 10).expect("install");
    assert!(matches!(
        set_slot_enabled(Some(slot.clone()), true, too_late),
        Err(SqlitePersistenceError::InvalidAutomationCatalog)
    ));
    let (slot, _) = install(Some(slot), "2.0.0", 20).expect("upgrade");
    assert!(matches!(
        rollback_slot(Some(slot), AUTOMATION_ID, too_late),
        Err(SqlitePersistenceError::InvalidAutomationCatalog)
    ));
}

#[test]
fn unknown_automation_is_not_installed() {
    assert!(matches!(
        set_slot_enabled(None, true, 10),
        Err(SqlitePersistenceError::AutomationNotInstalled)
    ));
    assert!(matches!(
        rollback_slot(None, AUTOMATION_ID, 10),
        Err(SqlitePersistenceError::AutomationNotInstalled)
    ));
}

#[test]
fn writes_before_first_install_fail_as_storage_does() {
    let (slot, _) = install(None, "1.0.0", 100).expect("install");
    match set_slot_enabled(Some(slot.clone()), true, 99) {
        Err(SqlitePersistenceError::Sqlite(message)) => {
            assert_eq!(message, TIMESTAMP_ORDER_VIOLATION)
        }
        other => panic!("unexpected {other:?}"),
    }
    assert!(matches!(
        install(Some(slot), "2.0.0", 50),
        Err(SqlitePersistenceError::Sqlite(_))
    ));
}

#[test]
fn rollback_twice_returns_to_upgrade() {
    let (slot, _) = install(None, "1.0.0", 10).expect("install");
    let (slot, _) = install(Some(slot), "2.0.0", 20).expect("upgrade");
    let (slot, _) = rollback_slot(Some(slot), AUTOMATION_ID, 30).expect("rollback");
    assert_eq!(slot.previous_version.as_deref(), Some("2.0.0"));
    let (slot, receipt) = rollback_slot(Some(slot), AUTOMATION_ID, 40).expect("roll forward");
    assert_eq!(slot.current_version, "2.0.0");
    assert_eq!(slot.current_payload, payload("2.0.0"));
    assert_eq!(slot.previous_version.as_deref(), Some("1.0.0"));
    assert_eq!(receipt.replaced_version.as_deref(), Some("1.0.0"));
    assert_eq!((slot.installed_at_ms, slot.updated_at_ms), (10, 40));
    assert!(!slot.enabled);
}

#[test]
fn set_enabled_changes_only_the_flag_and_time() {
    let (slot, _) = install(None, "1.0.0", 10).expect("install");
    let enabled = set_slot_enabled(Some(slot.clone()), true, 15).expect("enable");
    assert!(enabled.enabled);
    assert_eq!(enabled.updated_at_ms, 15);
    assert_eq!(enabled.current_version, slot.current_version);
    assert_eq!(enabled.current_payload, slot.current_payload);
    assert_eq!(enabled.installed_at_ms, slot.installed_at_ms);
}

#[test]
fn stored_catalog_keeps_one_slot_per_automation() {
    let mut slots: Vec<CatalogSlot> = Vec::new();
    let other = "automation.local.other";
    install_stored(&mut slots, other, "1.0.0", "{}", 5).expect("other");
    let first = install_stored(&mut slots, AUTOMATION_ID, "1.0.0", &payload("1.0.0"), 10).expect("install");
    assert_eq!(first.replaced_version, None);
    assert_eq!(slots.len(), 2);
    set_enabled(&mut slots, AUTOMATION_ID, true, 11).expect("enable");
    assert!(slots[1].enabled);
    let upgraded = install_stored(&mut slots, AUTOMATION_ID, "2.0.0", &payload("2.0.0"), 20).expect("upgrade");
    assert_eq!(upgraded.replaced_version.as_deref(), Some("1.0.0"));
    assert_eq!(slots.len(), 2);
    assert_eq!(slots[1].current_version, "2.0.0");
    assert_eq!(slots[1].installed_at_ms, 10);
    assert!(!slots[1].enabled);
    assert_eq!(slots[0].automation_id, other);

    let before = slots.clone();
    assert_eq!(
        install_stored(&mut slots, AUTOMATION_ID, "2.0.0", &payload("2.0.0"), 21),
        Err(SqlitePersistenceError::AutomationVersionAlreadyInstalled)
    );
    assert_eq!(
        install_stored(&mut slots, AUTOMATION_ID, "1.5.0", &payload("1.5.0"), 21),
        Err(SqlitePersistenceError::AutomationVersionNotNewer)
    );
    assert_eq!(set_enabled(&mut slots, "automation.local.missing", true, 21), Err(SqlitePersistenceError::AutomationNotInstalled));
    assert_eq!(slots, before);

    let back = rollback(&mut slots, AUTOMATION_ID, 30).expect("rollback");
    assert_eq!(back.version, "1.0.0");
    assert_eq!(slots[1].current_version, "1.0.0");
    assert_eq!(slots[1].previous_version.as_deref(), Some("2.0.0"));
    assert_eq!(rollback(&mut slots, other, 31), Err(SqlitePersistenceError::AutomationPreviousVersionUnavailable));
}
