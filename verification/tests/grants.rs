use nimora_core::error::SqlitePersistenceError;
use nimora_core::grants::{
    grant_permission, is_granted, list_skill_states, load_skill_state, remove_skill_state,
    revoke_program, save_skill_state, PermissionGrantRow, SkillStateRow,
};
use nimora_core::records::{ProgramPermissionGrant, SkillStateRecord};

#[test]
fn permission_grants_are_bound_to_program_version_and_exact_capabilities() {
    let mut rows: Vec<PermissionGrantRow> = Vec::new();
    let grant = ProgramPermissionGrant {
        program_id: "studio.example.focus".to_owned(),
        version: "1.0.0".to_owned(),
        capabilities: vec!["invoke-safe-commands".to_owned(), "read-pet-state".to_owned()],
    };
    assert!(!is_granted(&rows, &grant).expect("check"));
    grant_permission(&mut rows, &grant).expect("grant");
    assert!(is_granted(&rows, &grant).expect("check"));
    assert!(!is_granted(
        &rows,
        &ProgramPermissionGrant { version: "2.0.0".to_owned(), ..grant.clone() }
    )
    .expect("version check"));
    assert!(!is_granted(
        &rows,
        &ProgramPermissionGrant { capabilities: vec!["read-pet-state".to_owned()], ..grant }
    )
    .expect("capability check"));
}

#[test]
fn revoking_a_program_removes_all_version_grants() {
    let mut rows: Vec<PermissionGrantRow> = Vec::new();
    for version in ["1.0.0", "2.0.0"] {
        grant_permission(
            &mut rows,
            &ProgramPermissionGrant {
                program_id: "studio.example.focus".to_owned(),
                version: version.to_owned(),
                capabilities: vec!["read-pet-state".to_owned()],
            },
        )
        .expect("grant");
    }
    revoke_program(&mut rows, "studio.example.focus").expect("revoke");
    assert!(!is_granted(
        &rows,
        &ProgramPermissionGrant {
            program_id: "studio.example.focus".to_owned(),
            version: "1.0.0".to_owned(),
            capabilities: vec!["read-pet-state".to_owned()],
        }
    )
    .expect("check"));
}

#[test]
fn grants_are_stored_canonically_and_compared_as_sets() {
    let mut rows: Vec<PermissionGrantRow> = Vec::new();
    let grant = ProgramPermissionGrant {
        program_id: "p".to_owned(),
        version: "1".to_owned(),
        capabilities: vec!["b".to_owned(), "a".to_owned()],
    };
    grant_permission(&mut rows, &grant).expect("grant");
    assert_eq!(rows[0].capabilities, vec!["a".to_owned(), "b".to_owned()]);
    rows[0].capabilities = vec!["b".to_owned(), "a".to_owned(), "a".to_owned()];
    assert_eq!(is_granted(&rows, &grant), Ok(true));
    let none = ProgramPermissionGrant { capabilities: Vec::new(), ..grant.clone() };
    assert_eq!(is_granted(&Vec::new(), &none), Ok(true));
    let twice = ProgramPermissionGrant {
        capabilities: vec!["a".to_owned(), "a".to_owned()],
        ..grant.clone()
    };
    assert_eq!(
        grant_permission(&mut rows, &twice),
        Err(SqlitePersistenceError::InvalidPermissionGrant)
    );
    assert_eq!(revoke_program(&mut rows, "  "), Err(SqlitePersistenceError::InvalidPermissionGrant));
    grant_permission(&mut rows, &grant).expect("replace");
    assert_eq!(rows.len(), 1);
}

#[test]
fn skill_state_is_exact_versioned_and_stably_listed() {
    let mut rows: Vec<SkillStateRow> = Vec::new();
    let first = SkillStateRecord {
        skill_id: "studio.example.focus".to_owned(),
        version: "1.0.0".to_owned(),
        capabilities: vec!["invoke-commands".to_owned()],
        authorized: true,
        enabled: true,
    };
    save_skill_state(&mut rows, &first).expect("save");
    save_skill_state(
        &mut rows,
        &SkillStateRecord {
            skill_id: "studio.example.clock".to_owned(),
            version: "2.0.0".to_owned(),
            capabilities: Vec::new(),
            authorized: false,
            enabled: false,
        },
    )
    .expect("save");
    assert_eq!(load_skill_state(&rows, &first.skill_id).expect("load"), Some(first));
    let records = list_skill_states(&rows).expect("list");
    assert_eq!(records.len(), 2);
    assert_eq!(records[0].skill_id, "studio.example.clock");
    assert_eq!(records[1].skill_id, "studio.example.focus");
}

#[test]
fn skill_upgrade_replaces_grant_and_remove_revokes_state() {
    let mut rows: Vec<SkillStateRow> = Vec::new();
    for version in ["1.0.0", "2.0.0"] {
        save_skill_state(
            &mut rows,
            &SkillStateRecord {
                skill_id: "studio.example.focus".to_owned(),
                version: version.to_owned(),
                capabilities: vec!["invoke-commands".to_owned()],
                authorized: true,
                enabled: version == "2.0.0",
            },
        )
        .expect("save");
    }
    let current = load_skill_state(&rows, "studio.example.focus").expect("load").expect("record");
    assert_eq!(current.version, "2.0.0");
    assert!(current.enabled);
    remove_skill_state(&mut rows, "studio.example.focus").expect("remove");
    assert!(load_skill_state(&rows, "studio.example.focus").expect("load").is_none());
}

#[test]
fn skill_state_rejects_duplicate_capabilities() {
    let mut rows: Vec<SkillStateRow> = Vec::new();
    assert!(matches!(
        save_skill_state(
            &mut rows,
            &SkillStateRecord {
                skill_id: "studio.example.focus".to_owned(),
                version: "1.0.0".to_owned(),
                capabilities: vec!["invoke-commands".to_owned(), "invoke-commands".to_owned()],
                authorized: true,
                enabled: true,
            }
        ),
        Err(SqlitePersistenceError::InvalidSkillState)
    ));
}

#[test]
fn stored_skill_states_are_checked_when_read() {
    let mut rows: Vec<SkillStateRow> = Vec::new();
    assert_eq!(load_skill_state(&rows, "bad id"), Err(SqlitePersistenceError::InvalidSkillState));
    assert_eq!(remove_skill_state(&mut rows, ""), Err(SqlitePersistenceError::InvalidSkillState));
    save_skill_state(
        &mut rows,
        &SkillStateRecord {
            skill_id: "s".to_owned(),
            version: "1".to_owned(),
            capabilities: vec!["z".to_owned(), "a".to_owned()],
            authorized: true,
            enabled: false,
        },
    )
    .expect("save");
    assert_eq!(rows[0].capabilities, vec!["a".to_owned(), "z".to_owned()]);
    rows[0].authorized = false;
    rows[0].enabled = true;
    assert_eq!(load_skill_state(&rows, "s"), Err(SqlitePersistenceError::InvalidSkillState));
    assert_eq!(list_skill_states(&rows), Err(SqlitePersistenceError::InvalidSkillState));
}
