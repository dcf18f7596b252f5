use nimora_core::error::SqlitePersistenceError;
use nimora_core::provider_config::{
    delete_config, get_config, list_configs, save_config, ProviderConfigRow, MAX_CONFIGS,
    canonical_endpoint, endpoint_from_parts, valid_provider_id, valid_secret_reference, validate,
    ProviderConfig, UrlParts, PROVIDER_CONFIG_SPEC,
};

fn config(id: &str) -> ProviderConfig {
    ProviderConfig::new(
        id,
        "Work AI",
        "https://ai.example.com/",
        "secret:provider:work-ai",
        Some("model-a".to_owned()),
        128_000,
        16_384,
        true,
    )
    .expect("config")
}

fn parts(scheme: &str, host: &str) -> UrlParts {
    UrlParts {
        scheme: scheme.into(),
        username: String::new(),
        password: None,
        host: Some(host.into()),
        ipv4: None,
        path: "/".into(),
        query: None,
        fragment: None,
        cannot_be_a_base: false,
        pathless: format!("{scheme}://{host}/"),
    }
}

#[test]
fn rejects_plaintext_fields_and_unsafe_endpoints() {
    let safe = config("provider:openai-compatible:safe");
    assert_eq!(safe.credential_reference, "secret:provider:work-ai");
    for endpoint in [
        "http://ai.example.com",
        "https://user@ai.example.com",
        "https://ai.example.com/v1",
    ] {
        assert!(ProviderConfig::new(
            "provider:openai-compatible:unsafe",
            "Unsafe",
            endpoint,
            "secret:provider:unsafe",
            None,
            1,
            1,
            true,
        )
        .is_err());
    }
}

#[test]
fn new_config_is_canonical_and_valid() {
    let c = config("provider:openai-compatible:work");
    assert_eq!(c.spec, PROVIDER_CONFIG_SPEC);
    assert_eq!(c.base_url, "https://ai.example.com");
    assert_eq!(c.revision, 0);
    assert_eq!(validate(&c), Ok(()));
    let mut tampered = c.clone();
    tampered.base_url = "https://ai.example.com/".into();
    assert_eq!(validate(&tampered), Err(SqlitePersistenceError::InvalidProviderConfig));
}

#[test]
fn canonical_endpoint_keeps_port_and_trims_slash() {
    assert_eq!(canonical_endpoint("https://AI.Example.com:8443/").as_deref(), Ok("https://ai.example.com:8443"));
    assert_eq!(canonical_endpoint("http://localhost:11434").as_deref(), Ok("http://localhost:11434"));
    assert_eq!(canonical_endpoint("http://127.0.0.1:8080/").as_deref(), Ok("http://127.0.0.1:8080"));
    assert_eq!(canonical_endpoint("http://127.9.9.9").as_deref(), Ok("http://127.9.9.9"));
}

#[test]
fn canonical_endpoint_rejects_unsafe_forms() {
    for endpoint in [
        "not a url",
        "http://10.0.0.1",
        "http://[::1]/",
        "https://ai.example.com/?q=1",
        "https://ai.example.com/#x",
        "https://user:pw@ai.example.com",
        "mailto:someone@example.com",
        "ftp://files.example.com",
    ] {
        assert_eq!(
            canonical_endpoint(endpoint),
            Err(SqlitePersistenceError::InvalidProviderConfig),
            "{endpoint}"
        );
    }
}

#[test]
fn endpoint_rules_on_given_parts() {
    assert_eq!(endpoint_from_parts(&Some(parts("https", "a.example"))).as_deref(), Ok("https://a.example"));
    assert_eq!(
        endpoint_from_parts(&Some(parts("http", "a.example"))),
        Err(SqlitePersistenceError::InvalidProviderConfig)
    );
    assert_eq!(endpoint_from_parts(&Some(parts("http", "LocalHost"))).as_deref(), Ok("http://LocalHost"));
    let mut loopback = parts("http", "127.0.0.1");
    loopback.ipv4 = Some([127, 0, 0, 1]);
    assert_eq!(endpoint_from_parts(&Some(loopback)).as_deref(), Ok("http://127.0.0.1"));
    let mut private = parts("http", "10.1.2.3");
    private.ipv4 = Some([10, 1, 2, 3]);
    assert!(endpoint_from_parts(&Some(private)).is_err());
    let mut with_path = parts("https", "a.example");
    with_path.path = "/v1".into();
    assert!(endpoint_from_parts(&Some(with_path)).is_err());
    let mut no_host = parts("https", "a.example");
    no_host.host = None;
    assert!(endpoint_from_parts(&Some(no_host)).is_err());
    let mut slashes = parts("https", "a.example");
    slashes.pathless = "https://a.example///".into();
    assert_eq!(endpoint_from_parts(&Some(slashes)).as_deref(), Ok("https://a.example"));
    assert!(endpoint_from_parts(&None).is_err());
}

#[test]
fn provider_ids_and_references_are_strict() {
    assert!(valid_provider_id("provider:openai-compatible:work"));
    assert!(valid_provider_id("provider:openai-compatible:team.a_b-1"));
    assert!(!valid_provider_id("provider:openai-compatible:"));
    assert!(!valid_provider_id("provider:openai-compatible::x"));
    assert!(!valid_provider_id("provider:openai-compatible:Work"));
    assert!(!valid_provider_id("provider:other:work"));
    assert!(!valid_provider_id(&format!("provider:openai-compatible:{}", "a".repeat(65))));
    assert!(valid_provider_id(&format!("provider:openai-compatible:{}", "a".repeat(64))));
    assert!(valid_secret_reference("secret:provider:work-ai"));
    assert!(!valid_secret_reference("secret:provider:work ai"));
    assert!(!valid_secret_reference("sk-live-123"));
}

#[test]
fn invalid_fields_are_rejected() {
    let bad = |id: &str, name: &str, reference: &str, model: Option<String>, ctx: u64, out: u64| {
        ProviderConfig::new(id, name, "https://ai.example.com", reference, model, ctx, out, true)
    };
    let id = "provider:openai-compatible:work";
    let reference = "secret:provider:work";
    assert!(bad(id, "Work", reference, None, 10, 10).is_ok());
    assert!(bad(id, "   ", reference, None, 10, 10).is_err());
    assert!(bad(id, "Work\u{7}", reference, None, 10, 10).is_err());
    assert!(bad(id, "Work", reference, Some(" ".into()), 10, 10).is_err());
    assert!(bad(id, "Work", reference, None, 0, 0).is_err());
    assert!(bad(id, "Work", reference, None, 10, 11).is_err());
    assert!(bad("work", "Work", reference, None, 10, 10).is_err());
    assert!(bad(id, "Work", "plain", None, 10, 10).is_err());
}

#[test]
fn persists_only_reference_and_uses_revision_cas() {
    let mut rows: Vec<ProviderConfigRow> = Vec::new();
    let saved = save_config(&mut rows, &config("provider:openai-compatible:work")).expect("save");
    assert_eq!(saved.revision, 1);
    assert_eq!(get_config(&rows, &saved.id).expect("get"), Some(saved.clone()));
    assert!(matches!(
        save_config(&mut rows, &config("provider:openai-compatible:work")),
        Err(SqlitePersistenceError::ProviderConfigConflict)
    ));
    let mut changed = saved.clone();
    changed.default_model = Some("model-b".to_owned());
    let changed = save_config(&mut rows, &changed).expect("replace");
    assert_eq!(changed.revision, 2);
    assert!(delete_config(&mut rows, &changed.id, changed.revision).expect("delete"));
}

#[test]
fn configurations_list_in_key_order_and_are_bounded() {
    let mut rows: Vec<ProviderConfigRow> = Vec::new();
    for id in ["provider:openai-compatible:b", "provider:openai-compatible:a", "provider:openai-compatible:c"] {
        save_config(&mut rows, &config(id)).expect("save");
    }
    let ids: Vec<String> = list_configs(&rows).expect("list").into_iter().map(|c| c.id).collect();
    assert_eq!(
        ids,
        vec![
            "provider:openai-compatible:a".to_owned(),
            "provider:openai-compatible:b".to_owned(),
            "provider:openai-compatible:c".to_owned(),
        ]
    );
    for k in 3..MAX_CONFIGS {
        save_config(&mut rows, &config(&format!("provider:openai-compatible:p{}", k))).expect("save");
    }
    assert_eq!(rows.len(), MAX_CONFIGS);
    assert_eq!(
        save_config(&mut rows, &config("provider:openai-compatible:overflow")),
        Err(SqlitePersistenceError::InvalidProviderConfig)
    );
    let mut first = config("provider:openai-compatible:a");
    first.revision = 1;
    assert!(save_config(&mut rows, &first).is_ok());
}

#[test]
fn delete_needs_the_exact_revision() {
    let mut rows: Vec<ProviderConfigRow> = Vec::new();
    let saved = save_config(&mut rows, &config("provider:openai-compatible:work")).expect("save");
    assert_eq!(
        delete_config(&mut rows, &saved.id, 0),
        Err(SqlitePersistenceError::InvalidProviderConfig)
    );
    assert_eq!(
        delete_config(&mut rows, "not-a-provider", 1),
        Err(SqlitePersistenceError::InvalidProviderConfig)
    );
    assert_eq!(
        delete_config(&mut rows, &saved.id, 2),
        Err(SqlitePersistenceError::ProviderConfigConflict)
    );
    assert_eq!(delete_config(&mut rows, "provider:openai-compatible:absent", 1), Ok(false));
    let mut unsaved = config("provider:openai-compatible:new");
    unsaved.revision = 3;
    assert_eq!(
        save_config(&mut rows, &unsaved),
        Err(SqlitePersistenceError::ProviderConfigConflict)
    );
    assert_eq!(delete_config(&mut rows, &saved.id, 1), Ok(true));
    assert!(rows.is_empty());
}

#[test]
fn stored_rows_are_checked_when_listed() {
    let mut rows: Vec<ProviderConfigRow> = Vec::new();
    save_config(&mut rows, &config("provider:openai-compatible:work")).expect("save");
    rows[0].revision = 7;
    assert_eq!(list_configs(&rows), Err(SqlitePersistenceError::InvalidProviderConfig));
    rows[0].revision = 1;
    rows[0].schema_version = 2;
    assert_eq!(
        get_config(&rows, "provider:openai-compatible:work"),
        Err(SqlitePersistenceError::InvalidProviderConfig)
    );
}
