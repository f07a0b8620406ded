use sacode_cli::mistakes::{MistakeBook, MistakeBookStore};
use sacode_cli::product_path::{product_ready, product_model_entries, identity_default_model};
use sacode_cli::project_profile::{default_profile_config, ProjectProfileStore, ProfileError};
use sacode_cli::provider_config::{
    model_reference, preset_connect_options, removal_refused, rename_names, renamed_reference,
    normalize_base_url, fallback_models, catalog_from_legacy, NamedProviderConfig, ProviderCatalog,
    ProviderConfig, ProviderConfigStore, ProviderError, SaCodeConfigStore,
};
use sacode_cli::provider_runtime::{resolve_named_provider, model_health_path};

fn config(base_url: &str, api_key: &str, model: &str) -> ProviderConfig {
    ProviderConfig { base_url: base_url.to_string(), api_key: api_key.to_string(), model: model.to_string() }
}

#[test]
fn mistake_book_store_appends_entries() {
    let store = MistakeBookStore::new("/tmp/sacode-mistakes");
    let mut book = store.ensure_exists(None);
    store.append(&mut book, "tool:web.search", "failed", "network timeout");
    assert_eq!(book.entries.len(), 1);
    assert_eq!(book.entries[0].scope, "tool:web.search");
    assert_eq!(store.path(), "/tmp/sacode-mistakes/.sacode/mistakes.json");
}

#[test]
fn mistake_book_keeps_earlier_entries() {
    let store = MistakeBookStore::new("w");
    let mut book = MistakeBook::empty();
    store.append_at(&mut book, "a", "s1", "d1", "100");
    store.append_at(&mut book, "b", "s2", "d2", "200");
    assert_eq!(book.entries.len(), 2);
    assert_eq!(book.entries[0].timestamp, "100");
    assert_eq!(book.entries[1].scope, "b");
}

#[test]
fn project_profile_store_uses_project_local_file() {
    let store = ProjectProfileStore::new("/tmp/sacode-profile-store");
    let mut config = store.ensure_exists(None);
    assert_eq!(config.current, "default");
    assert_eq!(store.path(), "/tmp/sacode-profile-store/.sacode/profile.json");

    store.set_current(&mut config, "local").expect("set current profile");
    assert_eq!(config.current, "local");
}

#[test]
fn profile_set_current_refuses_unknown_name() {
    let store = ProjectProfileStore::new("w");
    let mut config = default_profile_config();
    match store.set_current(&mut config, "nope") {
        Err(e @ ProfileError::NotFound(_)) => assert_eq!(e.message(), "profile not found: nope"),
        other => panic!("unexpected {:?}", other),
    }
    assert_eq!(config.current, "default");
}

#[test]
fn normalize_base_url_trims_slashes_and_spaces() {
    assert_eq!(normalize_base_url(" https://example.com/v1/ "), "https://example.com/v1");
}

#[test]
fn product_ready_false_without_providers() {
    assert!(!product_ready(&None, &None));
}

#[test]
fn product_ready_with_an_authorized_provider() {
    let named = NamedProviderConfig { name: "openai".to_string(), config: config("u", "k", "m") };
    assert!(product_ready(&None, &Some(named)));
}

#[test]
fn provider_store_saves_and_loads_normalized_config() {
    let store = ProviderConfigStore::new("/tmp/sacode-provider-config");
    let catalog = store.save(None, &config("https://example.com/v1/", "test-key", "gpt-test"));
    let loaded = store.load_current(&Some(catalog)).expect("provider config should exist");
    assert_eq!(loaded.name, "default");
    assert_eq!(loaded.config.base_url, "https://example.com/v1");
    assert_eq!(loaded.config.api_key, "test-key");
    assert_eq!(loaded.config.model, "gpt-test");
}

#[test]
fn provider_store_supports_multiple_providers() {
    let store = ProviderConfigStore::new("/tmp/sacode-provider-catalog");
    let catalog = store.save_named(None, "openai", &config("https://api.openai.com/v1", "openai-key", "gpt-5.4"), true);
    let catalog = store.save_named(
        Some(catalog),
        "local",
        &config("http://localhost:11434/v1", "local-key", "glm-4.7-flash"),
        false,
    );

    let opt = Some(catalog);
    let names = store.list_names(&opt);
    assert_eq!(names, vec!["local".to_string(), "openai".to_string()]);

    let mut catalog = opt.unwrap();
    store.set_current(&mut catalog, "local").expect("switch current provider");
    let loaded = store.load_current(&Some(catalog)).expect("current provider should exist");
    assert_eq!(loaded.name, "local");
    assert_eq!(loaded.config.model, "glm-4.7-flash");
}

#[test]
fn provider_store_can_rename_and_remove_non_current_provider() {
    let store = ProviderConfigStore::new("/tmp/sacode-provider-rename-remove");
    let catalog = store.save_named(None, "openai", &config("https://api.openai.com/v1", "openai-key", "gpt-5.4"), true);
    let mut catalog = store.save_named(
        Some(catalog),
        "local",
        &config("http://localhost:11434/v1", "local-key", "qwen2.5-coder"),
        false,
    );

    store.rename(&mut catalog, "local", "ollama").expect("rename provider");
    let opt = Some(catalog);
    let names = store.list_names(&opt);
    assert_eq!(names, vec!["ollama".to_string(), "openai".to_string()]);
    let mut catalog = opt.unwrap();

    store.remove(&mut catalog, "ollama").expect("remove renamed provider");
    let names = store.list_names(&Some(catalog));
    assert_eq!(names, vec!["openai".to_string()]);
}

#[test]
fn provider_store_loads_legacy_single_provider_file() {
    let store = ProviderConfigStore::new("/tmp/sacode-provider-legacy");
    let catalog = catalog_from_legacy(config("https://example.com/v1/", "legacy-key", "legacy-model"));
    let loaded = store.load_current(&Some(catalog)).expect("legacy provider should exist");
    assert_eq!(loaded.name, "default");
    assert_eq!(loaded.config.base_url, "https://example.com/v1");
    assert_eq!(loaded.config.api_key, "legacy-key");
    assert_eq!(loaded.config.model, "legacy-model");
}

#[test]
fn provider_errors_for_each_refusal() {
    let store = ProviderConfigStore::new("w");
    let catalog = store.save_named(None, "openai", &config("u", "k", "m"), true);
    let mut catalog = store.save_named(Some(catalog), "local", &config("u2", "k2", "m2"), false);

    let e = store.set_current(&mut catalog, "missing").unwrap_err();
    assert_eq!(e.message(), "provider not found: missing");
    let e = store.rename(&mut catalog, "  ", "x").unwrap_err();
    assert!(matches!(e, ProviderError::EmptyName));
    assert_eq!(e.message(), "provider name cannot be empty");
    let e = store.rename(&mut catalog, "local", "openai").unwrap_err();
    assert_eq!(e.message(), "provider already exists: openai");
    let e = store.remove(&mut catalog, "openai").unwrap_err();
    assert_eq!(e.message(), "cannot remove current provider: openai");
}

#[test]
fn resolve_named_provider_without_catalog_is_none() {
    assert!(resolve_named_provider(&None).is_none());
    let empty: Option<ProviderCatalog> = Some(ProviderCatalog::empty());
    assert!(resolve_named_provider(&empty).is_none());
}

#[test]
fn model_health_file_sits_in_the_project() {
    assert_eq!(model_health_path("/w"), "/w/.sacode/model-health.json");
    assert_eq!(model_health_path("/w/"), "/w/.sacode/model-health.json");
}

#[test]
fn fallback_models_are_listed_for_known_providers() {
    assert!(fallback_models("unknown-provider").is_empty());
    assert_eq!(fallback_models("openai"), vec!["gpt-5.4".to_string(), "gpt-5.5".to_string()]);
    assert_eq!(fallback_models("ollama"), vec!["glm-4.7-flash".to_string()]);
}

#[test]
fn session_models_come_first_under_the_gateway_name() {
    let session = Some((vec!["a".to_string(), "b".to_string()], "b".to_string()));
    let entries = product_model_entries(&session, &None, &None, &Vec::new());
    assert_eq!(
        entries,
        vec![("sa-ai".to_string(), "b".to_string()), ("sa-ai".to_string(), "a".to_string())]
    );
}

#[test]
fn product_provider_is_used_without_session_models() {
    let session = Some((Vec::new(), "  ".to_string()));
    let product = Some(NamedProviderConfig { name: "p".to_string(), config: config("u", "k", "m1") });
    let entries = product_model_entries(&session, &Some("gw".to_string()), &product, &Vec::new());
    assert_eq!(entries, vec![("p".to_string(), "m1".to_string())]);
    assert_eq!(identity_default_model(&session), None);
    let s2 = Some((Vec::new(), "d".to_string()));
    assert_eq!(identity_default_model(&s2), Some("d".to_string()));
}

#[test]
fn configured_model_references() {
    let store = SaCodeConfigStore::new("/w", Some("/home/u"));
    let resolved = Some(("deepseek".to_string(), "chat".to_string()));
    assert_eq!(store.current_provider_name(resolved.clone()), Some("deepseek".to_string()));
    assert_eq!(store.current_provider_name(None), None);
    assert_eq!(model_reference("deepseek", "chat"), "deepseek/chat");
    assert_eq!(renamed_reference(&resolved, "deepseek", "ds"), Some("ds/chat".to_string()));
    assert_eq!(renamed_reference(&resolved, "openai", "oa"), None);
    assert!(matches!(rename_names(" a ", "  "), Err(ProviderError::EmptyName)));
    match rename_names(" a ", " b") {
        Ok((f, t)) => assert_eq!((f.as_str(), t.as_str()), ("a", "b")),
        Err(_) => panic!("names are not blank"),
    }
    match removal_refused(&resolved, " deepseek ") {
        Some(e) => assert_eq!(e.message(), "cannot remove current provider: deepseek"),
        None => panic!("the current provider cannot be removed"),
    }
    assert!(removal_refused(&resolved, "openai").is_none());
}

#[test]
fn other_configured_providers_follow_the_gateway_models() {
    let session = Some((vec!["a".to_string(), "b".to_string()], "a".to_string()));
    let providers = vec![
        ("deepseek".to_string(), config("u1", "k1", "deepseek-chat")),
        ("gw".to_string(), config("u2", "k2", "gw-model")),
        ("openai".to_string(), config("u3", "k3", "gpt-5.4")),
    ];
    let entries = product_model_entries(&session, &Some("gw".to_string()), &None, &providers);
    let pair = |p: &str, m: &str| (p.to_string(), m.to_string());
    assert_eq!(
        entries,
        vec![pair("gw", "a"), pair("gw", "b"), pair("deepseek", "deepseek-chat"), pair("openai", "gpt-5.4")]
    );
    let product = Some(NamedProviderConfig { name: "openai".to_string(), config: config("u3", "k3", "gpt-5.4") });
    let entries = product_model_entries(&None, &None, &product, &providers);
    assert_eq!(
        entries,
        vec![pair("openai", "gpt-5.4"), pair("deepseek", "deepseek-chat"), pair("gw", "gw-model")]
    );
}

#[test]
fn configured_provider_names_are_listed_sorted() {
    let store = SaCodeConfigStore::new("/w", Some("/home/u"));
    let names = vec!["openai".to_string(), "deepseek".to_string(), "ollama".to_string()];
    assert_eq!(
        store.list_names(&names),
        vec!["deepseek".to_string(), "ollama".to_string(), "openai".to_string()]
    );
    assert!(store.list_names(&Vec::new()).is_empty());
}

#[test]
fn profile_names_in_order_are_checked() {
    let mut config = default_profile_config();
    assert!(config.names_in_order());
    config.profiles.swap(0, 2);
    assert!(!config.names_in_order());
    let first = config.profiles.remove(0);
    config.profiles.push(first);
    config.profiles.truncate(1);
    assert!(config.names_in_order());
}

#[test]
fn connect_options_leave_out_ollama() {
    let presets = vec![
        ("deepseek".to_string(), "https://api.deepseek.com".to_string()),
        ("ollama".to_string(), "http://localhost:11434".to_string()),
        ("openai".to_string(), "https://api.openai.com/v1".to_string()),
    ];
    assert_eq!(
        preset_connect_options(&presets),
        vec![
            ("deepseek".to_string(), "https://api.deepseek.com".to_string(), true),
            ("openai".to_string(), "https://api.openai.com/v1".to_string(), true),
        ]
    );
}
