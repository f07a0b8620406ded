use sacode_cli::product_path::{resolve_gateway_provider, resolve_product_provider, GatewayCandidate};
use sacode_cli::provider_config::{NamedProviderConfig, ProviderConfig};
use sacode_cli::provider_runtime::{fallback_model_name, preset_kind_for_model, usable_candidate, PresetKind};

fn config(base_url: &str, api_key: &str, model: &str) -> ProviderConfig {
    ProviderConfig { base_url: base_url.to_string(), api_key: api_key.to_string(), model: model.to_string() }
}

fn candidate(name: &str, c: ProviderConfig, identity: bool, resolved: &str) -> GatewayCandidate {
    GatewayCandidate { name: name.to_string(), config: c, identity, resolved_key: resolved.to_string() }
}

#[test]
fn resolve_gateway_requires_usable_key() {
    // An unresolvable secret: not usable as the gateway.
    let missing = vec![candidate("sa-ai", config("http://127.0.0.1:8090/v1", "", "chat"), true, "")];
    assert!(resolve_gateway_provider(&missing, &None).is_none());

    let stored = vec![candidate("sa-ai", config("http://127.0.0.1:8090/v1", "sa-test-key", "chat"), true, "")];
    let named = resolve_gateway_provider(&stored, &None).expect("gateway provider");
    assert_eq!(named.name, "sa-ai");
    assert_eq!(named.config.model, "chat");
    assert!(!named.config.api_key.is_empty());
}

#[test]
fn gateway_search_skips_custom_providers_and_fills_defaults() {
    let candidates = vec![
        candidate("openai", config("https://api.openai.com/v1", "k", "gpt"), false, ""),
        candidate("sa-gateway", config("", "k", ""), true, ""),
        candidate("sa-ai", config("http://gw/v1", "", ""), true, "resolved"),
    ];
    let named = resolve_gateway_provider(&candidates, &Some("gw-default".to_string())).unwrap();
    assert_eq!(named.name, "sa-ai");
    assert_eq!(named.config.api_key, "resolved");
    assert_eq!(named.config.model, "gw-default");
    let named = resolve_gateway_provider(&candidates, &None).unwrap();
    assert_eq!(named.config.model, "default");
}

#[test]
fn product_provider_falls_back_in_order() {
    let gw = NamedProviderConfig { name: "sa-ai".to_string(), config: config("u", "k", "m") };
    let auth = NamedProviderConfig { name: "deepseek".to_string(), config: config("u2", "k2", "m2") };
    let r = resolve_product_provider(Some(gw), None, None).unwrap();
    assert_eq!(r.name, "sa-ai");
    let current = candidate("sa-gateway", config("u", "", "m"), true, "secret");
    let auth2 = NamedProviderConfig { name: "deepseek".to_string(), config: config("u2", "k2", "m2") };
    let r = resolve_product_provider(None, Some(current), Some(auth2)).unwrap();
    assert_eq!(r.name, "sa-gateway");
    assert_eq!(r.config.api_key, "secret");
    let not_identity = candidate("mine", config("u", "k", "m"), false, "");
    let r = resolve_product_provider(None, Some(not_identity), Some(auth)).unwrap();
    assert_eq!(r.name, "deepseek");
    assert!(resolve_product_provider(None, None, None).is_none());
}

#[test]
fn fallback_provider_for_a_bare_model_name() {
    assert_eq!(fallback_model_name(None, None), "gpt-5.4");
    assert_eq!(fallback_model_name(None, Some("d".to_string())), "d");
    assert_eq!(fallback_model_name(Some("s".to_string()), Some("d".to_string())), "s");
    assert_eq!(preset_kind_for_model("deepseek-chat"), PresetKind::DeepSeek);
    assert_eq!(preset_kind_for_model("mimo-v2.5"), PresetKind::Mimo);
    assert_eq!(preset_kind_for_model("My-LongCat-Flash"), PresetKind::LongCat);
    assert_eq!(preset_kind_for_model("ollama/llama3"), PresetKind::Ollama);
    assert_eq!(preset_kind_for_model("qwen2.5-coder"), PresetKind::Ollama);
    assert_eq!(preset_kind_for_model("gpt-5.4"), PresetKind::OpenAi);
    assert!(usable_candidate(&NamedProviderConfig { name: "n".to_string(), config: config("u", "k", "m") }));
    assert!(!usable_candidate(&NamedProviderConfig { name: "n".to_string(), config: config("u", "k", "") }));
}
