use shirl::agents::AgentKind;
use shirl::auth::AuthStore;
use shirl::catalog::{
    after_fetch, fresh_cache, known_base_url, protocol_from_npm, Catalog, CatalogModel,
    CatalogProvider, Protocol, ReasoningOption, CACHE_TTL_NANOS, CATALOG_SCHEMA_VERSION,
};
use shirl::config::{CustomProviderEntry, ModelExtension, ReasoningPref, SamplingPref, ShirlConfig};
use shirl::factory::{
    anthropic_reasoning, anthropic_uses_adaptive_thinking, anthropic_version,
    apply_context_window, build_embedder, build_model, can_disable_reasoning, plan_reasoning,
    ReasoningConfig, ReasoningSettings, DEFAULT_THINKING_BUDGET,
};
use shirl::model::{
    build_web_search_backend, custom_reasoning_settings, load_agent_model, lookup_context_window,
    lookup_context_window_from_extensions, lookup_max_output_tokens, lookup_protocol,
    lookup_reasoning_options, parse_protocol, reasoning_capability_summary, resolve_provider_params,
    resolve_reasoning, resolve_web_search, sampling_from_pref, ModelStore, WebSearchKind,
};
use shirl::raw;
use shirl::text_map::TextMap;

fn text(v: &serde_json::Value, key: &str) -> Option<String> {
    v.get(key).and_then(|x| x.as_str()).map(|s| s.to_string())
}

fn list(v: Option<&serde_json::Value>) -> Vec<String> {
    v.and_then(|x| x.as_array())
        .map(|a| a.iter().map(|s| s.as_str().unwrap().to_string()).collect())
        .unwrap_or_default()
}

fn small(v: &serde_json::Value, key: &str) -> Option<u32> {
    v.get(key).and_then(|x| x.as_u64()).map(|n| n as u32)
}

fn option(v: &serde_json::Value) -> raw::ReasoningOption {
    match text(v, "type").as_deref() {
        Some("toggle") => raw::ReasoningOption::Toggle,
        Some("effort") => raw::ReasoningOption::Effort { values: list(v.get("values")) },
        Some("budget_tokens") => {
            raw::ReasoningOption::BudgetTokens { min: small(v, "min"), max: small(v, "max") }
        }
        _ => raw::ReasoningOption::Unknown,
    }
}

fn model(v: &serde_json::Value) -> raw::Model {
    raw::Model {
        id: text(v, "id").unwrap(),
        name: text(v, "name").unwrap_or_default(),
        limit: v.get("limit").map(|l| raw::Limit {
            context: l.get("context").and_then(|x| x.as_u64()),
            output: l.get("output").and_then(|x| x.as_u64()),
        }),
        tool_call: v.get("tool_call").and_then(|x| x.as_bool()),
        reasoning: v.get("reasoning").and_then(|x| x.as_bool()).unwrap_or(false),
        modalities: v.get("modalities").map(|m| raw::Modalities { input: list(m.get("input")) }),
        reasoning_options: v
            .get("reasoning_options")
            .and_then(|x| x.as_array())
            .map(|a| a.iter().map(option).collect())
            .unwrap_or_default(),
    }
}

/// The providers of a published catalog.
fn providers(json: &str) -> Vec<CatalogProvider> {
    let all: serde_json::Value = serde_json::from_str(json).unwrap();
    let published = all
        .as_object()
        .unwrap()
        .values()
        .map(|p| raw::Provider {
            id: text(p, "id").unwrap(),
            name: text(p, "name").unwrap(),
            npm: text(p, "npm").unwrap(),
            api: text(p, "api"),
            env: list(p.get("env")),
            models: p
                .get("models")
                .and_then(|m| m.as_object())
                .map(|m| m.values().map(model).collect())
                .unwrap_or_default(),
        })
        .collect();
    raw::ModelsDev(published).into_providers()
}

#[test]
fn protocol_from_npm_known_values() {
    assert_eq!(protocol_from_npm("@ai-sdk/openai"), Some(Protocol::OpenAI));
    assert_eq!(protocol_from_npm("@ai-sdk/openai-compatible"), Some(Protocol::OpenAI));
    assert_eq!(protocol_from_npm("@ai-sdk/anthropic"), Some(Protocol::Anthropic));
    assert_eq!(protocol_from_npm("@ai-sdk/google"), Some(Protocol::Gemini));
    assert_eq!(protocol_from_npm("@openrouter/ai-sdk-provider"), Some(Protocol::OpenAI));
    assert_eq!(protocol_from_npm("@ai-sdk/cerebras"), Some(Protocol::Cerebras));
    assert_eq!(protocol_from_npm("@ai-sdk/groq"), Some(Protocol::OpenAI));
}

#[test]
fn protocol_from_npm_skips_unknown() {
    assert_eq!(protocol_from_npm("@ai-sdk/amazon-bedrock"), None);
    assert_eq!(protocol_from_npm("@jerome/benoit/sap-ai-provider-v2"), None);
}

#[test]
fn every_listed_package_is_known() {
    for npm in [
        "@ai-sdk/deepinfra",
        "@ai-sdk/mistral",
        "@ai-sdk/xai",
        "@ai-sdk/perplexity",
        "@ai-sdk/togetherai",
        "@ai-sdk/cohere",
        "@ai-sdk/azure",
        "@ai-sdk/gateway",
        "@ai-sdk/vercel",
        "@aiihubmix/ai-sdk-provider",
        "ai-gateway-provider",
        "venice-ai-sdk-provider",
        "gitlab-ai-provider",
    ] {
        assert_eq!(protocol_from_npm(npm), Some(Protocol::OpenAI), "{npm}");
    }
    assert_eq!(
        protocol_from_npm("@ai-sdk/google-vertex/anthropic"),
        Some(Protocol::Anthropic)
    );
    assert_eq!(protocol_from_npm("@ai-sdk/google-vertex"), Some(Protocol::Gemini));
}

#[test]
fn known_addresses() {
    for (id, url) in [
        ("anthropic", "https://api.anthropic.com/v1"),
        ("openai", "https://api.openai.com/v1"),
        ("cerebras", "https://api.cerebras.ai/v1"),
        ("groq", "https://api.groq.com/openai/v1"),
        ("deepinfra", "https://api.deepinfra.com/v1/openai"),
        ("mistral", "https://api.mistral.ai/v1"),
        ("xai", "https://api.x.ai/v1"),
        ("perplexity", "https://api.perplexity.ai"),
        ("togetherai", "https://api.together.xyz/v1"),
        ("cohere", "https://api.cohere.com/v2"),
        ("venice", "https://api.venice.ai/api/v1"),
        ("google", "https://generativelanguage.googleapis.com"),
    ] {
        assert_eq!(known_base_url(id), Some(url));
    }
    for id in ["azure", "vercel", "v0", "aihubmix", "gitlab", "google-vertex", "other"] {
        assert_eq!(known_base_url(id), None);
    }
}

#[test]
fn parse_minimal_models_dev_json() {
    let providers = providers(
        r#"{
        "test-provider": {
            "id": "test-provider",
            "name": "Test Provider",
            "npm": "@ai-sdk/openai-compatible",
            "api": "https://api.test.example/v1",
            "env": ["TEST_API_KEY"],
            "models": {
                "model-a": {
                    "id": "model-a",
                    "name": "Model A",
                    "tool_call": true,
                    "limit": { "context": 128000 }
                },
                "model-b-no-tools": {
                    "id": "model-b-no-tools",
                    "name": "Model B (no tools)",
                    "tool_call": false
                },
                "model-c": {
                    "id": "model-c",
                    "name": "Model C",
                    "tool_call": true
                }
            }
        }
    }"#,
    );
    assert_eq!(providers.len(), 1);
    let p = &providers[0];
    assert_eq!(p.id, "test-provider");
    assert_eq!(p.name, "Test Provider");
    assert_eq!(p.base_url, "https://api.test.example/v1");
    assert_eq!(p.protocol, Protocol::OpenAI);
    assert_eq!(p.env, vec!["TEST_API_KEY"]);
    assert_eq!(p.models.len(), 2);
    let ids: Vec<&str> = p.models.iter().map(|m| m.id.as_str()).collect();
    assert!(ids.contains(&"model-a"));
    assert!(ids.contains(&"model-c"));
    let model_a = p.models.iter().find(|m| m.id == "model-a").unwrap();
    assert_eq!(model_a.context_window, Some(128000));
    assert!(!model_a.reasoning);
    let model_c = p.models.iter().find(|m| m.id == "model-c").unwrap();
    assert!(!model_c.reasoning);
}

#[test]
fn models_are_sorted_by_id() {
    let one = |id: &str| raw::Model {
        id: id.to_string(),
        name: String::new(),
        limit: None,
        tool_call: Some(true),
        reasoning: false,
        modalities: None,
        reasoning_options: vec![],
    };
    let provider = |id: &str, models: Vec<raw::Model>| raw::Provider {
        id: id.to_string(),
        name: "P".to_string(),
        npm: "@ai-sdk/openai-compatible".to_string(),
        api: Some("https://api.test.example/v1".to_string()),
        env: vec![],
        models,
    };
    let providers = raw::ModelsDev(vec![
        provider("q", vec![one("m")]),
        provider("p", vec![one("gamma"), one("alpha"), one("beta")]),
    ])
    .into_providers();
    let ids: Vec<&str> = providers.iter().map(|p| p.id.as_str()).collect();
    assert_eq!(ids, vec!["p", "q"]);
    let ids: Vec<&str> = providers[0].models.iter().map(|m| m.id.as_str()).collect();
    assert_eq!(ids, vec!["alpha", "beta", "gamma"]);
    assert_eq!(providers[0].models[0].name, "alpha");
}

#[test]
fn provider_without_tool_call_models_is_excluded() {
    let providers = providers(
        r#"{
        "embed-only": {
            "id": "embed-only",
            "name": "Embed Only",
            "npm": "@ai-sdk/openai-compatible",
            "api": "https://api.test.example/v1",
            "env": [],
            "models": {
                "emb": { "id": "emb", "name": "Embedding Model", "tool_call": false }
            }
        }
    }"#,
    );
    assert!(providers.is_empty());
}

#[test]
fn unsupported_npm_is_excluded() {
    let providers = providers(
        r#"{
        "bedrock": {
            "id": "bedrock",
            "name": "Bedrock",
            "npm": "@ai-sdk/amazon-bedrock",
            "api": "https://bedrock.example.com/v1",
            "env": [],
            "models": { "m": { "id": "m", "name": "M", "tool_call": true } }
        }
    }"#,
    );
    assert!(providers.is_empty());
}

#[test]
fn provider_without_api_field_is_excluded() {
    let providers = providers(
        r#"{
        "no-url": {
            "id": "no-url",
            "name": "No URL",
            "npm": "@ai-sdk/openai-compatible",
            "env": [],
            "models": { "m": { "id": "m", "name": "M", "tool_call": true } }
        }
    }"#,
    );
    assert!(providers.is_empty());
}

fn openai_provider(models: Vec<CatalogModel>) -> CatalogProvider {
    CatalogProvider {
        id: "openai".to_string(),
        name: "OpenAI".to_string(),
        base_url: "https://api.openai.com/v1".to_string(),
        protocol: Protocol::OpenAI,
        env: vec!["OPENAI_API_KEY".to_string()],
        models,
    }
}

fn catalog_of(providers: Vec<CatalogProvider>) -> Catalog {
    Catalog { providers, fetched_at: 0, schema_version: CATALOG_SCHEMA_VERSION }
}

#[test]
fn catalog_get_provider_finds_by_id() {
    let catalog = catalog_of(vec![openai_provider(vec![])]);
    assert!(catalog.get_provider("openai").is_some());
    assert!(catalog.get_provider("anthropic").is_none());
}

#[test]
fn model_without_tool_call_field_is_included() {
    let providers = providers(
        r#"{
        "unknown-tools": {
            "id": "unknown-tools",
            "name": "Unknown Tools",
            "npm": "@ai-sdk/openai-compatible",
            "api": "https://api.test.example/v1",
            "env": [],
            "models": { "m": { "id": "m", "name": "M" } }
        }
    }"#,
    );
    assert_eq!(providers.len(), 1);
    assert_eq!(providers[0].models.len(), 1);
    assert_eq!(providers[0].models[0].id, "m");
    assert!(!providers[0].models[0].reasoning);
}

#[test]
fn reasoning_field_is_parsed() {
    let providers = providers(
        r#"{
        "reasoning-provider": {
            "id": "reasoning-provider",
            "name": "Reasoning Provider",
            "npm": "@ai-sdk/openai-compatible",
            "api": "https://api.test.example/v1",
            "env": [],
            "models": {
                "thinker": { "id": "thinker", "name": "Thinker", "tool_call": true, "reasoning": true },
                "basic": { "id": "basic", "name": "Basic", "tool_call": true, "reasoning": false },
                "defaulted": { "id": "defaulted", "name": "Defaulted", "tool_call": true }
            }
        }
    }"#,
    );
    assert_eq!(providers.len(), 1);
    let by_id = |id: &str| providers[0].models.iter().find(|m| m.id == id).unwrap();
    assert!(by_id("thinker").reasoning);
    assert!(!by_id("basic").reasoning);
    assert!(!by_id("defaulted").reasoning);
}

#[test]
fn known_base_url_fallback() {
    let providers = providers(
        r#"{
        "cerebras": {
            "id": "cerebras",
            "name": "Cerebras",
            "npm": "@ai-sdk/cerebras",
            "env": ["CEREBRAS_API_KEY"],
            "models": {
                "llama3.1-8b": { "id": "llama3.1-8b", "name": "Llama 3.1 8B", "tool_call": true }
            }
        }
    }"#,
    );
    assert_eq!(providers.len(), 1);
    assert_eq!(providers[0].base_url, "https://api.cerebras.ai/v1");
}

#[test]
fn anthropic_parsed_without_api_field() {
    let providers = providers(
        r#"{
        "anthropic": {
            "id": "anthropic",
            "name": "Anthropic",
            "npm": "@ai-sdk/anthropic",
            "env": ["ANTHROPIC_API_KEY"],
            "models": {
                "anthropic-sonnet-4-20250514": { "id": "anthropic-sonnet-4-20250514", "name": "Sonnet 4" }
            }
        }
    }"#,
    );
    assert_eq!(providers.len(), 1);
    assert_eq!(providers[0].id, "anthropic");
    assert_eq!(providers[0].protocol, Protocol::Anthropic);
    assert_eq!(providers[0].base_url, "https://api.anthropic.com/v1");
    assert_eq!(providers[0].env, vec!["ANTHROPIC_API_KEY"]);
    assert_eq!(providers[0].models.len(), 1);
}

#[test]
fn reasoning_options_parsed_for_each_dialect() {
    let providers = providers(
        r#"{
        "p": {
            "id": "p",
            "name": "P",
            "npm": "@ai-sdk/openai-compatible",
            "api": "https://api.test.example/v1",
            "env": [],
            "models": {
                "toggler": {
                    "id": "toggler", "tool_call": true, "reasoning": true,
                    "reasoning_options": [{"type": "toggle"}]
                },
                "efforter": {
                    "id": "efforter", "tool_call": true, "reasoning": true,
                    "reasoning_options": [{"type": "effort", "values": ["low", "high"]}]
                },
                "budgeter": {
                    "id": "budgeter", "tool_call": true, "reasoning": true,
                    "reasoning_options": [{"type": "budget_tokens", "min": 1024, "max": 32000}]
                },
                "futurist": {
                    "id": "futurist", "tool_call": true, "reasoning": true,
                    "reasoning_options": [{"type": "toggle"}, {"type": "some_new_type"}]
                },
                "plain": {
                    "id": "plain", "tool_call": true, "reasoning": false
                }
            }
        }
    }"#,
    );
    let by_id = |id: &str| {
        &providers[0].models.iter().find(|m| m.id == id).unwrap().reasoning_options
    };
    assert_eq!(by_id("toggler"), &vec![ReasoningOption::Toggle]);
    assert_eq!(
        by_id("efforter"),
        &vec![ReasoningOption::Effort { values: vec!["low".to_string(), "high".to_string()] }]
    );
    assert_eq!(
        by_id("budgeter"),
        &vec![ReasoningOption::BudgetTokens { min: Some(1024), max: Some(32000) }]
    );
    assert_eq!(by_id("futurist"), &vec![ReasoningOption::Toggle]);
    assert!(by_id("plain").is_empty());
}

#[test]
fn reasoning_option_labels() {
    let toggle = ReasoningOption::Toggle;
    let effort =
        ReasoningOption::Effort { values: vec!["low".to_string(), "high".to_string()] };
    let bounded = ReasoningOption::BudgetTokens { min: Some(1024), max: Some(32000) };
    let floor = ReasoningOption::BudgetTokens { min: Some(1024), max: None };
    let unbounded = ReasoningOption::BudgetTokens { min: None, max: None };
    assert_eq!(toggle.kind_label(), "on/off");
    assert_eq!(effort.kind_label(), "effort");
    assert_eq!(bounded.kind_label(), "budget");
    assert_eq!(toggle.capability_label(), "on/off");
    assert_eq!(effort.capability_label(), "effort[low/high]");
    assert_eq!(bounded.capability_label(), "budget[1024..32000]");
    assert_eq!(floor.capability_label(), "budget[>=1024]");
    assert_eq!(unbounded.capability_label(), "budget[any]");
    let ceiling = ReasoningOption::BudgetTokens { min: None, max: Some(9) };
    assert_eq!(ceiling.capability_label(), "budget[<=9]");
}

#[test]
fn vision_parsed_from_modalities() {
    let providers = providers(
        r#"{
        "vision-provider": {
            "id": "vision-provider",
            "name": "Vision Provider",
            "npm": "@ai-sdk/openai-compatible",
            "api": "https://api.test.example/v1",
            "env": [],
            "models": {
                "see": {
                    "id": "see", "name": "See", "tool_call": true,
                    "modalities": { "input": ["text", "image"] }
                },
                "blind": {
                    "id": "blind", "name": "Blind", "tool_call": true,
                    "modalities": { "input": ["text"] }
                },
                "no-mod": { "id": "no-mod", "name": "No Mod", "tool_call": true }
            }
        }
    }"#,
    );
    assert_eq!(providers.len(), 1);
    let by_id = |id: &str| providers[0].models.iter().find(|m| m.id == id).unwrap();
    assert!(by_id("see").vision);
    assert!(!by_id("blind").vision);
    assert!(!by_id("no-mod").vision);
}

#[test]
fn catalogs_are_fresh_for_a_day() {
    let at = |t: u128| Catalog { fetched_at: t, ..Catalog::default() };
    assert!(at(5).is_fresh(5 + CACHE_TTL_NANOS - 1));
    assert!(!at(5).is_fresh(5 + CACHE_TTL_NANOS));
    assert!(!at(5).is_fresh(4));
    let old = Catalog { schema_version: 0, ..at(5) };
    assert_ne!(old.schema_version, CATALOG_SCHEMA_VERSION);
    assert!(fresh_cache(Some(old), 6).is_none());
    assert!(fresh_cache(None, 6).is_none());
    assert_eq!(fresh_cache(Some(at(5)), 6), Some(at(5)));
}

#[test]
fn a_stale_catalog_is_better_than_none() {
    let stale = Catalog { schema_version: 0, ..Catalog::default() };
    let fresh = Catalog { fetched_at: 9, ..Catalog::default() };
    assert_eq!(after_fetch::<String>(Ok(fresh), None).unwrap().fetched_at, 9);
    assert_eq!(after_fetch(Err("offline"), Some(stale)).unwrap().schema_version, 0);
    assert_eq!(after_fetch(Err("offline"), None), Err("offline"));
}

#[test]
fn connected_providers_are_picked_in_order() {
    let mut other = openai_provider(vec![]);
    other.id = "groq".to_string();
    let catalog = catalog_of(vec![openai_provider(vec![]), other]);
    assert_eq!(catalog.provider_ids(), vec!["openai", "groq"]);
    let picked = catalog.providers_with_auth(|id| id == "groq");
    assert_eq!(picked.len(), 1);
    assert_eq!(picked[0].id, "groq");
    assert_eq!(catalog.providers_with_auth(|_| true).len(), 2);
    assert!(catalog.providers_with_auth(|_| false).is_empty());
    assert_eq!(Protocol::Gemini.to_text(), "gemini");
    assert_eq!(Protocol::Anthropic.to_text(), "anthropic");
}

// Reasoning ------------------------------------------------------------------

#[test]
fn apply_context_window_wraps_when_positive() {
    assert_eq!(apply_context_window(Some(200_000)), Some(200_000));
}

#[test]
fn apply_context_window_passes_through_none_and_zero() {
    assert_eq!(apply_context_window(None), None);
    assert_eq!(apply_context_window(Some(0)), None);
}

fn effort_option(values: &[&str]) -> ReasoningOption {
    ReasoningOption::Effort { values: values.iter().map(|s| s.to_string()).collect() }
}

fn effort_settings(values: &[&str]) -> ReasoningSettings {
    ReasoningSettings {
        enabled: true,
        options: vec![effort_option(values)],
        ..Default::default()
    }
}

#[test]
fn build_model_handles_cerebras_reasoning() {
    let plan = build_model(
        Protocol::Cerebras,
        "zai-glm-4.7",
        "https://api.cerebras.ai/v1",
        Some(131_072),
        Some(40_960),
        &effort_settings(&["none"]),
    );
    assert_eq!(plan.context_window, Some(131_072));
    assert_eq!(plan.reasoning, None);
    assert_eq!(plan.max_tokens, None);
}

#[test]
fn build_model_constructs_each_protocol() {
    for protocol in
        [Protocol::OpenAI, Protocol::Cerebras, Protocol::Anthropic, Protocol::Gemini]
    {
        let plan = build_model(
            protocol,
            "test-model",
            "https://example.test/v1",
            Some(123_000),
            Some(8_192),
            &ReasoningSettings::default(),
        );
        assert_eq!(plan.context_window, Some(123_000));
        assert_eq!(plan.protocol, protocol);
        assert_eq!(plan.model_id, "test-model");
        assert_eq!(plan.base_url.as_deref(), Some("https://example.test/v1"));
        let capped = matches!(protocol, Protocol::Anthropic | Protocol::Gemini);
        assert_eq!(plan.max_tokens, if capped { Some(8_192) } else { None });
    }
    let plan =
        build_model(Protocol::Gemini, "m", "", None, Some(0), &ReasoningSettings::default());
    assert_eq!(plan.base_url, None);
    assert_eq!(plan.max_tokens, None);
}

fn toggle_settings(enabled: bool) -> ReasoningSettings {
    ReasoningSettings { enabled, options: vec![ReasoningOption::Toggle], ..Default::default() }
}

#[test]
fn plan_toggle_dialect_enables_and_disables() {
    assert_eq!(
        plan_reasoning(Protocol::OpenAI, &toggle_settings(true)),
        Some(ReasoningConfig::Toggle(true))
    );
    assert_eq!(
        plan_reasoning(Protocol::OpenAI, &toggle_settings(false)),
        Some(ReasoningConfig::Toggle(false))
    );
}

#[test]
fn can_disable_reasoning_by_protocol_and_dialect() {
    assert!(can_disable_reasoning(Protocol::Anthropic, &vec![]));
    assert!(can_disable_reasoning(Protocol::Gemini, &vec![effort_option(&["low", "high"])]));
    assert!(can_disable_reasoning(Protocol::OpenAI, &vec![ReasoningOption::Toggle]));
    assert!(can_disable_reasoning(
        Protocol::Cerebras,
        &vec![effort_option(&["none", "low", "high"])]
    ));
    assert!(!can_disable_reasoning(Protocol::OpenAI, &vec![effort_option(&["low", "high"])]));
    assert!(!can_disable_reasoning(Protocol::Cerebras, &vec![]));
}

#[test]
fn plan_effort_dialect_reasons_by_default_on_openai() {
    assert_eq!(
        plan_reasoning(Protocol::OpenAI, &effort_settings(&["low", "medium", "high"])),
        None
    );
}

#[test]
fn plan_empty_options_sends_nothing_on_openai() {
    let settings = ReasoningSettings { enabled: true, ..Default::default() };
    assert_eq!(plan_reasoning(Protocol::OpenAI, &settings), None);
}

#[test]
fn plan_effort_none_disables_when_supported() {
    let settings = ReasoningSettings { enabled: false, ..effort_settings(&["none"]) };
    assert_eq!(
        plan_reasoning(Protocol::Cerebras, &settings),
        Some(ReasoningConfig::Effort("none".to_string()))
    );
}

#[test]
fn plan_user_effort_override_wins() {
    let settings = ReasoningSettings {
        effort: Some("high".to_string()),
        ..effort_settings(&["low", "medium", "high"])
    };
    assert_eq!(
        plan_reasoning(Protocol::Cerebras, &settings),
        Some(ReasoningConfig::Effort("high".to_string()))
    );
}

#[test]
fn plan_budget_dialect_is_provider_aware() {
    let settings = ReasoningSettings {
        enabled: true,
        options: vec![ReasoningOption::BudgetTokens { min: Some(1024), max: None }],
        ..Default::default()
    };
    assert_eq!(
        plan_reasoning(Protocol::Anthropic, &settings),
        Some(ReasoningConfig::Budget(1024))
    );
    assert_eq!(
        plan_reasoning(Protocol::Gemini, &settings),
        Some(ReasoningConfig::Toggle(true))
    );
}

#[test]
fn plan_anthropic_effort_dialect_enables_explicitly() {
    assert_eq!(
        plan_reasoning(Protocol::Anthropic, &effort_settings(&["low", "medium", "high"])),
        Some(ReasoningConfig::Toggle(true))
    );
}

#[test]
fn overrides_that_do_not_fit_are_ignored() {
    let settings = ReasoningSettings {
        effort: Some("high".to_string()),
        budget_tokens: Some(5),
        ..toggle_settings(true)
    };
    assert_eq!(
        plan_reasoning(Protocol::OpenAI, &settings),
        Some(ReasoningConfig::Toggle(true))
    );
    let settings = ReasoningSettings {
        options: vec![ReasoningOption::BudgetTokens { min: None, max: None }],
        budget_tokens: Some(5),
        ..Default::default()
    };
    assert_eq!(plan_reasoning(Protocol::OpenAI, &settings), Some(ReasoningConfig::Budget(5)));
    let settings = ReasoningSettings {
        enabled: true,
        options: vec![ReasoningOption::BudgetTokens { min: None, max: None }],
        ..Default::default()
    };
    assert_eq!(
        plan_reasoning(Protocol::OpenAI, &settings),
        Some(ReasoningConfig::Budget(DEFAULT_THINKING_BUDGET))
    );
}

#[test]
fn anthropic_adaptive_models_recognized() {
    for m in ["anthropic-opus-4-6", "anthropic-opus-4-8", "anthropic-sonnet-4-6", "anthropic-fable-5", "anthropic-opus-5-0"] {
        assert!(anthropic_uses_adaptive_thinking(m), "{m} should be adaptive");
    }
    assert!(anthropic_uses_adaptive_thinking("anthropic-mythos-1"));
    assert!(anthropic_uses_adaptive_thinking("unknown"));
}

#[test]
fn anthropic_budget_models_recognized() {
    for m in [
        "anthropic-3-7-sonnet-20250219",
        "anthropic-sonnet-4-20250514",
        "anthropic-sonnet-4-5",
        "anthropic-opus-4-0",
        "anthropic-opus-4-1-20250805",
        "anthropic-opus-4-5-20251101",
        "anthropic-haiku-4-5",
    ] {
        assert!(!anthropic_uses_adaptive_thinking(m), "{m} should be budget");
    }
}

#[test]
fn versions_are_read_from_ids() {
    assert_eq!(anthropic_version("anthropic-opus-4-8"), Some((4, 8)));
    assert_eq!(anthropic_version("anthropic-sonnet-4-20250514"), Some((4, 0)));
    assert_eq!(anthropic_version("anthropic-3-7-sonnet"), Some((3, 7)));
    assert_eq!(anthropic_version("anthropic-sonnet-4@20250514"), None);
    assert_eq!(anthropic_version("anthropic-opus-+4-x"), Some((4, 0)));
    assert_eq!(anthropic_version("anthropic-opus-4294967296-2"), Some((2, 0)));
    assert_eq!(anthropic_version("opus-4-8"), Some((4, 8)));
    assert_eq!(anthropic_version(""), None);
}

#[test]
fn anthropic_reasoning_translates_toggle_for_budget_models() {
    assert_eq!(
        anthropic_reasoning(Some(ReasoningConfig::Toggle(true)), "anthropic-sonnet-4-5"),
        Some(ReasoningConfig::Budget(DEFAULT_THINKING_BUDGET))
    );
    assert_eq!(
        anthropic_reasoning(Some(ReasoningConfig::Toggle(true)), "anthropic-opus-4-8"),
        Some(ReasoningConfig::Toggle(true))
    );
    assert_eq!(
        anthropic_reasoning(Some(ReasoningConfig::Toggle(false)), "anthropic-sonnet-4-5"),
        Some(ReasoningConfig::Toggle(false))
    );
    assert_eq!(anthropic_reasoning(None, "anthropic-sonnet-4-5"), None);
}

#[test]
fn build_embedder_supports_openai_and_gemini() {
    for protocol in [Protocol::OpenAI, Protocol::Gemini] {
        let plan = match build_embedder(protocol, "embed-model", "https://example.test/v1") {
            Ok(p) => p,
            Err(e) => panic!("embedder builds: {e}"),
        };
        assert_eq!(plan.protocol, protocol);
        assert_eq!(plan.model_id, "embed-model");
    }
}

#[test]
fn build_embedder_rejects_anthropic() {
    let err = match build_embedder(Protocol::Anthropic, "x", "") {
        Ok(_) => panic!("anthropic has no embeddings API"),
        Err(e) => e,
    };
    assert!(err.contains("anthropic"), "unexpected error: {err}");
    assert!(build_embedder(Protocol::Cerebras, "x", "").err().unwrap().contains("cerebras"));
}

// Models ---------------------------------------------------------------------

fn gpt(reasoning: bool, options: Vec<ReasoningOption>) -> CatalogModel {
    CatalogModel {
        id: "gpt-4o".to_string(),
        name: "GPT-4o".to_string(),
        context_window: Some(128000),
        max_output_tokens: Some(16384),
        reasoning,
        vision: true,
        reasoning_options: options,
    }
}

fn with_gpt() -> Catalog {
    catalog_of(vec![openai_provider(vec![gpt(true, vec![effort_option(&["low", "high"])])])])
}

#[test]
fn protocols_are_parsed_by_name() {
    for p in [Protocol::OpenAI, Protocol::Cerebras, Protocol::Anthropic, Protocol::Gemini] {
        assert_eq!(parse_protocol(p.to_text()), Ok(p));
    }
    assert_eq!(parse_protocol("soap"), Err("unknown protocol: soap".to_string()));
}

#[test]
fn the_users_context_window_goes_first() {
    let catalog = with_gpt();
    let mut config = ShirlConfig::default();
    assert_eq!(lookup_context_window(&catalog, &config, "openai", "gpt-4o"), Some(128000));
    assert_eq!(lookup_context_window_from_extensions(&config, "openai", "gpt-4o"), None);
    let mut models = TextMap::new();
    models.insert(
        "gpt-4o".to_string(),
        ModelExtension { display_name: None, context_window: Some(5) },
    );
    config.models.insert("openai".to_string(), models);
    assert_eq!(lookup_context_window(&catalog, &config, "openai", "gpt-4o"), Some(5));
    assert_eq!(lookup_max_output_tokens(&catalog, "openai", "gpt-4o"), Some(16384));
    assert_eq!(lookup_max_output_tokens(&catalog, "openai", "other"), None);
    assert_eq!(lookup_protocol(&catalog, &config, "openai"), Some(Protocol::OpenAI));
    assert_eq!(lookup_protocol(&catalog, &config, "none"), None);
}

#[test]
fn capabilities_are_summed_up() {
    assert_eq!(reasoning_capability_summary(&vec![]), "on/off");
    assert_eq!(
        reasoning_capability_summary(&vec![
            ReasoningOption::Toggle,
            effort_option(&["low", "high"]),
            ReasoningOption::BudgetTokens { min: Some(1), max: None },
        ]),
        "on/off, effort[low/high], budget[>=1]"
    );
    assert_eq!(lookup_reasoning_options(&with_gpt(), "openai", "gpt-4o").len(), 1);
    assert!(lookup_reasoning_options(&with_gpt(), "openai", "x").is_empty());
}

#[test]
fn wishes_go_before_the_catalog() {
    let catalog = with_gpt();
    let s = resolve_reasoning(&catalog, "openai", "gpt-4o", None);
    assert!(s.enabled);
    let off = ReasoningPref {
        enabled: Some(false),
        effort: Some("high".to_string()),
        budget_tokens: Some(7),
    };
    let s = resolve_reasoning(&catalog, "openai", "gpt-4o", Some(&off));
    assert!(!s.enabled);
    assert_eq!(s.effort.as_deref(), Some("high"));
    assert_eq!(s.budget_tokens, Some(7));
    assert!(!resolve_reasoning(&catalog, "openai", "unknown", None).enabled);
}

#[test]
fn custom_providers_offer_what_is_used() {
    let s = custom_reasoning_settings(None);
    assert_eq!(s, ReasoningSettings::default());
    let pref = ReasoningPref { enabled: Some(true), effort: None, budget_tokens: None };
    assert_eq!(custom_reasoning_settings(Some(&pref)).options, vec![ReasoningOption::Toggle]);
    let pref = ReasoningPref {
        enabled: Some(true),
        effort: Some("x".to_string()),
        budget_tokens: Some(3),
    };
    let s = custom_reasoning_settings(Some(&pref));
    assert_eq!(
        s.options,
        vec![
            effort_option(&[]),
            ReasoningOption::BudgetTokens { min: None, max: None }
        ]
    );
    assert_eq!(
        plan_reasoning(Protocol::OpenAI, &s),
        Some(ReasoningConfig::Effort("x".to_string()))
    );
}

#[test]
fn params_come_from_the_definition_or_the_catalog() {
    let catalog = with_gpt();
    let mut config = ShirlConfig::default();
    let mut auth = AuthStore::default();
    auth.set("openai", "sk-1");
    let p = resolve_provider_params("openai", &config, &auth, &catalog, "gpt-4o", None, None)
        .ok()
        .unwrap();
    assert_eq!(p.base_url, "https://api.openai.com/v1");
    assert_eq!(p.api_key, "sk-1");
    assert_eq!(p.max_output_tokens, Some(16384));

    let refused = |r: Result<_, String>| r.err().unwrap();
    assert_eq!(
        refused(
            resolve_provider_params("nope", &config, &auth, &catalog, "m", None, None).map(|_| ())
        ),
        "unknown provider: nope"
    );
    config.providers.insert(
        "mine".to_string(),
        CustomProviderEntry {
            base_url: "http://localhost:11434".to_string(),
            protocol: "openai".to_string(),
            display_name: None,
        },
    );
    config.providers.insert(
        "bad".to_string(),
        CustomProviderEntry {
            base_url: "http://x".to_string(),
            protocol: "soap".to_string(),
            display_name: None,
        },
    );
    let p = resolve_provider_params("mine", &config, &auth, &catalog, "llama3", None, None)
        .ok()
        .unwrap();
    assert_eq!(p.api_key, "");
    assert_eq!(p.max_output_tokens, None);
    assert_eq!(
        refused(
            resolve_provider_params("bad", &config, &auth, &catalog, "m", None, None).map(|_| ())
        ),
        "unknown protocol: soap"
    );
    assert_eq!(lookup_protocol(&catalog, &config, "bad"), None);

    let m = load_agent_model(AgentKind::Main, "openai", "gpt-4o", &config, &auth, &catalog)
        .ok()
        .unwrap();
    assert_eq!(m.name, "openai/gpt-4o");
    assert_eq!(m.api_key, "sk-1");
    assert_eq!(m.plan.context_window, Some(128000));
    assert!(load_agent_model(AgentKind::Main, "no", "m", &config, &auth, &catalog).is_err());
}

#[test]
fn sampling_is_passed_on() {
    let mut options = TextMap::new();
    options.insert("logit_bias".to_string(), "{\"50256\":-100}".to_string());
    let pref = SamplingPref {
        temperature: Some(0.5f32.to_bits()),
        top_p: Some(0.25f32.to_bits()),
        stop: vec!["END".to_string()],
        max_tokens: Some(2048),
        options,
        ..SamplingPref::default()
    };
    let s = sampling_from_pref(Some(&pref));
    assert_eq!(s.temperature.map(f32::from_bits), Some(0.5));
    assert_eq!(s.top_p.map(f32::from_bits), Some(0.25));
    assert_eq!(s.stop, vec!["END"]);
    assert_eq!(s.max_tokens, Some(2048));
    assert_eq!(s.extra.get("logit_bias").map(|t| t.as_str()), Some("{\"50256\":-100}"));
    assert!(sampling_from_pref(None).extra.is_empty());
}

#[test]
fn web_search_needs_a_service_and_a_key() {
    let mut config = ShirlConfig::default();
    let mut auth = AuthStore::default();
    assert!(resolve_web_search(AgentKind::Main, &config, &auth).is_none());
    config.default.web_search = Some("brave".to_string());
    assert!(resolve_web_search(AgentKind::Plan, &config, &auth).is_none());
    auth.web_search.insert("brave".to_string(), "key".to_string());
    assert_eq!(
        resolve_web_search(AgentKind::Plan, &config, &auth),
        Some((WebSearchKind::Brave, "key".to_string()))
    );
    assert_eq!(build_web_search_backend("tavily"), Some(WebSearchKind::Tavily));
    assert_eq!(build_web_search_backend("bing"), None);
}

#[test]
fn each_agent_has_its_model() {
    let mut store: ModelStore<u32> = ModelStore::new();
    assert_eq!(store.get(AgentKind::Main), None);
    store.insert(AgentKind::Plan, 7, "a/b".to_string(), Some(0));
    store.insert(AgentKind::Main, 8, "c/d".to_string(), Some(9));
    assert_eq!(store.get(AgentKind::Plan), Some(&7));
    assert_eq!(store.name(AgentKind::Plan), Some("a/b"));
    assert_eq!(store.context_window(AgentKind::Plan), None);
    assert_eq!(store.context_window(AgentKind::Main), Some(9));
    assert_eq!(store.name(AgentKind::Review), None);
}

#[test]
fn catalogs_do_not_depend_on_the_listing() {
    let one = |id: &str| raw::Model {
        id: id.to_string(),
        name: String::new(),
        limit: None,
        tool_call: None,
        reasoning: false,
        modalities: None,
        reasoning_options: vec![],
    };
    let provider = |id: &str, ids: &[&str]| raw::Provider {
        id: id.to_string(),
        name: id.to_uppercase(),
        npm: "@ai-sdk/openai".to_string(),
        api: Some("https://x".to_string()),
        env: vec![],
        models: ids.iter().map(|m| one(m)).collect(),
    };
    let first = raw::ModelsDev(vec![provider("b", &["y", "x"]), provider("a", &["n", "m", "o"])]);
    let second = raw::ModelsDev(vec![provider("a", &["o", "n", "m"]), provider("b", &["x", "y"])]);
    let catalog = first.into_providers();
    assert_eq!(catalog, second.into_providers());
    let ids: Vec<&str> = catalog.iter().map(|p| p.id.as_str()).collect();
    assert_eq!(ids, vec!["a", "b"]);
    let ids: Vec<&str> = catalog[0].models.iter().map(|m| m.id.as_str()).collect();
    assert_eq!(ids, vec!["m", "n", "o"]);
}

#[test]
fn turning_custom_models_on_is_enough() {
    let on = ReasoningPref { enabled: Some(true), effort: None, budget_tokens: None };
    let settings = custom_reasoning_settings(Some(&on));
    for p in [Protocol::OpenAI, Protocol::Cerebras, Protocol::Anthropic, Protocol::Gemini] {
        assert_eq!(plan_reasoning(p, &settings), Some(ReasoningConfig::Toggle(true)));
    }
}
