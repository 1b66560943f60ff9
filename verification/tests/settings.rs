use shirl::auth::AuthStore;
use shirl::config::{
    AgentModelConfig, MemoryConfig, ReasoningPref, SamplingPref, ShirlConfig,
};
use shirl::paths::{
    config_dir_name, config_file_under, config_home, home_join, home_join_in, mcp_config_path,
    mcp_config_path_under, memory_db_path, memory_db_path_under, session_db_path, session_dir,
    session_dir_in, session_dir_under, sessions_root, sessions_root_under, set_config_dir_name,
    with_leading_dot, ConfigDir, PathError, DEFAULT_CONFIG_DIR_NAME,
};

#[test]
fn connected_ids_returns_keys() {
    let mut store = AuthStore::default();
    store.set("alpha", "k1");
    store.set("beta", "k2");
    let mut ids: Vec<String> = store.connected_ids();
    ids.sort();
    assert_eq!(ids, vec!["alpha", "beta"]);
}

#[test]
fn remove_disconnects_provider() {
    let mut store = AuthStore::default();
    store.set("openai", "sk-test");
    assert!(store.contains("openai"));
    store.remove("openai");
    assert!(!store.contains("openai"));
}

#[test]
fn keys_are_kept_apart() {
    let mut store = AuthStore::default();
    store.set("openai", "sk-test-123");
    store.set("anthropic", "sk-ant-456");
    store.web_search.insert("tavily".to_string(), "tvly-789".to_string());
    store.set_mcp_key("github_token", "ghp_abc123");
    assert_eq!(store.get("openai"), Some("sk-test-123"));
    assert_eq!(store.get("anthropic"), Some("sk-ant-456"));
    assert_eq!(store.get("unknown"), None);
    assert_eq!(store.get_web_search_key("tavily"), Some("tvly-789"));
    assert_eq!(store.get_web_search_key("unknown"), None);
    assert_eq!(store.get_mcp_key("github_token"), Some("ghp_abc123"));
    assert_eq!(store.get_mcp_key("nonexistent"), None);
    store.set("openai", "new");
    assert_eq!(store.get("openai"), Some("new"));
    assert_eq!(store.get("anthropic"), Some("sk-ant-456"));
    store.remove("missing");
    assert_eq!(store.connected_ids().len(), 2);
}

#[test]
fn an_empty_store_connects_nobody() {
    assert!(AuthStore::default().connected_ids().is_empty());
    assert!(AuthStore::default().mcp.is_empty());
}

#[test]
fn is_complete_requires_provider_and_model() {
    let mut config = ShirlConfig::default();
    assert!(!config.is_complete());
    config.default.provider = "anthropic".to_string();
    assert!(!config.is_complete());
    config.default.model = "anthropic-sonnet-4-20250514".to_string();
    assert!(config.is_complete());
}

#[test]
fn provider_for_falls_back_to_default() {
    let mut config = ShirlConfig::default();
    config.set_default("openai", "gpt-4o");
    assert_eq!(config.provider_for("plan"), "openai");
    assert_eq!(config.provider_for("review"), "openai");
    config.set_agent_model("plan", "anthropic", "anthropic-sonnet-4-20250514");
    assert_eq!(config.provider_for("plan"), "anthropic");
    assert_eq!(config.provider_for("review"), "openai");
}

#[test]
fn model_for_falls_back_to_default() {
    let mut config = ShirlConfig::default();
    config.set_default("anthropic", "default-model");
    config.set_agent_model("plan", "openai", "plan-model");
    assert_eq!(config.model_for("main"), "default-model");
    assert_eq!(config.model_for("plan"), "plan-model");
}

#[test]
fn web_search_for_agent_overrides_default() {
    let mut config = ShirlConfig::default();
    config.set_default("anthropic", "model");
    config.default.web_search = Some("tavily".to_string());
    assert_eq!(config.web_search_for("main"), Some("tavily"));
    let plan = AgentModelConfig {
        provider: "openai".to_string(),
        model: "gpt-4o".to_string(),
        web_search: Some("brave".to_string()),
        reasoning: None,
        sampling: None,
    };
    config.agents.insert("plan".to_string(), plan);
    assert_eq!(config.web_search_for("plan"), Some("brave"));
    assert_eq!(config.web_search_for("review"), Some("tavily"));
}

#[test]
fn web_search_for_none_when_not_configured() {
    let config = ShirlConfig::default();
    assert_eq!(config.web_search_for("main"), None);
}

#[test]
fn set_default_preserves_web_search() {
    let mut config = ShirlConfig::default();
    config.set_default("anthropic", "model-a");
    config.default.web_search = Some("tavily".to_string());
    config.set_default("openai", "model-b");
    assert_eq!(config.default.provider, "openai");
    assert_eq!(config.default.model, "model-b");
    assert_eq!(config.default.web_search.as_deref(), Some("tavily"));
}

#[test]
fn set_agent_model_preserves_web_search() {
    let mut config = ShirlConfig::default();
    config.set_agent_model("plan", "anthropic", "model-a");
    let mut plan = config.agents.remove("plan").unwrap();
    plan.web_search = Some("brave".to_string());
    config.agents.insert("plan".to_string(), plan);
    config.set_agent_model("plan", "openai", "model-b");
    let plan = config.agents.get("plan").unwrap();
    assert_eq!(plan.provider, "openai");
    assert_eq!(plan.model, "model-b");
    assert_eq!(plan.web_search.as_deref(), Some("brave"));
}

#[test]
fn reasoning_is_set_for_main_as_the_default() {
    let mut config = ShirlConfig::default();
    config.set_default("openai", "gpt-4o");
    config.set_reasoning(
        "main",
        Some(ReasoningPref { enabled: Some(true), effort: None, budget_tokens: None }),
    );
    assert_eq!(config.reasoning_for("main").unwrap().enabled, Some(true));
    assert_eq!(config.reasoning_for("plan").unwrap().enabled, Some(true));
    assert!(config.agents.is_empty());

    config.set_reasoning(
        "plan",
        Some(ReasoningPref { enabled: None, effort: Some("high".to_string()), budget_tokens: None }),
    );
    assert_eq!(config.reasoning_for("plan").unwrap().effort.as_deref(), Some("high"));
    assert_eq!(config.provider_for("plan"), "openai");
    assert_eq!(config.model_for("plan"), "gpt-4o");
    assert_eq!(config.reasoning_for("review").unwrap().enabled, Some(true));

    config.set_reasoning("plan", None);
    assert_eq!(config.reasoning_for("plan").unwrap().enabled, Some(true));
}

#[test]
fn sampling_falls_back_to_default() {
    let mut config = ShirlConfig::default();
    assert!(config.sampling_for("main").is_none());
    config.default.sampling = Some(SamplingPref {
        temperature: Some(0.5f32.to_bits()),
        max_tokens: Some(2048),
        ..SamplingPref::default()
    });
    let s = config.sampling_for("plan").unwrap();
    assert_eq!(s.temperature.map(f32::from_bits), Some(0.5));
    assert_eq!(s.max_tokens, Some(2048));
    assert!(s.stop.is_empty());
}

#[test]
fn memory_is_on_by_default() {
    assert_eq!(
        MemoryConfig::default(),
        MemoryConfig { enabled: true, embedder: None, recall_limit: 5, auto_distill: true }
    );
}

#[test]
fn config_dir_name_defaults_to_shirl() {
    assert_eq!(DEFAULT_CONFIG_DIR_NAME, ".shirl");
    assert_eq!(config_dir_name(&ConfigDir::new()), ".shirl");
}

#[test]
fn with_leading_dot_normalizes_and_is_idempotent() {
    assert_eq!(with_leading_dot("myapp"), ".myapp");
    assert_eq!(with_leading_dot(".myapp"), ".myapp");
    assert_eq!(with_leading_dot(".shirl"), ".shirl");
    assert_eq!(with_leading_dot(""), ".");
}

#[test]
fn the_first_choice_of_a_directory_counts() {
    let mut dir = ConfigDir::new();
    set_config_dir_name(&mut dir, "myapp");
    assert_eq!(config_dir_name(&dir), ".myapp");
    set_config_dir_name(&mut dir, "other");
    assert_eq!(config_dir_name(&dir), ".myapp");
}

#[test]
fn home_join_appends_dir_name() {
    let home = dirs::home_dir().expect("home dir for test");
    let bytes = |name: &str| home.join(name).into_os_string().into_encoded_bytes();
    assert_eq!(home_join(".myapp").unwrap(), bytes(".myapp"));
    assert_eq!(home_join(".shirl").unwrap(), bytes(".shirl"));
}

fn text(path: Result<Vec<u8>, PathError>) -> String {
    String::from_utf8(path.unwrap()).unwrap()
}

#[test]
fn without_a_home_there_is_no_path() {
    assert_eq!(home_join_in(None, "x"), Err(PathError::NoHome));
    assert_eq!(PathError::NoHome.message(), "cannot determine home directory");
    assert_eq!(home_join_in(Some(b"/h".to_vec()), "x"), Ok(b"/h/x".to_vec()));
}

#[test]
fn session_dir_includes_id() {
    let id = "0192-abcd";
    let path = text(session_dir(&ConfigDir::new(), id));
    assert!(path.contains(id));
    assert!(path.contains("sessions"));
}

#[test]
fn sessions_root_ends_with_sessions() {
    let root = text(sessions_root(&ConfigDir::new()));
    assert!(root.ends_with("sessions"));
}

#[test]
fn paths_below_the_config_home() {
    let dir = ConfigDir::new();
    let home = text(config_home(&dir));
    assert!(home.ends_with("/.shirl"));
    assert_eq!(text(memory_db_path(&dir)), format!("{home}/memory.db"));
    assert_eq!(text(mcp_config_path(&dir)), format!("{home}/mcp.json"));
    assert_eq!(text(AuthStore::default_path(&dir)), format!("{home}/auth.toml"));
    assert_eq!(text(ShirlConfig::default_path(&dir)), format!("{home}/config.toml"));
    let base = b"/b".to_vec();
    assert_eq!(session_db_path(&base, "id"), b"/b/sessions/id/session.db");
    assert_eq!(session_dir_in(&base, "id"), b"/b/sessions/id");
}

#[test]
fn paths_follow_the_home_directory() {
    let mut dir = ConfigDir::new();
    set_config_dir_name(&mut dir, "myapp");
    let home = || Some(b"/h".to_vec());
    let path = |s: &str| Ok(s.as_bytes().to_vec());
    assert_eq!(config_file_under(home(), &dir, "x"), path("/h/.myapp/x"));
    assert_eq!(sessions_root_under(home(), &dir), path("/h/.myapp/sessions"));
    assert_eq!(session_dir_under(home(), &dir, "id"), path("/h/.myapp/sessions/id"));
    assert_eq!(memory_db_path_under(home(), &dir), path("/h/.myapp/memory.db"));
    assert_eq!(mcp_config_path_under(home(), &dir), path("/h/.myapp/mcp.json"));
    assert_eq!(AuthStore::default_path_under(home(), &dir), path("/h/.myapp/auth.toml"));
    assert_eq!(ShirlConfig::default_path_under(home(), &dir), path("/h/.myapp/config.toml"));
    let none = Err(PathError::NoHome);
    assert_eq!(sessions_root_under(None, &dir), none);
    assert_eq!(session_dir_under(None, &dir, "id"), none);
    assert_eq!(memory_db_path_under(None, &dir), none);
    assert_eq!(mcp_config_path_under(None, &dir), none);
    assert_eq!(AuthStore::default_path_under(None, &dir), none);
    assert_eq!(ShirlConfig::default_path_under(None, &dir), none);
}

#[test]
fn homes_need_not_be_text() {
    let dir = ConfigDir::new();
    let home = || Some(b"/h\xff".to_vec());
    assert_eq!(sessions_root_under(home(), &dir), Ok(b"/h\xff/.shirl/sessions".to_vec()));
    assert_eq!(
        session_dir_under(home(), &dir, "é"),
        Ok(b"/h\xff/.shirl/sessions/\xc3\xa9".to_vec())
    );
    assert_eq!(home_join_in(home(), "/abs"), Ok(b"/abs".to_vec()));
    assert_eq!(home_join_in(Some(b"/".to_vec()), "x"), Ok(b"/x".to_vec()));
    assert_eq!(home_join_in(Some(Vec::new()), "x"), Ok(b"x".to_vec()));
}
