use mcsoftsolution_chat::config::{ChatConfig, ChatConfigBuilder};
use mcsoftsolution_chat::json::parse_json;
use mcsoftsolution_chat::mcp::McpTool;
use mcsoftsolution_chat::prompt::{build, default_body, BODY_REST};

type Config = ChatConfig<u8, u8, u8>;

fn builder() -> ChatConfigBuilder<u8, u8, u8> {
    Config::builder()
}

#[test]
fn build_fills_in_defaults() {
    let cfg = builder().openrouter_api_key("sk-test".to_string()).build();
    assert_eq!(cfg.openrouter_api_key, "sk-test");
    assert_eq!(cfg.model, "google/gemma-4-26b-a4b-it");
    assert_eq!(cfg.mcp_url, "https://mcsoftsolution.com/mcp");
    assert!(cfg.site_label.is_none() && cfg.system_prompt_override.is_none());
    assert!(cfg.key_provider.is_none() && cfg.prompt_provider.is_none() && cfg.suggestions_provider.is_none());
}

#[test]
fn setters_are_kept_by_build() {
    let cfg = builder()
        .key_provider(1)
        .model("mistralai/mistral-small-3.2".to_string())
        .mcp_url("https://your-mcp.example.com/mcp".to_string())
        .site_label("acme-demo".to_string())
        .system_prompt_override("Always answer in haiku.".to_string())
        .prompt_provider(2)
        .suggestions_provider(3)
        .build();
    assert_eq!(cfg.openrouter_api_key, "");
    assert_eq!(cfg.key_provider, Some(1));
    assert_eq!(cfg.model, "mistralai/mistral-small-3.2");
    assert_eq!(cfg.mcp_url, "https://your-mcp.example.com/mcp");
    assert_eq!(cfg.site_label.as_deref(), Some("acme-demo"));
    assert_eq!(cfg.system_prompt_override.as_deref(), Some("Always answer in haiku."));
    assert_eq!(cfg.prompt_provider, Some(2));
    assert_eq!(cfg.suggestions_provider, Some(3));
}

#[test]
fn has_key_source_needs_a_key_or_a_resolver() {
    assert!(!builder().model("m".to_string()).has_key_source());
    assert!(builder().openrouter_api_key(String::new()).has_key_source());
    assert!(builder().key_provider(0).has_key_source());
}

#[test]
fn from_env_values_requires_a_key() {
    assert!(Config::from_env_values(None, None, None, None).is_none());
    assert!(Config::from_env_values(Some(String::new()), None, None, None).is_none());
    let cfg = Config::from_env_values(
        Some("sk-or-v1-x".to_string()),
        Some(String::new()),
        Some("https://m.example/mcp".to_string()),
        Some(String::new()),
    )
    .unwrap();
    assert_eq!(cfg.openrouter_api_key, "sk-or-v1-x");
    assert_eq!(cfg.model, "google/gemma-4-26b-a4b-it");
    assert_eq!(cfg.mcp_url, "https://m.example/mcp");
    assert!(cfg.site_label.is_none());
    let cfg = Config::from_env_values(Some("k".to_string()), Some("m".to_string()), None, Some("demo".to_string())).unwrap();
    assert_eq!(cfg.model, "m");
    assert_eq!(cfg.mcp_url, "https://mcsoftsolution.com/mcp");
    assert_eq!(cfg.site_label.as_deref(), Some("demo"));
}

#[test]
fn resolve_key_prefers_the_resolver() {
    let cfg = builder().openrouter_api_key("static".to_string()).key_provider(1).build();
    assert_eq!(cfg.resolve_key(Some("rotated".to_string())).as_deref(), Some("rotated"));
    assert_eq!(cfg.resolve_key(None), None);
    let cfg = builder().openrouter_api_key("static".to_string()).build();
    assert_eq!(cfg.resolve_key(None).as_deref(), Some("static"));
    let cfg = builder().openrouter_api_key(String::new()).build();
    assert_eq!(cfg.resolve_key(None), None);
}

#[test]
fn resolve_prompt_override_prefers_the_resolver() {
    let cfg = builder().openrouter_api_key("k".to_string()).system_prompt_override("static".to_string()).build();
    assert_eq!(cfg.resolve_prompt_override(None).as_deref(), Some("static"));
    let cfg = builder()
        .openrouter_api_key("k".to_string())
        .system_prompt_override("static".to_string())
        .prompt_provider(1)
        .build();
    assert_eq!(cfg.resolve_prompt_override(None), None);
    assert_eq!(cfg.resolve_prompt_override(Some("db".to_string())).as_deref(), Some("db"));
}

#[test]
fn resolve_suggestions_defaults_to_empty_lists() {
    let cfg = builder().openrouter_api_key("k".to_string()).build();
    let (s, f) = cfg.resolve_suggestions((vec!["a".to_string()], vec!["b".to_string()]));
    assert!(s.is_empty() && f.is_empty());
    let cfg = builder().openrouter_api_key("k".to_string()).suggestions_provider(1).build();
    let (s, f) = cfg.resolve_suggestions((vec!["a".to_string()], vec!["b".to_string()]));
    assert_eq!(s, vec!["a".to_string()]);
    assert_eq!(f, vec!["b".to_string()]);
}

#[test]
fn debug_string_redacts_secrets() {
    let cfg = builder()
        .openrouter_api_key("sk-secret".to_string())
        .site_label("demo \"x\"".to_string())
        .system_prompt_override("hidden prompt".to_string())
        .prompt_provider(1)
        .build();
    let s = cfg.debug_string();
    assert_eq!(
        s,
        "ChatConfig { openrouter_api_key: \"<redacted>\", key_provider: None, model: \"google/gemma-4-26b-a4b-it\", mcp_url: \"https://mcsoftsolution.com/mcp\", site_label: Some(\"demo \\\"x\\\"\"), system_prompt_override: Some(\"<set>\"), prompt_provider: Some(\"<fn>\"), suggestions_provider: None }"
    );
    assert!(!s.contains("sk-secret") && !s.contains("hidden prompt"));
    let empty = builder().key_provider(1).build().debug_string();
    assert!(empty.starts_with("ChatConfig { openrouter_api_key: \"<empty>\", key_provider: Some(\"<fn>\")"));
}

fn tool(name: &str, description: &str) -> McpTool {
    McpTool {
        name: name.to_string(),
        description: description.to_string(),
        input_schema: parse_json("{}").unwrap(),
    }
}

#[test]
fn default_body_names_the_site() {
    let body = default_body(Some("franchise-match-ai demo"));
    assert!(body.starts_with("You are a friendly assistant on the franchise-match-ai demo, representing Mykolay Chelabchi (MC Soft Solution). Visitors clicked \"Chat with me\""));
    assert!(body.ends_with("- Refuse off-topic asks politely (\"I'm here to talk about MC Soft\").\n"));
    let plain = default_body(None);
    assert_eq!(plain, format!("You are a friendly assistant{}", BODY_REST));
    assert!(plain.contains("$5\u{2013}8K starter sprint"));
}

#[test]
fn build_appends_the_tool_list() {
    let tools = vec![tool("get_services", "List services"), tool("contact", "How to reach us")];
    let p = build(Some("You are Acme's chat."), Some("ignored"), &tools);
    assert_eq!(
        p,
        "You are Acme's chat.\n\nAvailable tools (live, via MC Soft's public MCP server):\n- get_services: List services\n- contact: How to reach us\n"
    );
    assert_eq!(build(Some("Only this."), None, &[]), "Only this.");
    let d = build(None, Some("site"), &tools);
    assert!(d.starts_with(&default_body(Some("site"))));
    assert!(d.ends_with("- contact: How to reach us\n"));
}
