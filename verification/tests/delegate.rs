use std::sync::Arc;

use tokio_util::sync::CancellationToken;
use zeroclaw_agents::delegate::{
    DelegateTool, ModelProviderRuntimeOptions, ProviderOptions, DEFAULT_MAX_ITERATIONS,
};
use zeroclaw_agents::guard::GuardEvidence;
use zeroclaw_agents::policy::{DelegationMode, DelegationPolicy, SecurityPolicy};
use zeroclaw_agents::roster::ParameterType;
use zeroclaw_agents::schema::{
    AliasedAgentConfig, Config, DelegateToolConfig, ModelProviderConfig, RiskProfileConfig,
    RuntimeProfileConfig, SkillBundleConfig, DEFAULT_DELEGATE_AGENTIC_TIMEOUT_SECS,
    DEFAULT_DELEGATE_TIMEOUT_SECS,
};
use zeroclaw_agents::table::AliasTable;

fn test_security() -> Arc<SecurityPolicy> {
    Arc::new(SecurityPolicy::default())
}

fn security_allowing() -> Arc<SecurityPolicy> {
    Arc::new(SecurityPolicy {
        delegation_policy: DelegationPolicy {
            mode: DelegationMode::Allow,
        },
        ..SecurityPolicy::default()
    })
}

fn sample_agents() -> AliasTable<AliasedAgentConfig> {
    let mut agents = AliasTable::new();
    agents.insert(
        "researcher".to_string(),
        AliasedAgentConfig {
            model_provider: "ollama.researcher".into(),
            ..Default::default()
        },
    );
    agents.insert(
        "coder".to_string(),
        AliasedAgentConfig {
            model_provider: "openrouter.coder".into(),
            ..Default::default()
        },
    );
    agents
}

fn no_evidence() -> AliasTable<GuardEvidence> {
    AliasTable::new()
}

fn agent_desc(tool: &DelegateTool) -> String {
    tool.parameters_schema(&no_evidence())
        .property("agent")
        .unwrap()
        .description
        .clone()
}

#[test]
fn name_and_schema() {
    let tool = DelegateTool::new(sample_agents(), None, test_security());
    assert_eq!(tool.name(), "delegate");
    let schema = tool.parameters_schema(&no_evidence());
    assert!(schema.property("agent").is_some());
    assert!(schema.property("prompt").is_some());
    assert!(schema.property("context").is_some());
    assert!(schema.property("background").is_some());
    assert!(schema.property("parallel").is_some());
    assert!(schema.property("action").is_some());
    assert!(schema.property("task_id").is_some());
    // required is empty because different actions need different params
    assert!(schema.required.is_empty());
    assert_eq!(schema.additional_properties, false);
    assert_eq!(schema.property("agent").unwrap().min_length, Some(1));
    assert_eq!(schema.property("prompt").unwrap().min_length, Some(1));
}

#[test]
fn schema_gives_types_choices_and_defaults() {
    let tool = DelegateTool::new(sample_agents(), None, test_security());
    let schema = tool.parameters_schema(&no_evidence());
    let action = schema.property("action").unwrap();
    assert_eq!(
        action.choices,
        vec!["delegate", "check_result", "list_results", "cancel_task"]
    );
    assert_eq!(action.default_text, Some("delegate"));
    assert_eq!(schema.property("background").unwrap().kind, ParameterType::Flag);
    assert_eq!(schema.property("background").unwrap().default_flag, Some(false));
    assert_eq!(schema.property("parallel").unwrap().kind, ParameterType::TextList);
    assert_eq!(schema.properties.len(), 7);
    assert!(schema.property("model").is_none());
}

#[test]
fn description_not_empty() {
    let tool = DelegateTool::new(sample_agents(), None, test_security());
    assert!(!tool.description().is_empty());
}

#[test]
fn schema_lists_agent_names() {
    let tool = DelegateTool::new(sample_agents(), None, security_allowing());
    let desc = agent_desc(&tool);
    assert!(desc.contains("researcher") || desc.contains("coder"));
    assert_eq!(
        desc,
        "Name of the agent to delegate to. Available: coder, researcher"
    );
}

#[test]
fn schema_roster_filtered_by_delegation_policy() {
    // When delegation is permitted, every configured agent (minus the
    // caller) is advertised — reachability is gated by shared risk
    // profile at delegation time, not by a per-agent roster allow-list.
    let tool = DelegateTool::new(sample_agents(), None, security_allowing());
    let desc = agent_desc(&tool);
    assert!(desc.contains("researcher"));
    assert!(desc.contains("coder"));

    // When delegation is forbidden, the roster is empty.
    let forbidden = DelegateTool::new(sample_agents(), None, Arc::new(SecurityPolicy::default()));
    let forbidden_desc = agent_desc(&forbidden);
    assert!(!forbidden_desc.contains("researcher"));
    assert!(!forbidden_desc.contains("coder"));
}

#[test]
fn schema_roster_lists_only_same_risk_profile_peers() {
    // Three agents: two on "alpha", one on "beta". Caller is on "alpha".
    let mut agents = AliasTable::new();
    agents.insert(
        "alpha_peer".to_string(),
        AliasedAgentConfig {
            risk_profile: "alpha".into(),
            ..Default::default()
        },
    );
    agents.insert(
        "alpha_self".to_string(),
        AliasedAgentConfig {
            risk_profile: "alpha".into(),
            ..Default::default()
        },
    );
    agents.insert(
        "beta_outsider".to_string(),
        AliasedAgentConfig {
            risk_profile: "beta".into(),
            ..Default::default()
        },
    );

    // Caller on "alpha" with delegation allowed; it owns "alpha_self".
    let mut policy = SecurityPolicy {
        delegation_policy: DelegationPolicy {
            mode: DelegationMode::Allow,
        },
        ..SecurityPolicy::default()
    };
    policy.risk_profile_name = "alpha".into();
    let mut tool = DelegateTool::new(agents, None, Arc::new(policy));
    tool.caller_alias = "alpha_self".to_string();

    let desc = agent_desc(&tool);

    // Same-profile peer is listed.
    assert!(desc.contains("alpha_peer"), "{desc}");
    // Delegator excludes itself.
    assert!(!desc.contains("alpha_self"), "{desc}");
    // Off-profile agent is excluded.
    assert!(!desc.contains("beta_outsider"), "{desc}");
}

#[test]
fn schema_excludes_caller_alias_from_roster() {
    // An agent must never be offered itself as a delegation target,
    // even when the delegation_policy would otherwise permit it.
    let tool = DelegateTool::new(sample_agents(), None, security_allowing())
        .with_caller_alias("researcher");
    let desc = agent_desc(&tool);
    assert!(!desc.contains("researcher"));
    assert!(desc.contains("coder"));
}

#[test]
fn schema_empty_roster_when_delegation_forbidden() {
    // Default policy forbids delegation, so no configured agent
    // should be advertised.
    let tool = DelegateTool::new(sample_agents(), None, test_security());
    let desc = agent_desc(&tool);
    assert!(desc.contains("none configured"));
}

#[test]
fn empty_agents_schema() {
    let tool = DelegateTool::new(AliasTable::new(), None, test_security());
    let desc = agent_desc(&tool);
    assert!(desc.contains("none configured"));
}

#[test]
fn delegate_depth_construction() {
    let tool = DelegateTool::with_depth(sample_agents(), None, test_security(), 5);
    assert_eq!(tool.depth, 5);
}

#[test]
fn delegate_timeout_defaults_come_from_delegate_config() {
    let tool = DelegateTool::new(AliasTable::new(), None, test_security())
        .with_delegate_config(DelegateToolConfig::default());
    assert_eq!(
        tool.delegate_config.timeout_secs,
        DEFAULT_DELEGATE_TIMEOUT_SECS
    );
    assert_eq!(
        tool.delegate_config.agentic_timeout_secs,
        DEFAULT_DELEGATE_AGENTIC_TIMEOUT_SECS
    );
}

#[test]
fn cancellation_token_accessor() {
    let tool = DelegateTool::new(sample_agents(), None, test_security());
    let token = tool.cancellation_token();
    assert!(!token.is_cancelled());

    tool.cancel_all_background_tasks();
    assert!(token.is_cancelled());
}

#[test]
fn with_cancellation_token_replaces_default() {
    let custom_token = CancellationToken::new();
    let tool = DelegateTool::new(sample_agents(), None, test_security())
        .with_cancellation_token(custom_token.clone());

    assert!(!tool.cancellation_token().is_cancelled());
    custom_token.cancel();
    assert!(tool.cancellation_token().is_cancelled());
}

/// The provider entry whose options a delegate gets.
fn own_entry(tool: &DelegateTool, reference: &str) -> Option<(String, String)> {
    match tool.resolve_delegate_provider_options(reference) {
        ProviderOptions::ForAlias { family, alias } => Some((family.to_string(), alias.to_string())),
        ProviderOptions::Inherited(_) => None,
    }
}

#[test]
fn delegate_ollama_resolves_own_endpoint_not_first_provider_url() {
    let inherited = ModelProviderRuntimeOptions {
        provider_api_url: Some("https://api.z.ai/api/coding/paas/v4".to_string()),
    };
    let tool = DelegateTool::new_with_options(AliasTable::new(), None, test_security(), inherited)
        .with_root_config(Arc::new(Config::default()));

    assert_eq!(
        own_entry(&tool, "ollama.local"),
        Some(("ollama".to_string(), "local".to_string())),
        "ollama delegate must not inherit the first provider's z.ai url"
    );
    assert_eq!(
        own_entry(&tool, "zai.orch"),
        Some(("zai".to_string(), "orch".to_string())),
    );
}

#[test]
fn delegate_no_uri_config_falls_through_to_family_default() {
    let tool = DelegateTool::new(AliasTable::new(), None, test_security())
        .with_root_config(Arc::new(Config::default()));

    assert_eq!(
        own_entry(&tool, "ollama.tag"),
        Some(("ollama".to_string(), "tag".to_string())),
    );
    assert_eq!(
        own_entry(&tool, "zai.comment"),
        Some(("zai".to_string(), "comment".to_string())),
    );
}

#[test]
fn delegate_options_fall_back_to_inherited_without_root_config() {
    // Bare aliases and tools without a root config must reuse the inherited
    // options unchanged (no root_config to re-resolve against).
    let inherited = ModelProviderRuntimeOptions {
        provider_api_url: Some("http://inherited.example/v1".to_string()),
    };
    let tool =
        DelegateTool::new_with_options(AliasTable::new(), None, test_security(), inherited);
    let url = |reference: &str| match tool.resolve_delegate_provider_options(reference) {
        ProviderOptions::Inherited(options) => options.provider_api_url.clone(),
        ProviderOptions::ForAlias { .. } => None,
    };

    assert_eq!(
        url("ollama.local"),
        Some("http://inherited.example/v1".to_string()),
        "no root_config → inherited options"
    );
    assert_eq!(
        url("ollama"),
        Some("http://inherited.example/v1".to_string()),
        "bare alias (no family.alias) → inherited options"
    );
}

#[test]
fn delegate_options_name_the_own_entry_with_root_config() {
    let tool = DelegateTool::new(AliasTable::new(), None, test_security())
        .with_root_config(Arc::new(Config::default()));
    match tool.resolve_delegate_provider_options("ollama.local.v2") {
        ProviderOptions::ForAlias { family, alias } => {
            assert_eq!(family, "ollama");
            assert_eq!(alias, "local.v2");
        }
        ProviderOptions::Inherited(_) => panic!("expected the delegate's own entry"),
    }
    assert!(matches!(
        tool.resolve_delegate_provider_options("ollama"),
        ProviderOptions::Inherited(_)
    ));
}

#[test]
fn resolve_agentic_trims_runtime_profile_reference() {
    let mut runtime_profiles = AliasTable::new();
    runtime_profiles.insert(
        "agentic_rt".to_string(),
        RuntimeProfileConfig {
            agentic: true,
            ..RuntimeProfileConfig::default()
        },
    );
    let tool = DelegateTool::new(AliasTable::new(), None, test_security())
        .with_runtime_profiles(runtime_profiles);

    // The trimmed lookup matches the guard's trimmed read; an untrimmed get
    // would miss the padded reference and read false.
    assert!(
        tool.resolve_agentic("  agentic_rt  "),
        "resolve_agentic must trim the reference"
    );
    assert!(tool.resolve_agentic("agentic_rt"));
    assert!(!tool.resolve_agentic("   "));
    assert!(!tool.resolve_agentic("unknown_rt"));
}

#[test]
fn runtime_profile_settings_and_their_defaults() {
    let mut profiles = AliasTable::new();
    profiles.insert(
        "set".to_string(),
        RuntimeProfileConfig {
            agentic: false,
            max_delegation_depth: 7,
            delegation_timeout_secs: Some(11),
            agentic_timeout_secs: Some(22),
            max_tool_iterations: 33,
        },
    );
    profiles.insert("zero".to_string(), RuntimeProfileConfig::default());
    let tool = DelegateTool::new(AliasTable::new(), None, test_security())
        .with_runtime_profiles(profiles);
    assert_eq!(tool.resolve_max_depth("set"), 7);
    assert_eq!(tool.resolve_max_depth("zero"), 3);
    assert_eq!(tool.resolve_max_depth("unknown"), 3);
    assert_eq!(tool.resolve_max_depth(""), 3);
    assert_eq!(tool.resolve_max_depth(" set "), 3);
    assert_eq!(tool.resolve_delegation_timeout("set"), Some(11));
    assert_eq!(tool.resolve_delegation_timeout("zero"), None);
    assert_eq!(tool.resolve_delegation_timeout(""), None);
    assert_eq!(tool.resolve_agentic_timeout_secs("set"), Some(22));
    assert_eq!(tool.resolve_agentic_timeout_secs("unknown"), None);
    assert_eq!(tool.resolve_max_iterations("set"), 33);
    assert_eq!(tool.resolve_max_iterations("zero"), DEFAULT_MAX_ITERATIONS);
    assert_eq!(tool.resolve_max_iterations(""), 10);
}

#[test]
fn brain_comes_from_the_entry_or_from_the_reference() {
    let mut aliases = AliasTable::new();
    aliases.insert(
        "agentic".to_string(),
        ModelProviderConfig {
            api_key: Some("delegate-test-credential".to_string()),
            model: Some("model-test".to_string()),
        },
    );
    aliases.insert("bare".to_string(), ModelProviderConfig::default());
    let mut models = AliasTable::new();
    models.insert("openrouter".to_string(), aliases);
    let tool = DelegateTool::new(AliasTable::new(), Some("global".to_string()), test_security())
        .with_providers_models(models);

    let brain = tool.resolve_brain("openrouter.agentic");
    assert_eq!(brain.provider_type, "openrouter");
    assert_eq!(brain.credential.as_deref(), Some("delegate-test-credential"));
    assert_eq!(brain.model, "model-test");
    assert!(brain.configured);

    let bare = tool.resolve_brain("openrouter.bare");
    assert_eq!(bare.credential.as_deref(), Some("global"));
    assert_eq!(bare.model, "");
    assert!(bare.configured);

    let unknown = tool.resolve_brain("ollama.local");
    assert_eq!(unknown.provider_type, "ollama");
    assert_eq!(unknown.credential.as_deref(), Some("global"));
    assert!(!unknown.configured);

    assert_eq!(tool.resolve_brain("ollama").provider_type, "ollama");
}

#[test]
fn allowed_tools_and_skill_directories() {
    let mut risk = AliasTable::new();
    risk.insert(
        "r".to_string(),
        RiskProfileConfig {
            allowed_tools: vec!["shell".into(), " x ".into()],
        },
    );
    let mut skills = AliasTable::new();
    skills.insert(
        "code_review".to_string(),
        SkillBundleConfig {
            directory: Some("skills/code-review".to_string()),
        },
    );
    skills.insert("unset".to_string(), SkillBundleConfig::default());
    let tool = DelegateTool::new(AliasTable::new(), None, test_security())
        .with_risk_profiles(risk)
        .with_skill_bundles(skills);
    assert_eq!(tool.resolve_allowed_tools("r"), vec!["shell", " x "]);
    assert!(tool.resolve_allowed_tools("").is_empty());
    assert!(tool.resolve_allowed_tools("other").is_empty());
    let aliases: Vec<String> = vec!["".into(), "unset".into(), "code_review".into(), "no".into()];
    assert_eq!(tool.resolve_skill_bundle_dirs(&aliases), vec!["skills/code-review"]);
}

#[test]
fn workspaces_of_agents() {
    let mut config = Config::default();
    config.install_root = "/opt/zc".to_string();
    let mut agent = AliasedAgentConfig::default();
    agent.workspace.path = Some("/srv/zc/ws".to_string());
    config.agents.insert("placed".to_string(), agent);
    assert_eq!(config.agent_workspace_dir("placed"), "/srv/zc/ws");
    assert_eq!(config.agent_workspace_dir("other"), "/opt/zc/agents/other/workspace");
    let tool = DelegateTool::new(AliasTable::new(), None, test_security());
    assert_eq!(tool.agent_workspace("placed"), None);
    let tool = tool.with_root_config(Arc::new(config));
    assert_eq!(tool.agent_workspace("placed").as_deref(), Some("/srv/zc/ws"));
}
