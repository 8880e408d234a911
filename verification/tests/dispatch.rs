use std::sync::Arc;

use zeroclaw_agents::arguments::{read_arguments, read_context, route, Request};
use zeroclaw_agents::delegate::{DelegateTool, ProviderOptions};
use zeroclaw_agents::dispatch::{
    Dispatch, ProviderFallback, RunMode, RunOutcome, SyncJob, TokenUsage,
};
use zeroclaw_agents::evidence::GuardSteps;
use zeroclaw_agents::policy::SecurityPolicy;
use zeroclaw_agents::reply::ToolResult;
use zeroclaw_agents::schema::{
    AliasedAgentConfig, Config, ModelProviderConfig, RiskProfileConfig, RuntimeProfileConfig,
};
use zeroclaw_agents::table::AliasTable;

fn test_security() -> Arc<SecurityPolicy> {
    Arc::new(SecurityPolicy::default())
}

fn args(json: &str) -> serde_json::Value {
    serde_json::from_str(json).unwrap()
}

fn sample_agents() -> AliasTable<AliasedAgentConfig> {
    let mut agents = AliasTable::new();
    agents.insert(
        "researcher".to_string(),
        AliasedAgentConfig {
            model_provider: "ollama.researcher".into(),
            ..Default::default()
        },
    );
    agents.insert(
        "coder".to_string(),
        AliasedAgentConfig {
            model_provider: "openrouter.coder".into(),
            ..Default::default()
        },
    );
    agents
}

fn agentic_agent_config() -> AliasedAgentConfig {
    AliasedAgentConfig {
        model_provider: "openrouter.agentic".into(),
        risk_profile: "agentic_test".to_string(),
        runtime_profile: "agentic_test".to_string(),
        ..Default::default()
    }
}

fn agentic_providers_models() -> AliasTable<AliasTable<ModelProviderConfig>> {
    let mut aliases = AliasTable::new();
    aliases.insert(
        "agentic".to_string(),
        ModelProviderConfig {
            model: Some("model-test".to_string()),
            api_key: Some("delegate-test-credential".to_string()),
        },
    );
    let mut models = AliasTable::new();
    models.insert("openrouter".to_string(), aliases);
    models
}

fn agentic_runtime_profiles(max_iterations: usize) -> AliasTable<RuntimeProfileConfig> {
    let mut profiles = AliasTable::new();
    profiles.insert(
        "agentic_test".to_string(),
        RuntimeProfileConfig {
            agentic: true,
            max_tool_iterations: max_iterations,
            ..Default::default()
        },
    );
    profiles
}

fn agentic_risk_profiles(allowed_tools: Vec<String>) -> AliasTable<RiskProfileConfig> {
    let mut profiles = AliasTable::new();
    profiles.insert("agentic_test".to_string(), RiskProfileConfig { allowed_tools });
    profiles
}

fn agentic_tool(allowed_tools: &[&str]) -> DelegateTool {
    let mut agents = AliasTable::new();
    agents.insert("agentic".to_string(), agentic_agent_config());
    DelegateTool::new(agents, None, test_security())
        .with_providers_models(agentic_providers_models())
        .with_runtime_profiles(agentic_runtime_profiles(10))
        .with_risk_profiles(agentic_risk_profiles(
            allowed_tools.iter().map(|t| t.to_string()).collect(),
        ))
}

/// Steps of the guard under which every agent resolves as given.
fn given(
    resolve: impl Fn(&str) -> Result<SecurityPolicy, String>,
) -> GuardSteps<
    impl Fn(&Config, &str) -> Result<SecurityPolicy, String>,
    impl Fn(&Config, &str, &str, &str) -> SecurityPolicy,
    impl Fn(&Config, &str, SecurityPolicy) -> SecurityPolicy,
    impl Fn(&SecurityPolicy, &SecurityPolicy) -> Option<String>,
    impl Fn(&str) -> Option<String>,
> {
    GuardSteps {
        resolve: move |_: &Config, name: &str| resolve(name),
        base: |_: &Config, _: &str, _: &str, _: &str| SecurityPolicy::default(),
        equip: |_: &Config, _: &str, policy: SecurityPolicy| policy,
        compare: |_: &SecurityPolicy, _: &SecurityPolicy| None,
        canonical: |_: &str| None,
    }
}

/// Takes a request to the job, with everything outside going well.
fn job<'a>(tool: &'a DelegateTool, agent: &str, prompt: &str, context: &str) -> SyncJob<'a> {
    let cleared = tool
        .open_request(agent, Dispatch::Foreground)
        .ok()
        .unwrap()
        .charge(Ok(()))
        .ok()
        .unwrap()
        .clear(&given(|_| Ok(SecurityPolicy::default())))
        .ok()
        .unwrap();
    cleared.provision(Ok(()), prompt, context).ok().unwrap().0
}

/// Takes a call to the answer that it gets when its model provider cannot be
/// made, with the task that it would have been given.
fn without_provider(tool: &DelegateTool, json: &str) -> (ToolResult, String) {
    let value = args(json);
    let (agent, prompt) = match tool.execute(&value).unwrap() {
        Request::Sync { agent, prompt } => (agent, prompt),
        _ => panic!("expected a run"),
    };
    let context = read_context(&read_arguments(&value));
    let clear = || {
        tool.clear_request(
            &agent,
            Dispatch::Foreground,
            |_| Ok(()),
            &given(|_| Ok(SecurityPolicy::default())),
        )
        .ok()
        .unwrap()
    };
    let answer = clear()
        .provision::<()>(Err("unknown provider".to_string()), &prompt, &context)
        .err()
        .unwrap();
    let (job, ()) = clear().provision(Ok(()), &prompt, &context).ok().unwrap();
    (answer, job.full_prompt().clone())
}

fn refused(tool: &DelegateTool, json: &str) -> String {
    match tool.execute(&args(json)).unwrap() {
        Request::Answer(answer) => {
            assert!(!answer.success);
            assert_eq!(answer.output, "");
            answer.error.unwrap()
        }
        _ => panic!("expected an answer"),
    }
}

fn sync_refused(tool: &DelegateTool, json: &str) -> String {
    match tool.execute(&args(json)).unwrap() {
        Request::Sync { agent, .. } => match tool.open_request(&agent, Dispatch::Foreground) {
            Ok(_) => panic!("expected a refusal"),
            Err(answer) => {
                assert!(!answer.success);
                answer.error.unwrap()
            }
        },
        _ => panic!("expected a run"),
    }
}

#[test]
fn missing_agent_param() {
    let tool = DelegateTool::new(sample_agents(), None, test_security());
    let result = tool.execute(&args(r#"{"prompt": "test"}"#));
    assert!(result.is_err());
    assert_eq!(result.err().unwrap(), "Missing 'agent' parameter");
}

#[test]
fn missing_prompt_param() {
    let tool = DelegateTool::new(sample_agents(), None, test_security());
    let result = tool.execute(&args(r#"{"agent": "researcher"}"#));
    assert!(result.is_err());
    assert_eq!(result.err().unwrap(), "Missing 'prompt' parameter");
}

#[test]
fn unknown_agent_returns_error() {
    let tool = DelegateTool::new(sample_agents(), None, test_security());
    let error = sync_refused(&tool, r#"{"agent": "nonexistent", "prompt": "test"}"#);
    assert!(error.contains("Unknown agent"));
    assert_eq!(
        error,
        "Unknown agent 'nonexistent'. Available agents: researcher, coder"
    );
}

#[test]
fn depth_limit_enforced() {
    let tool = DelegateTool::with_depth(sample_agents(), None, test_security(), 3);
    let error = sync_refused(&tool, r#"{"agent": "researcher", "prompt": "test"}"#);
    assert!(error.contains("depth limit"));
    assert_eq!(
        error,
        "Delegation depth limit reached (3/3). Cannot delegate further to prevent infinite loops."
    );
}

#[test]
fn depth_limit_at_default_max() {
    // Default max_depth is 3; at depth=3 the agent should be blocked.
    let tool = DelegateTool::with_depth(sample_agents(), None, test_security(), 3);
    let error = sync_refused(&tool, r#"{"agent": "coder", "prompt": "test"}"#);
    assert!(error.contains("depth limit"));
    let below = DelegateTool::with_depth(sample_agents(), None, test_security(), 2);
    assert!(below.open_request("coder", Dispatch::Foreground).is_ok());
}

#[test]
fn depth_limit_in_the_background() {
    let tool = DelegateTool::with_depth(sample_agents(), None, test_security(), 12);
    let answer = tool.open_request("coder", Dispatch::Background).err().unwrap();
    assert_eq!(answer.error.unwrap(), "Delegation depth limit reached (12/3).");
}

#[test]
fn invalid_provider_returns_error() {
    let mut agents = AliasTable::new();
    agents.insert(
        "broken".to_string(),
        AliasedAgentConfig {
            model_provider: "totally-invalid-provider.default".into(),
            ..Default::default()
        },
    );
    let tool = DelegateTool::new(agents, None, test_security());
    let answer = tool
        .open_request("broken", Dispatch::Foreground)
        .ok()
        .unwrap()
        .charge(Ok(()))
        .ok()
        .unwrap()
        .clear(&given(|_| Ok(SecurityPolicy::default())))
        .ok()
        .unwrap()
        .provision::<()>(Err("unknown provider".to_string()), "test", "")
        .err()
        .unwrap();
    assert!(!answer.success);
    assert_eq!(
        answer.error.unwrap(),
        "Failed to create model_provider 'totally-invalid-provider' for agent 'broken': unknown provider"
    );
}

#[test]
fn blank_agent_rejected() {
    let tool = DelegateTool::new(sample_agents(), None, test_security());
    let error = refused(&tool, r#"{"agent": "  ", "prompt": "test"}"#);
    assert!(error.contains("must not be empty"));
    assert_eq!(error, "'agent' parameter must not be empty");
}

#[test]
fn blank_prompt_rejected() {
    let tool = DelegateTool::new(sample_agents(), None, test_security());
    let error = refused(&tool, r#"{"agent": "researcher", "prompt": "  \t  "}"#);
    assert!(error.contains("must not be empty"));
    assert_eq!(error, "'prompt' parameter must not be empty");
}

#[test]
fn whitespace_agent_name_trimmed_and_found() {
    let tool = DelegateTool::new(sample_agents(), None, test_security());
    match tool
        .execute(&args(r#"{"agent": " researcher ", "prompt": "test"}"#))
        .unwrap()
    {
        Request::Sync { agent, prompt } => {
            assert_eq!(agent, "researcher");
            assert_eq!(prompt, "test");
            assert!(tool.open_request(&agent, Dispatch::Foreground).is_ok());
        }
        _ => panic!("expected a run"),
    }
}

#[test]
fn refused_budget_is_answered_as_it_stands() {
    let tool = DelegateTool::new(sample_agents(), None, test_security());
    let answer = tool
        .open_request("researcher", Dispatch::Foreground)
        .ok()
        .unwrap()
        .charge(Err("Rate limit exceeded".to_string()))
        .err()
        .unwrap();
    assert!(!answer.success);
    assert_eq!(answer.error.as_deref(), Some("Rate limit exceeded"));
}

fn tester() -> DelegateTool {
    let mut agents = AliasTable::new();
    agents.insert(
        "tester".to_string(),
        AliasedAgentConfig {
            model_provider: "invalid-for-test.default".into(),
            ..Default::default()
        },
    );
    DelegateTool::new(agents, None, test_security())
}

#[test]
fn delegate_context_is_prepended_to_prompt() {
    let (result, task) = without_provider(
        &tester(),
        r#"{"agent": "tester", "prompt": "do something", "context": "some context data"}"#,
    );
    assert!(!result.success);
    assert!(
        result
            .error
            .as_deref()
            .unwrap_or("")
            .contains("Failed to create model_provider")
    );
    assert_eq!(task, "[Context]\nsome context data\n\n[Task]\ndo something");
}

#[test]
fn delegate_empty_context_omits_prefix() {
    let (result, task) = without_provider(
        &tester(),
        r#"{"agent": "tester", "prompt": "do something", "context": ""}"#,
    );
    assert!(!result.success);
    assert!(
        result
            .error
            .as_deref()
            .unwrap_or("")
            .contains("Failed to create model_provider")
    );
    assert_eq!(task, "do something");
}

#[test]
fn context_and_prompt_are_trimmed() {
    let (_, task) = without_provider(
        &tester(),
        r#"{"agent": "tester", "prompt": " do it\n", "context": " with care "}"#,
    );
    assert_eq!(task, "[Context]\nwith care\n\n[Task]\ndo it");
}

#[test]
fn delegate_no_agents_configured() {
    let tool = DelegateTool::new(AliasTable::new(), None, test_security());
    let error = sync_refused(&tool, r#"{"agent": "any", "prompt": "test"}"#);
    assert!(error.contains("none configured"));
}

#[test]
fn unknown_action_rejected() {
    let tool = DelegateTool::new(sample_agents(), None, test_security());
    let error = refused(&tool, r#"{"action": "invalid_action"}"#);
    assert!(error.contains("Unknown action"));
    assert_eq!(
        error,
        "Unknown action 'invalid_action'. Use delegate/check_result/list_results/cancel_task."
    );
}

#[test]
fn default_action_is_delegate() {
    let tool = DelegateTool::new(sample_agents(), None, test_security());
    let plain = tool
        .execute(&args(r#"{"agent": "researcher", "prompt": "test"}"#))
        .unwrap();
    assert!(matches!(plain, Request::Sync { .. }));
    let named = tool
        .execute(&args(
            r#"{"action": "delegate", "agent": "researcher", "prompt": "test"}"#,
        ))
        .unwrap();
    assert!(matches!(named, Request::Sync { .. }));
    // An action that is no string counts as not given.
    let number = tool
        .execute(&args(r#"{"action": 7, "agent": "researcher", "prompt": "test"}"#))
        .unwrap();
    assert!(matches!(number, Request::Sync { .. }));
}

#[test]
fn actions_and_modes_are_told_apart() {
    let tool = DelegateTool::new(sample_agents(), None, test_security());
    let ask = |json: &str| tool.execute(&args(json)).unwrap();
    assert!(matches!(ask(r#"{"action": "check_result"}"#), Request::CheckResult));
    assert!(matches!(ask(r#"{"action": "list_results"}"#), Request::ListResults));
    assert!(matches!(ask(r#"{"action": "cancel_task"}"#), Request::CancelTask));
    assert!(matches!(
        ask(r#"{"agent": "a", "prompt": "p", "background": true}"#),
        Request::Background { .. }
    ));
    assert!(matches!(
        ask(r#"{"agent": "a", "prompt": "p", "background": "true"}"#),
        Request::Sync { .. }
    ));
    match ask(r#"{"parallel": ["a", 3, " b "], "background": true}"#) {
        Request::Parallel { agents } => assert_eq!(
            agents,
            vec![Some("a".to_string()), None, Some(" b ".to_string())]
        ),
        _ => panic!("expected a list"),
    }
}

#[test]
fn arguments_that_are_no_object_are_empty() {
    let call = read_arguments(&args(r#"["agent", "prompt"]"#));
    assert_eq!(call.agent, None);
    assert_eq!(call.background, None);
    assert!(call.parallel.is_none());
    assert_eq!(route(&call).err().unwrap(), "Missing 'agent' parameter");
}

#[test]
fn agentic_mode_rejects_empty_allowed_tools() {
    let tool = agentic_tool(&[]);
    let answer = job(&tool, "agentic", "test", "")
        .select_tools(&vec!["echo_tool".to_string()])
        .unwrap_err();
    assert!(!answer.success);
    assert_eq!(
        answer.error.unwrap(),
        "Agent 'agentic' is agentic but risk_profile 'agentic_test' has no allowed_tools"
    );
}

#[test]
fn agentic_mode_rejects_unmatched_allowed_tools() {
    let tool = agentic_tool(&["missing_tool"]);
    let answer = job(&tool, "agentic", "test", "")
        .select_tools(&vec!["echo_tool".to_string()])
        .unwrap_err();
    assert!(!answer.success);
    let error = answer.error.unwrap();
    assert!(error.contains("no executable tools"));
    assert_eq!(
        error,
        "Agent 'agentic' has no executable tools after filtering allowlist (missing_tool)"
    );
}

#[test]
fn the_whole_allowlist_is_shown() {
    let tool = agentic_tool(&["missing_tool", " other "]);
    let answer = job(&tool, "agentic", "test", "")
        .select_tools(&vec!["echo_tool".to_string()])
        .unwrap_err();
    assert_eq!(
        answer.error.unwrap(),
        "Agent 'agentic' has no executable tools after filtering allowlist (missing_tool,  other )"
    );
}

#[test]
fn execute_agentic_runs_tool_call_loop_with_filtered_tools() {
    let tool = agentic_tool(&["echo_tool"]);
    let job = job(&tool, "agentic", "run", "");
    assert_eq!(job.run_mode(), RunMode::InProcess);
    let names = vec!["echo_tool".to_string(), "delegate".to_string()];
    assert_eq!(job.select_tools(&names).unwrap(), vec![0]);
    let result = job.finish(RunOutcome::Replied(Some("done".to_string())));
    assert!(result.success);
    assert!(result.output.contains("(openrouter/model-test, agentic)"));
    assert!(result.output.contains("done"));
    assert_eq!(
        result.output,
        "[Agent 'agentic' (openrouter/model-test, agentic)]\ndone"
    );
}

#[test]
fn listed_tools_are_picked_in_order() {
    let tool = agentic_tool(&["last", " echo_tool ", "delegate"]);
    let job = job(&tool, "agentic", "run", "");
    let names = vec![
        "other".to_string(),
        "echo_tool".to_string(),
        "delegate".to_string(),
        "last".to_string(),
    ];
    assert_eq!(job.select_tools(&names).unwrap(), vec![1, 3]);
}

#[test]
fn execute_agentic_excludes_delegate_even_if_allowlisted() {
    let tool = agentic_tool(&["delegate"]);
    let answer = job(&tool, "agentic", "run", "")
        .select_tools(&vec!["delegate".to_string()])
        .unwrap_err();
    assert!(answer.error.unwrap().contains("no executable tools"));
}

#[test]
fn execute_agentic_respects_max_iterations() {
    let mut tool = agentic_tool(&["echo_tool"]);
    assert_eq!(job(&tool, "agentic", "run", "").max_iterations(), 10);
    tool = tool.with_runtime_profiles(agentic_runtime_profiles(2));
    assert_eq!(job(&tool, "agentic", "run", "").max_iterations(), 2);
}

#[test]
fn execute_agentic_propagates_provider_errors() {
    let tool = agentic_tool(&["echo_tool"]);
    let result = job(&tool, "agentic", "run", "")
        .finish(RunOutcome::Failed("model_provider boom".to_string()));
    assert!(!result.success);
    assert_eq!(result.error.unwrap(), "Agent 'agentic' failed: model_provider boom");
}

#[test]
fn timeouts_come_from_the_profile_or_the_default() {
    let tool = DelegateTool::new(sample_agents(), None, test_security());
    let chat = job(&tool, "researcher", "test", "");
    assert_eq!(chat.run_mode(), RunMode::Chat);
    assert_eq!(chat.timeout_secs(), tool.delegate_config.timeout_secs);
    let result = chat.finish(RunOutcome::TimedOut);
    assert_eq!(
        result.error.unwrap(),
        format!(
            "Agent 'researcher' timed out after {}s",
            tool.delegate_config.timeout_secs
        )
    );
    let mut tool = agentic_tool(&["echo_tool"]);
    assert_eq!(
        job(&tool, "agentic", "run", "").timeout_secs(),
        tool.delegate_config.agentic_timeout_secs
    );
    let mut profiles = AliasTable::new();
    profiles.insert(
        "agentic_test".to_string(),
        RuntimeProfileConfig {
            agentic: true,
            agentic_timeout_secs: Some(45),
            ..Default::default()
        },
    );
    tool = tool.with_runtime_profiles(profiles);
    assert_eq!(job(&tool, "agentic", "run", "").timeout_secs(), 45);
}

#[test]
fn empty_replies_are_noted() {
    let tool = DelegateTool::new(sample_agents(), None, test_security());
    let chat = job(&tool, "researcher", "test", "");
    assert_eq!(
        chat.finish(RunOutcome::Replied(None)).output,
        "[Agent 'researcher' (ollama/)]\n[Empty response]"
    );
    assert_eq!(
        chat.finish(RunOutcome::Replied(Some(" \n".to_string()))).output,
        "[Agent 'researcher' (ollama/)]\n[Empty response]"
    );
    assert_eq!(
        chat.finish(RunOutcome::Replied(Some(" hi\n".to_string()))).output,
        "[Agent 'researcher' (ollama/)]\n hi\n"
    );
}

fn two_profile_tool(caller_profile: &str) -> DelegateTool {
    let mut config = Config::default();
    config.agents.insert(
        "caller".to_string(),
        AliasedAgentConfig {
            risk_profile: caller_profile.to_string(),
            ..Default::default()
        },
    );
    config.agents.insert("agentic".to_string(), agentic_agent_config());
    let mut policy = SecurityPolicy::default();
    policy.risk_profile_name = "agentic_test".to_string();
    policy.delegation_policy.mode = zeroclaw_agents::policy::DelegationMode::Allow;
    let mut tool = agentic_tool(&["echo_tool", " delegate "])
        .with_root_config(Arc::new(config))
        .with_caller_alias("caller");
    tool.security = Arc::new(policy);
    tool
}

#[test]
fn another_profile_runs_with_rebuilt_tools() {
    // The tool already carries the target's policy, as a detached run does; the
    // route still follows the calling agent's configured profile.
    let tool = two_profile_tool("router");
    let job = job(&tool, "agentic", "run", "");
    assert_eq!(job.run_mode(), RunMode::Rebuilt);
    let order = job.rebuild_order().ok().unwrap();
    assert_eq!(order.allowed_tools, vec!["echo_tool"]);
    assert_eq!(order.prompt, "run");
    assert!(Arc::ptr_eq(&order.config, tool.root_config.as_ref().unwrap()));
    assert!(order.is_subagent);
    assert_eq!(order.policy.tracker, tool.security.tracker);
}

#[test]
fn one_profile_runs_with_the_callers_tools() {
    let tool = two_profile_tool(" agentic_test ");
    assert_eq!(job(&tool, "agentic", "run", "").run_mode(), RunMode::InProcess);
}

#[test]
fn rebuilding_needs_a_config_and_tools() {
    let tool = agentic_tool(&["echo_tool"]);
    let answer = job(&tool, "agentic", "run", "").rebuild_order().err().unwrap();
    assert_eq!(
        answer.error.unwrap(),
        "Agent 'agentic' requires a loaded config for cross-profile agentic delegation"
    );
    let tool = two_profile_tool("router").with_risk_profiles(agentic_risk_profiles(vec![
        "delegate".to_string(),
    ]));
    let answer = job(&tool, "agentic", "run", "").rebuild_order().err().unwrap();
    assert_eq!(
        answer.error.unwrap(),
        "Agent 'agentic' is agentic cross-profile but resolves no non-`delegate` allowed_tools"
    );
}

#[test]
fn cleared_request_knows_its_provider() {
    let tool = agentic_tool(&["echo_tool"]);
    let cleared = tool
        .open_request("agentic", Dispatch::Foreground)
        .ok()
        .unwrap()
        .charge(Ok(()))
        .ok()
        .unwrap()
        .clear(&given(|_| Ok(SecurityPolicy::default())))
        .ok()
        .unwrap();
    let brain = cleared.brain();
    assert_eq!(brain.provider_type, "openrouter");
    assert_eq!(brain.model, "model-test");
    assert_eq!(brain.credential.as_deref(), Some("delegate-test-credential"));
    assert!(matches!(cleared.provider_options(), ProviderOptions::Inherited(_)));
    assert_eq!(cleared.agent_name(), "agentic");
}

#[test]
fn refusals_of_the_guard_are_answers() {
    let tool = two_profile_tool("router");
    let charged = tool
        .open_request("agentic", Dispatch::Background)
        .ok()
        .unwrap()
        .charge(Ok(()))
        .ok()
        .unwrap();
    let answer: ToolResult = charged.clear(&given(|_| Err("broken".to_string()))).err().unwrap();
    assert_eq!(
        answer.error.unwrap(),
        "could not resolve security policy for delegate target \"agentic\": broken"
    );
}

#[test]
fn recorded_replies_name_what_was_asked_for() {
    let tool = agentic_tool(&["echo_tool"]);
    let job = job(&tool, "agentic", "run", "");
    let event = job.response_event(
        Some(TokenUsage {
            input_tokens: Some(3),
            output_tokens: None,
        }),
        Some(ProviderFallback {
            actual_provider: "ollama".to_string(),
            actual_model: "small".to_string(),
        }),
    );
    assert_eq!(event.model_provider, "openrouter");
    assert_eq!(event.model, "model-test");
    assert_eq!(event.input_tokens, Some(3));
    assert_eq!(event.output_tokens, None);
    assert_eq!(event.actual_provider.as_deref(), Some("ollama"));
    assert_eq!(event.actual_model.as_deref(), Some("small"));
    let plain = job.response_event(None, None);
    assert_eq!(plain.input_tokens, None);
    assert_eq!(plain.actual_provider, None);
}

#[test]
fn refused_requests_are_neither_charged_nor_guarded() {
    let tool = DelegateTool::new(sample_agents(), None, test_security());
    let answer = tool
        .clear_request(
            "nonexistent",
            Dispatch::Foreground,
            |_| panic!("an unknown agent must not be charged"),
            &given(|_| panic!("an unknown agent must not be looked up")),
        )
        .err()
        .unwrap();
    assert!(answer.error.unwrap().starts_with("Unknown agent"));
    let answer = tool
        .clear_request(
            "researcher",
            Dispatch::Background,
            |admission| {
                assert_eq!(admission.agent_name(), "researcher");
                assert_eq!(admission.delegate_tool().depth, 0);
                Err("read-only mode".to_string())
            },
            &given(|_| panic!("a refused charge ends the request")),
        )
        .err()
        .unwrap();
    assert_eq!(answer.error.as_deref(), Some("read-only mode"));
    let deep = DelegateTool::with_depth(sample_agents(), None, test_security(), 3);
    let answer = deep
        .clear_request(
            "researcher",
            Dispatch::Foreground,
            |_| panic!("a request that goes too deep must not be charged"),
            &given(|_| panic!("a request that goes too deep must not be looked up")),
        )
        .err()
        .unwrap();
    assert!(answer.error.unwrap().contains("depth limit"));
}

#[test]
fn delegation_blocked_in_readonly_mode() {
    let tool = DelegateTool::new(sample_agents(), None, test_security());
    let result = tool
        .clear_request(
            "researcher",
            Dispatch::Foreground,
            |_| Err("Security policy: read-only mode, cannot perform 'delegate'".to_string()),
            &given(|_| Ok(SecurityPolicy::default())),
        )
        .err()
        .unwrap();
    assert!(!result.success);
    assert!(
        result
            .error
            .as_deref()
            .unwrap_or("")
            .contains("read-only mode")
    );
}

#[test]
fn delegation_blocked_when_rate_limited() {
    let tool = DelegateTool::new(sample_agents(), None, test_security());
    let result = tool
        .clear_request(
            "researcher",
            Dispatch::Foreground,
            |_| Err("Rate limit exceeded: action budget exhausted".to_string()),
            &given(|_| Ok(SecurityPolicy::default())),
        )
        .err()
        .unwrap();
    assert!(!result.success);
    assert!(
        result
            .error
            .as_deref()
            .unwrap_or("")
            .contains("Rate limit exceeded")
    );
}

#[test]
fn cleared_requests_carry_the_targets_policy() {
    let tool = two_profile_tool("agentic_test");
    let own = |name: &str| {
        assert_eq!(name, "agentic");
        let mut own = SecurityPolicy::default();
        own.risk_profile_name = "agentic_test".to_string();
        own.tracker = 9;
        Ok(own)
    };
    let cleared = tool
        .clear_request(
            "agentic",
            Dispatch::Foreground,
            |_| Ok(()),
            &given(own),
        )
        .ok()
        .unwrap();
    assert_eq!(cleared.target_policy().risk_profile_name, "agentic_test");
    assert_eq!(cleared.target_policy().tracker, tool.security.tracker);
}
