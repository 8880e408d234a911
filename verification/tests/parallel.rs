use std::sync::Arc;

use zeroclaw_agents::arguments::{read_arguments, CallArguments};
use zeroclaw_agents::delegate::DelegateTool;
use zeroclaw_agents::evidence::GuardSteps;
use zeroclaw_agents::parallel::{AgentOutcome, ParallelPlan};
use zeroclaw_agents::policy::{DelegationMode, SecurityPolicy};
use zeroclaw_agents::reply::{Step, ToolResult};
use zeroclaw_agents::schema::{AliasedAgentConfig, Config};
use zeroclaw_agents::table::AliasTable;

fn sample_agents() -> AliasTable<AliasedAgentConfig> {
    let mut agents = AliasTable::new();
    agents.insert("researcher".to_string(), AliasedAgentConfig::default());
    agents.insert("coder".to_string(), AliasedAgentConfig::default());
    agents
}

fn tool() -> DelegateTool {
    DelegateTool::new(sample_agents(), None, Arc::new(SecurityPolicy::default()))
}

fn plan<'a>(tool: &'a DelegateTool, json: &str) -> Result<Step<ParallelPlan<'a>>, String> {
    let call: CallArguments = read_arguments(&serde_json::from_str(json).unwrap());
    let items = call.parallel.clone().unwrap();
    tool.execute_parallel(&items, &call)
}

fn refused(tool: &DelegateTool, json: &str) -> String {
    match plan(tool, json).unwrap() {
        Step::Answer(answer) => {
            assert!(!answer.success);
            answer.error.unwrap()
        }
        Step::Go(_) => panic!("expected a refusal"),
    }
}

#[test]
fn parallel_empty_list_rejected() {
    let error = refused(&tool(), r#"{"parallel": [], "prompt": "test"}"#);
    assert!(error.contains("at least one agent"));
    let error = refused(&tool(), r#"{"parallel": [" ", 7, null], "prompt": "test"}"#);
    assert_eq!(error, "'parallel' array must contain at least one agent name");
}

#[test]
fn parallel_unknown_agent_rejected() {
    let error = refused(
        &tool(),
        r#"{"parallel": ["researcher", "nonexistent"], "prompt": "test"}"#,
    );
    assert!(error.contains("Unknown agent"));
    assert_eq!(
        error,
        "Unknown agent 'nonexistent' in parallel list. Available: researcher, coder"
    );
}

#[test]
fn parallel_missing_prompt_rejected() {
    let tool = tool();
    let result = plan(&tool, r#"{"parallel": ["researcher"]}"#);
    assert_eq!(
        result.err().unwrap(),
        "Missing 'prompt' parameter for parallel execution"
    );
}

#[test]
fn parallel_blank_prompt_rejected() {
    let error = refused(&tool(), r#"{"parallel": ["researcher"], "prompt": " "}"#);
    assert_eq!(error, "'prompt' parameter must not be empty");
}

/// Steps of the guard under which every agent resolves as given.
fn given(
    resolve: impl Fn(&str) -> Result<SecurityPolicy, String>,
) -> GuardSteps<
    impl Fn(&Config, &str) -> Result<SecurityPolicy, String>,
    impl Fn(&Config, &str, &str, &str) -> SecurityPolicy,
    impl Fn(&Config, &str, SecurityPolicy) -> SecurityPolicy,
    impl Fn(&SecurityPolicy, &SecurityPolicy) -> Option<String>,
    impl Fn(&str) -> Option<String>,
> {
    GuardSteps {
        resolve: move |_: &Config, name: &str| resolve(name),
        base: |_: &Config, _: &str, _: &str, _: &str| SecurityPolicy::default(),
        equip: |_: &Config, _: &str, policy: SecurityPolicy| policy,
        compare: |_: &SecurityPolicy, _: &SecurityPolicy| None,
        canonical: |_: &str| None,
    }
}

fn planned<'a>(tool: &'a DelegateTool, json: &str) -> ParallelPlan<'a> {
    match plan(tool, json).unwrap() {
        Step::Go(plan) => plan,
        Step::Answer(answer) => panic!("unexpected answer: {answer:?}"),
    }
}

/// A tool with a configuration, so that every agent goes through the guard.
fn guarded_tool() -> DelegateTool {
    let mut policy = SecurityPolicy::default();
    policy.delegation_policy.mode = DelegationMode::Allow;
    let mut config = Config::default();
    config.agents = sample_agents();
    DelegateTool::new(sample_agents(), None, Arc::new(policy)).with_root_config(Arc::new(config))
}

#[test]
fn parallel_agents_go_through_the_guard_in_order() {
    let tool = guarded_tool();
    let plan = planned(
        &tool,
        r#"{"parallel": [" coder ", "researcher"], "prompt": " test "}"#,
    );
    let asked = std::cell::RefCell::new(Vec::new());
    let plan = plan
        .clear_all(&given(|name| {
            asked.borrow_mut().push(name.to_string());
            let mut own = SecurityPolicy::default();
            own.tracker = 5;
            own.allowed_roots = vec![name.to_string()];
            Ok(own)
        }))
        .ok()
        .unwrap();
    assert_eq!(*asked.borrow(), vec!["coder", "researcher"]);
    assert_eq!(plan.agents(), &vec!["coder".to_string(), "researcher".to_string()]);
    assert_eq!(plan.shared_prompt(), "test");
    assert_eq!(plan.worker(0).security.allowed_roots, vec!["coder"]);
    assert_eq!(plan.worker(1).security.allowed_roots, vec!["researcher"]);
    assert_eq!(plan.worker(1).security.tracker, 0);
}

#[test]
fn parallel_agents_share_the_callers_policy_without_a_config() {
    let tool = tool();
    let plan = planned(&tool, r#"{"parallel": ["coder"], "prompt": "test"}"#)
        .clear_all(&given(|_| panic!("there is nothing to resolve from")))
        .ok()
        .unwrap();
    assert!(Arc::ptr_eq(&plan.worker(0).security, &tool.security));
}

#[test]
fn one_refusal_ends_a_parallel_request() {
    let tool = guarded_tool();
    let json = r#"{"parallel": ["coder", "researcher", "coder"], "prompt": "test"}"#;
    let asked = std::cell::RefCell::new(0);
    let answer = planned(&tool, json)
        .clear_all(&given(|name| {
            *asked.borrow_mut() += 1;
            if name == "coder" {
                Ok(SecurityPolicy::default())
            } else {
                Err("broken".to_string())
            }
        }))
        .err()
        .unwrap();
    assert!(!answer.success);
    assert_eq!(answer.output, "");
    assert_eq!(
        answer.error.unwrap(),
        "could not resolve security policy for delegate target \"researcher\": broken"
    );
    assert_eq!(*asked.borrow(), 2);
}

fn answered(success: bool, output: &str, error: Option<&str>) -> AgentOutcome {
    AgentOutcome::Answered(ToolResult {
        success,
        output: output.to_string(),
        error: error.map(String::from),
    })
}

fn finished(json: &str, outcomes: Vec<AgentOutcome>) -> ToolResult {
    let tool = tool();
    let plan = planned(&tool, json)
        .clear_all(&given(|_| Ok(SecurityPolicy::default())))
        .ok()
        .unwrap();
    assert_eq!(plan.agents().len(), outcomes.len());
    plan.finish(&outcomes)
}

#[test]
fn parallel_success_needs_every_agent() {
    let result = finished(
        r#"{"parallel": ["researcher", "coder"], "prompt": "test"}"#,
        vec![answered(true, "one", None), answered(true, "two", None)],
    );
    assert!(result.success);
    assert_eq!(result.error, None);
    assert_eq!(
        result.output,
        "[Parallel delegation: 2 agents]\n\n--- researcher (success=true) ---\none\n\n--- coder (success=true) ---\ntwo"
    );
}

#[test]
fn parallel_failures_are_told_one_by_one() {
    let result = finished(
        r#"{"parallel": ["coder", "researcher", "coder", "researcher"], "prompt": "test"}"#,
        vec![
            answered(false, "", Some("no model")),
            AgentOutcome::Broken("disk".to_string()),
            AgentOutcome::Lost("task panicked".to_string()),
            answered(true, "fine", None),
        ],
    );
    assert!(!result.success);
    assert_eq!(
        result.error.as_deref(),
        Some("One or more parallel agents failed")
    );
    assert_eq!(
        result.output,
        "[Parallel delegation: 4 agents]\n\n--- coder (success=false) ---\n\nError: no model\n\n--- researcher (success=false) ---\nError: disk\n\n--- [join error] ---\ntask panicked\n\n--- researcher (success=true) ---\nfine"
    );
}

#[test]
fn parallel_runs_end_with_their_session() {
    let tool = tool();
    let plan = planned(&tool, r#"{"parallel": ["coder"], "prompt": "test"}"#)
        .clear_all(&given(|_| Ok(SecurityPolicy::default())))
        .ok()
        .unwrap();
    let worker = plan.worker(0);
    assert!(!worker.cancellation_token().is_cancelled());
    tool.cancel_all_background_tasks();
    assert!(worker.cancellation_token().is_cancelled());
}
