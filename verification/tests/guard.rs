use std::sync::Arc;

use zeroclaw_agents::delegate::DelegateTool;
use zeroclaw_agents::evidence::GuardSteps;
use zeroclaw_agents::guard::GuardEvidence;
use zeroclaw_agents::policy::{DelegationMode, DelegationPolicy, SecurityPolicy};
use zeroclaw_agents::schema::{
    AccessMode, AliasedAgentConfig, Config, RiskProfileConfig, RuntimeProfileConfig,
};
use zeroclaw_agents::table::AliasTable;

/// The grants of a profile, as far as the guard compares them.
#[derive(Clone, Default)]
struct Grants {
    allowed_tools: Vec<String>,
    excluded_tools: Vec<String>,
    auto_approve: Vec<String>,
    always_ask: Vec<String>,
    sandbox_enabled: Option<bool>,
    sandbox_backend: Option<String>,
    firejail_args: Vec<String>,
}

fn listed(tools: &[String]) -> Option<Vec<String>> {
    if tools.is_empty() {
        None
    } else {
        Some(tools.to_vec())
    }
}

fn policy(profile: &str, grants: &Grants, allow: bool) -> SecurityPolicy {
    SecurityPolicy {
        risk_profile_name: profile.to_string(),
        delegation_policy: DelegationPolicy {
            mode: if allow {
                DelegationMode::Allow
            } else {
                DelegationMode::Forbidden
            },
        },
        allowed_tools: listed(&grants.allowed_tools),
        excluded_tools: listed(&grants.excluded_tools),
        auto_approve: grants.auto_approve.clone(),
        always_ask: grants.always_ask.clone(),
        sandbox_enabled: grants.sandbox_enabled,
        sandbox_backend: grants.sandbox_backend.clone(),
        firejail_args: grants.firejail_args.clone(),
        ..SecurityPolicy::default()
    }
}

struct Scene {
    caller: Grants,
    target: Grants,
    agentic: bool,
    escalation: Option<String>,
    caller_ws: Option<String>,
    target_ws: Option<String>,
    caller_canonical: Option<String>,
    target_canonical: Option<String>,
    permits: bool,
}

impl Default for Scene {
    fn default() -> Self {
        Scene {
            caller: Grants::default(),
            target: Grants::default(),
            agentic: false,
            escalation: None,
            caller_ws: None,
            target_ws: None,
            caller_canonical: None,
            target_canonical: None,
            permits: true,
        }
    }
}

fn scene_agents(scene: &Scene) -> AliasTable<AliasedAgentConfig> {
    let mut agents = AliasTable::new();
    let mut caller = AliasedAgentConfig {
        risk_profile: "c_rp".to_string(),
        model_provider: "ollama.caller".into(),
        ..AliasedAgentConfig::default()
    };
    caller.workspace.path = scene.caller_ws.clone();
    agents.insert("caller".to_string(), caller);
    let mut target = AliasedAgentConfig {
        risk_profile: "t_rp".to_string(),
        runtime_profile: if scene.agentic { "agentic_rt".to_string() } else { String::new() },
        model_provider: "ollama.target".into(),
        ..AliasedAgentConfig::default()
    };
    target.workspace.path = scene.target_ws.clone();
    agents.insert("target".to_string(), target);
    agents
}

fn scene_tool(scene: &Scene) -> DelegateTool {
    let mut config = Config::default();
    config.install_root = "/opt/zc".to_string();
    config.risk_profiles.insert(
        "c_rp".to_string(),
        RiskProfileConfig {
            allowed_tools: scene.caller.allowed_tools.clone(),
        },
    );
    config.risk_profiles.insert(
        "t_rp".to_string(),
        RiskProfileConfig {
            allowed_tools: scene.target.allowed_tools.clone(),
        },
    );
    config.runtime_profiles.insert(
        "agentic_rt".to_string(),
        RuntimeProfileConfig {
            agentic: true,
            ..RuntimeProfileConfig::default()
        },
    );
    config.agents = scene_agents(scene);
    DelegateTool::new(
        scene_agents(scene),
        None,
        Arc::new(policy("c_rp", &scene.caller, scene.permits)),
    )
    .with_root_config(Arc::new(config))
    .with_caller_alias("caller")
}

fn scene_evidence(scene: &Scene) -> GuardEvidence {
    GuardEvidence {
        caller_grants: policy("c_rp", &scene.caller, scene.permits),
        target_grants: policy("t_rp", &scene.target, false),
        escalation: scene.escalation.clone(),
        caller_canonical: scene.caller_canonical.clone(),
        target_canonical: scene.target_canonical.clone(),
    }
}

fn decide(scene: Scene) -> Result<Arc<SecurityPolicy>, String> {
    let tool = scene_tool(&scene);
    let evidence = scene_evidence(&scene);
    tool.policy_for_target(
        "target",
        Ok(policy("t_rp", &scene.target, false)),
        Some(&evidence),
    )
}

fn tools(names: &[&str]) -> Grants {
    Grants {
        allowed_tools: names.iter().map(|n| n.to_string()).collect(),
        ..Grants::default()
    }
}

fn agentic(caller: Grants, target: Grants) -> Result<Arc<SecurityPolicy>, String> {
    decide(Scene {
        caller,
        target,
        agentic: true,
        ..Scene::default()
    })
}

fn agentic_ws(caller_ws: &str, target_ws: &str) -> Result<Arc<SecurityPolicy>, String> {
    decide(Scene {
        target: tools(&["web_search_tool"]),
        agentic: true,
        caller_ws: Some(caller_ws.to_string()),
        target_ws: Some(target_ws.to_string()),
        ..Scene::default()
    })
}

#[test]
fn delegate_refuses_broader_target_cross_profile() {
    let err = decide(Scene {
        escalation: Some("max_actions_per_hour 50 > 5".to_string()),
        ..Scene::default()
    })
    .err()
    .expect("a broader cross-profile target must be rejected");
    assert!(
        err.contains("narrowing-only") && err.contains("escalate"),
        "expected an escalation/narrowing rejection, got: {err}"
    );
    assert_eq!(
        err,
        "delegate target \"target\" (risk profile \"t_rp\") would escalate beyond the caller's profile (\"c_rp\"): max_actions_per_hour 50 > 5. Delegation is narrowing-only — the target's permissions must be no broader than the caller's.",
    );
}

#[test]
fn delegate_target_inherits_caller_action_tracker() {
    let scene = Scene::default();
    let mut caller = policy("c_rp", &scene.caller, true);
    caller.tracker = 41;
    let mut tool = scene_tool(&scene);
    tool.security = Arc::new(caller);
    let mut resolved = policy("t_rp", &scene.target, false);
    resolved.tracker = 7;
    let evidence = scene_evidence(&scene);
    let target_policy = tool
        .policy_for_target("target", Ok(resolved), Some(&evidence))
        .unwrap();
    assert_eq!(target_policy.tracker, 41);
    assert_eq!(target_policy.risk_profile_name, "t_rp");
}

#[test]
fn delegate_without_root_config_falls_back_to_caller_policy() {
    let tool = DelegateTool::new(AliasTable::new(), None, Arc::new(SecurityPolicy::default()));
    let resolved = tool
        .policy_for_target("researcher", Err("unused".to_string()), None)
        .unwrap();
    assert!(
        Arc::ptr_eq(&resolved, &tool.security),
        "without root_config the helper returns the caller's Arc verbatim"
    );
}

#[test]
fn delegate_allows_narrower_nonagentic_target() {
    let resolved = decide(Scene::default()).unwrap();
    assert_eq!(
        resolved.risk_profile_name, "t_rp",
        "delegate must run under the target's policy, not the caller's"
    );
}

#[test]
fn delegate_allows_narrower_agentic_cross_profile() {
    let resolved = agentic(Grants::default(), tools(&["shell"])).unwrap();
    assert_eq!(resolved.risk_profile_name, "t_rp");
}

#[test]
fn delegate_refuses_tool_allowlist_broadening() {
    let err = agentic(tools(&["read_file"]), tools(&["read_file", "shell"]))
        .err()
        .unwrap();
    assert!(err.contains("narrowing-only"));
    assert_eq!(
        err,
        "delegate target \"target\" would authorize tool \"shell\", which the caller's profile (\"c_rp\") does not permit — delegation is narrowing-only.",
    );
}

#[test]
fn delegate_forbidden_policy_blocks_before_narrowing() {
    let err = decide(Scene {
        permits: false,
        ..Scene::default()
    })
    .err()
    .unwrap();
    assert!(err.contains("forbidden by the caller's delegation_policy"));
    assert_eq!(
        err,
        "delegation is forbidden by the caller's delegation_policy; set [risk_profiles.c_rp].delegation_policy mode = \"allow\"",
    );
}

#[test]
fn unresolved_target_policy_is_reported_first() {
    let scene = Scene {
        permits: false,
        ..Scene::default()
    };
    let tool = scene_tool(&scene);
    let err = tool
        .policy_for_target("target", Err("no such profile".to_string()), None)
        .err()
        .unwrap();
    assert_eq!(
        err,
        "could not resolve security policy for delegate target \"target\": no such profile",
    );
}

#[test]
fn unknown_target_is_refused() {
    let scene = Scene::default();
    let tool = scene_tool(&scene);
    let config = Arc::clone(tool.root_config.as_ref().unwrap());
    let err = tool
        .cross_profile_decision(&config, "nobody \"here\"", None)
        .unwrap_err();
    assert_eq!(err, "unknown delegate target \"nobody \\\"here\\\"\"");
}

#[test]
fn same_profile_passes_without_evidence() {
    let mut scene = Scene::default();
    scene.agentic = true;
    let mut tool = scene_tool(&scene);
    tool.security = Arc::new(policy("t_rp", &scene.caller, true));
    let config = Arc::clone(tool.root_config.as_ref().unwrap());
    assert!(tool.cross_profile_decision(&config, "target", None).is_ok());
}

#[test]
fn other_profile_needs_a_caller_and_evidence() {
    let scene = Scene::default();
    let wanted = "delegate target \"target\" uses risk profile \"t_rp\", but delegation requires the same risk profile as the caller (\"c_rp\"), or a target whose profile is no broader";
    let evidence = scene_evidence(&scene);

    let tool = scene_tool(&scene);
    let config = Arc::clone(tool.root_config.as_ref().unwrap());
    assert_eq!(tool.cross_profile_decision(&config, "target", None).unwrap_err(), wanted);

    let nameless = scene_tool(&scene).with_caller_alias("");
    assert_eq!(
        nameless
            .cross_profile_decision(&config, "target", Some(&evidence))
            .unwrap_err(),
        wanted
    );

    let stranger = scene_tool(&scene).with_caller_alias("stranger");
    assert_eq!(
        stranger
            .cross_profile_decision(&config, "target", Some(&evidence))
            .unwrap_err(),
        wanted
    );
}

#[test]
fn parameters_schema_advertises_narrower_nonagentic_target() {
    let scene = Scene::default();
    let tool = scene_tool(&scene);
    let mut evidence = AliasTable::new();
    evidence.insert("target".to_string(), scene_evidence(&scene));
    let schema = tool.parameters_schema(&evidence);
    let desc = &schema.property("agent").unwrap().description;
    assert!(
        desc.contains("target"),
        "narrower non-agentic target must be advertised: {desc}"
    );
}

#[test]
fn parameters_schema_hides_broader_target() {
    let scene = Scene {
        escalation: Some("max_actions_per_hour 50 > 5".to_string()),
        ..Scene::default()
    };
    let tool = scene_tool(&scene);
    let mut evidence = AliasTable::new();
    evidence.insert("target".to_string(), scene_evidence(&scene));
    let schema = tool.parameters_schema(&evidence);
    let desc = &schema.property("agent").unwrap().description;
    assert!(
        !desc.contains("target"),
        "broader target must NOT be advertised: {desc}"
    );
}

#[test]
fn parameters_schema_advertises_narrower_agentic_target() {
    let scene = Scene {
        target: tools(&["shell"]),
        agentic: true,
        ..Scene::default()
    };
    let tool = scene_tool(&scene);
    let mut evidence = AliasTable::new();
    evidence.insert("target".to_string(), scene_evidence(&scene));
    let schema = tool.parameters_schema(&evidence);
    let desc = &schema.property("agent").unwrap().description;
    assert!(
        desc.contains("target"),
        "narrower agentic target must be advertised: {desc}"
    );
}

#[test]
fn delegate_refuses_relaxed_tool_approval_sandbox_dims() {
    let base = || tools(&["web_search_tool"]);

    // (a) The target re-authorizes a tool that the caller excludes.
    let mut caller = tools(&["web_search_tool", "shell"]);
    caller.excluded_tools = vec!["shell".into()];
    let err = agentic(caller, tools(&["web_search_tool", "shell"])).err().unwrap();
    assert!(err.contains("narrowing-only"), "{err}");

    // (b) The caller restricts its tools, the target does not.
    let err = agentic(tools(&["read_file"]), Grants::default()).err().unwrap();
    assert!(err.contains("narrowing-only"), "{err}");
    assert!(err.contains("every tool (the target has no allowed_tools allowlist while the caller restricts to one)"));

    // (c) The target approves a tool by itself that the caller does not.
    let mut target = base();
    target.auto_approve.push("shell".into());
    let err = agentic(base(), target).err().unwrap();
    assert!(err.contains("auto-approves"), "{err}");

    // (d) The target drops an always-ask of the caller.
    let mut caller = base();
    caller.always_ask = vec!["file_write".into()];
    let err = agentic(caller, base()).err().unwrap();
    assert!(err.contains("always-ask"), "{err}");

    // (e) The sandbox of the caller is active by default, that of the target off.
    let mut caller = base();
    caller.sandbox_backend = Some("firejail".into());
    let mut target = base();
    target.sandbox_backend = Some("firejail".into());
    target.sandbox_enabled = Some(false);
    let err = agentic(caller.clone(), target).err().unwrap();
    assert!(err.contains("unsandboxed"), "{err}");

    // (e2) The backend `none` is no sandbox.
    let mut target = base();
    target.sandbox_backend = Some("none".into());
    let err = agentic(caller.clone(), target).err().unwrap();
    assert!(err.contains("unsandboxed"), "{err}");

    // (e3) Arguments for firejail do not count.
    let mut with_args = caller.clone();
    with_args.firejail_args = vec!["--net=none".into()];
    let mut target = base();
    target.sandbox_backend = Some("firejail".into());
    target.firejail_args = vec!["--net=none".into(), "--noprofile".into()];
    assert!(agentic(with_args, target).is_ok());

    // (e4) An identical sandbox passes.
    let mut target = base();
    target.sandbox_backend = Some("firejail".into());
    assert!(agentic(caller, target).is_ok());

    // (f) A narrower allowlist passes.
    assert!(agentic(tools(&["web_search_tool", "shell"]), base()).is_ok());
}

#[test]
fn another_backend_is_not_provably_narrower() {
    let mut caller = tools(&["web_search_tool"]);
    caller.sandbox_backend = Some("firejail".into());
    let mut target = tools(&["web_search_tool"]);
    target.sandbox_backend = Some(" Docker ".into());
    let err = agentic(caller, target).err().unwrap();
    assert!(
        err.contains("uses sandbox backend \"docker\" where the caller uses \"firejail\""),
        "{err}"
    );
}

#[test]
fn star_stands_for_every_tool() {
    let mut caller = tools(&["web_search_tool"]);
    caller.auto_approve = vec!["*".into()];
    let mut target = tools(&["web_search_tool"]);
    target.auto_approve = vec!["shell".into(), "*".into()];
    assert!(agentic(caller.clone(), target.clone()).is_ok());
    // A caller without the blanket does not cover a target with it.
    caller.auto_approve = vec!["shell".into()];
    let err = agentic(caller.clone(), target).err().unwrap();
    assert!(err.contains("auto-approves \"*\""), "{err}");
    // A target that always asks keeps every single request to ask.
    caller.always_ask = vec!["shell".into(), "file_write".into()];
    let mut asking = tools(&["web_search_tool"]);
    asking.always_ask = vec!["*".into()];
    assert!(agentic(caller, asking).is_ok());
}

#[test]
fn excluded_tools_count_where_neither_side_has_an_allowlist() {
    let caller = policy(
        "c",
        &Grants {
            excluded_tools: vec!["shell".into()],
            ..Grants::default()
        },
        true,
    );
    let target = policy("t", &Grants::default(), false);
    assert_eq!(
        DelegateTool::target_tools_within_caller(&caller, &target).unwrap_err(),
        "tool \"shell\" (which the caller excludes)",
    );
    assert!(DelegateTool::target_tools_within_caller(&target, &caller).is_ok());
    assert!(DelegateTool::target_tools_within_caller(&caller, &caller).is_ok());
}

#[test]
fn sandbox_backends_are_normalised() {
    let token = |setting: Option<&str>| {
        let mut p = SecurityPolicy::default();
        p.sandbox_backend = setting.map(String::from);
        DelegateTool::resolved_sandbox_backend(&p)
    };
    assert_eq!(token(None), "auto");
    assert_eq!(token(Some("  ")), "auto");
    assert_eq!(token(Some("AUTO")), "auto");
    assert_eq!(token(Some("Landlock")), "landlock");
    assert_eq!(token(Some("bubblewrap ")), "bubblewrap");
    assert_eq!(token(Some("sandbox-exec")), "sandbox-exec");
    assert_eq!(token(Some("SandboxExec")), "sandbox-exec");
    assert_eq!(token(Some("seatbelt")), "sandbox-exec");
    assert_eq!(token(Some("none")), "none");
    assert_eq!(token(Some("gvisor")), "auto");
    let mut off = SecurityPolicy::default();
    assert!(DelegateTool::effectively_sandboxed(&off));
    off.sandbox_enabled = Some(false);
    assert!(!DelegateTool::effectively_sandboxed(&off));
}

#[test]
fn delegate_allows_nonagentic_target_despite_tool_approval_mismatch() {
    let mut caller = tools(&["delegate"]);
    caller.auto_approve = vec!["delegate".into()];
    let mut target = Grants::default();
    target.auto_approve = vec!["file_read".into(), "shell".into(), "web_search_tool".into()];
    let resolved = decide(Scene {
        caller,
        target,
        ..Scene::default()
    })
    .unwrap();
    assert_eq!(
        resolved.risk_profile_name, "t_rp",
        "non-agentic delegate runs under its own policy"
    );
}

#[test]
fn delegate_allows_narrower_agentic_with_explicit_allowlist() {
    let resolved = agentic(
        tools(&["delegate", "web_search_tool"]),
        tools(&["web_search_tool"]),
    )
    .unwrap();
    assert_eq!(
        resolved.risk_profile_name, "t_rp",
        "agentic delegate must run under the target's own policy"
    );
}

#[test]
fn delegate_refuses_agentic_cross_profile_without_explicit_allowlist() {
    let err = agentic(Grants::default(), Grants::default()).err().unwrap();
    assert!(
        err.contains("explicit tool allowlist"),
        "expected explicit-allowlist refusal, got: {err}"
    );
}

#[test]
fn a_list_of_delegate_alone_is_no_allowlist() {
    let err = agentic(Grants::default(), tools(&["delegate", "  "])).err().unwrap();
    assert!(err.contains("declares no explicit non-`delegate` allowed_tools"), "{err}");
}

#[test]
fn delegate_agentic_own_workspace_breadth_gate() {
    // (a) the target's own workspace is a strict ancestor of the caller's.
    let err = agentic_ws("/srv/zc/agents/caller/ws", "/srv/zc/agents").err().unwrap();
    assert!(
        err.contains("broader than"),
        "expected workspace-breadth refusal, got: {err}"
    );
    assert_eq!(
        err,
        "delegate target \"target\" is agentic and its own workspace \"/srv/zc/agents\" (resolves to \"/srv/zc/agents\") contains (is broader than) the caller's workspace \"/srv/zc/agents/caller/ws\" (resolves to \"/srv/zc/agents/caller/ws\"); its filesystem-capable tools would reach a superset of the caller's region. Delegation is narrowing-only.",
    );

    // (b) a distinct, non-nested sibling workspace passes.
    let resolved = agentic_ws("/srv/zc/agents/caller/ws", "/srv/zc/agents/target/ws").unwrap();
    assert_eq!(resolved.risk_profile_name, "t_rp");

    // (c) a descendant of the caller's workspace passes.
    let resolved = agentic_ws("/srv/zc/shared", "/srv/zc/shared/sub").unwrap();
    assert_eq!(resolved.risk_profile_name, "t_rp");

    // (d) identical workspaces pass.
    let resolved = agentic_ws("/srv/zc/same", "/srv/zc/same").unwrap();
    assert_eq!(resolved.risk_profile_name, "t_rp");

    // Paths are shown as the debug form of a path writes them.
    let err = agentic_ws("/srv/it's \"here\"/ws", "/srv/it's \"here\"").err().unwrap();
    let shown = format!("{:?}", std::path::Path::new("/srv/it's \"here\""));
    assert!(err.contains(&format!("its own workspace {shown} (resolves to {shown})")), "{err}");

    // A name that only begins alike is not an ancestor.
    assert!(agentic_ws("/srv/zc/agents2/ws", "/srv/zc/agents").is_ok());
}

#[test]
fn canonical_workspaces_decide_where_they_exist() {
    // Literally below the caller's workspace, but resolving above it.
    let err = decide(Scene {
        target: tools(&["web_search_tool"]),
        agentic: true,
        caller_ws: Some("/root/agents/caller/ws".to_string()),
        target_ws: Some("/root/agents/caller/ws/escape".to_string()),
        caller_canonical: Some("/root/agents/caller/ws".to_string()),
        target_canonical: Some("/root".to_string()),
        ..Scene::default()
    })
    .err()
    .unwrap();
    assert!(err.contains("broader than"), "{err}");
    assert_eq!(
        DelegateTool::workspace_jail("/a/link", &Some("/a/real".to_string())),
        "/a/real"
    );
    assert_eq!(DelegateTool::workspace_jail("/a/ghost", &None), "/a/ghost");
}

#[test]
fn agentic_rebuild_allowlist_strips_delegate_and_blanks() {
    let got = DelegateTool::agentic_rebuild_allowlist(&vec![
        "web_search_tool".into(),
        "  ".into(),
        "delegate".into(),
        " read_file ".into(),
    ]);
    assert_eq!(
        got,
        vec!["web_search_tool".to_string(), "read_file".to_string()],
        "rebuild allowlist must trim, drop blanks, and strip `delegate`"
    );
    // A target whose only tool is `delegate` yields an empty rebuild set
    // (the guard refuses such a target — no re-delegation, no zero-tool run).
    assert!(
        DelegateTool::agentic_rebuild_allowlist(&vec!["delegate".into()]).is_empty(),
        "a delegate-only allowlist must rebuild to the empty set"
    );
}

#[test]
fn grants_hold_the_siblings_that_an_agent_may_use() {
    let mut config = Config::default();
    config.install_root = "/opt/zc".to_string();
    config
        .risk_profiles
        .insert("t_rp".to_string(), RiskProfileConfig::default());
    let mut agent = AliasedAgentConfig {
        risk_profile: " t_rp ".to_string(),
        ..AliasedAgentConfig::default()
    };
    agent.workspace.access.insert("r".to_string(), AccessMode::Read);
    agent.workspace.access.insert("w".to_string(), AccessMode::Write);
    agent.workspace.access.insert("rw".to_string(), AccessMode::ReadWrite);
    agent.workspace.unrestricted_filesystem = true;
    config.agents.insert("target".to_string(), agent);
    config.agents.insert("loose".to_string(), AliasedAgentConfig::default());

    let mut base = SecurityPolicy::default();
    base.allowed_roots = vec!["/data".to_string()];
    base.tracker = 9;
    let grants = DelegateTool::profile_grants(&config, "target", base).unwrap();
    assert_eq!(grants.risk_profile_name, "t_rp");
    assert_eq!(grants.allowed_roots, vec!["/data", "/opt/zc/agents/rw/workspace"]);
    assert_eq!(grants.allowed_roots_read_only, vec!["/opt/zc/agents/r/workspace"]);
    assert_eq!(grants.allowed_roots_write_only, vec!["/opt/zc/agents/w/workspace"]);
    assert!(!grants.workspace_only);
    assert_eq!(grants.tracker, 9);

    assert!(DelegateTool::profile_grants(&config, "loose", SecurityPolicy::default()).is_none());
    assert!(DelegateTool::profile_grants(&config, "nobody", SecurityPolicy::default()).is_none());
}

#[test]
fn evidence_is_gathered_for_caller_and_target() {
    let scene = Scene {
        caller_ws: Some("/ws/caller".to_string()),
        target_ws: Some("/ws/target".to_string()),
        agentic: true,
        ..Scene::default()
    };
    let tool = scene_tool(&scene);
    let config = Arc::clone(tool.root_config.as_ref().unwrap());
    // What a step is asked about is kept in its answer, so that it can be seen.
    let steps = GuardSteps {
        resolve: |_: &Config, alias: &str| {
            let mut own = SecurityPolicy::default();
            own.allowed_roots = vec![format!("own of {alias}")];
            Ok(own)
        },
        base: |config: &Config, risk: &str, runtime: &str, workspace: &str| {
            let mut policy = SecurityPolicy::default();
            policy.allowed_roots = vec![
                config.install_root.clone(),
                workspace.to_string(),
                risk.to_string(),
                runtime.to_string(),
            ];
            policy
        },
        equip: |_: &Config, alias: &str, mut policy: SecurityPolicy| {
            policy.auto_approve.push(alias.to_string());
            policy
        },
        compare: |target: &SecurityPolicy, caller: &SecurityPolicy| {
            Some(format!("{} > {}", target.risk_profile_name, caller.risk_profile_name))
        },
        canonical: |dir: &str| Some(format!("/real{dir}")),
    };
    let evidence = steps.gather_evidence(&tool, &config, "target").unwrap();
    assert_eq!(evidence.caller_grants.risk_profile_name, "c_rp");
    assert_eq!(
        evidence.caller_grants.allowed_roots,
        vec!["/opt/zc", "/__zc_delegate_grant_cmp__", "c_rp", ""]
    );
    assert_eq!(evidence.caller_grants.auto_approve, vec!["caller"]);
    assert_eq!(
        evidence.target_grants.allowed_roots,
        vec!["/opt/zc", "/__zc_delegate_grant_cmp__", "t_rp", "agentic_rt"]
    );
    assert_eq!(evidence.target_grants.auto_approve, vec!["target"]);
    assert_eq!(evidence.escalation.as_deref(), Some("t_rp > c_rp"));
    assert_eq!(evidence.caller_canonical.as_deref(), Some("/real/ws/caller"));
    assert_eq!(evidence.target_canonical.as_deref(), Some("/real/ws/target"));
    assert!(steps.gather_evidence(&tool, &config, "nobody").is_none());
    let stranger = scene_tool(&scene).with_caller_alias("stranger");
    assert!(steps.gather_evidence(&stranger, &config, "target").is_none());

    let all = steps.gather_all_evidence(&tool, &config);
    assert_eq!(all.names(), vec!["caller", "target"]);
    let own = all.get("target").unwrap();
    assert_eq!(own.escalation.as_deref(), Some("t_rp > c_rp"));
    assert_eq!(own.target_canonical.as_deref(), Some("/real/ws/target"));

    // The decision rests on that evidence.
    let err = steps.judge_target(&tool, "target").err().unwrap();
    assert_eq!(
        err,
        "delegate target \"target\" (risk profile \"t_rp\") would escalate beyond the caller's profile (\"c_rp\"): t_rp > c_rp. Delegation is narrowing-only — the target's permissions must be no broader than the caller's.",
    );
    let policy = steps.judge_target(&tool, "caller").unwrap();
    assert_eq!(policy.allowed_roots, vec!["own of caller"]);
    let plain = DelegateTool::new(AliasTable::new(), None, Arc::clone(&tool.security));
    let policy = steps.judge_target(&plain, "target").unwrap();
    assert!(Arc::ptr_eq(&policy, &tool.security));
}
