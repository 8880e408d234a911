use std::sync::Arc;

use zeroclaw_agents::delegate::DelegateTool;
use zeroclaw_agents::personality::{FileEntry, FileSnapshot};
use zeroclaw_agents::policy::SecurityPolicy;
use zeroclaw_agents::prompt::{
    opening_messages, plan_tools, ChatRole, SkillSources, IDENTITY_FILES, SHELL_POLICY,
};
use zeroclaw_agents::schema::{AliasedAgentConfig, Config, SkillBundleConfig};
use zeroclaw_agents::table::AliasTable;

fn tool() -> DelegateTool {
    DelegateTool::new(AliasTable::new(), None, Arc::new(SecurityPolicy::default()))
}

fn names(list: &[&str]) -> Vec<String> {
    list.iter().map(|n| n.to_string()).collect()
}

fn build(tool: &DelegateTool, tools: &[&str], operational: &str) -> Option<String> {
    tool.build_enriched_system_prompt(
        "alpha",
        &AliasedAgentConfig::default(),
        &names(tools),
        false,
        operational,
        &FileSnapshot::new(),
    )
}

#[test]
fn enriched_prompt_includes_shell_policy_when_shell_present() {
    let prompt = build(&tool(), &["shell"], "## Tools\n\n").unwrap();
    assert!(
        prompt.contains("## Shell Policy"),
        "should contain shell policy when shell tool is present"
    );
    assert_eq!(prompt, format!("## Tools\n\n{SHELL_POLICY}"));
}

#[test]
fn enriched_prompt_omits_shell_policy_without_shell_tool() {
    let prompt = build(&tool(), &["echo_tool"], "## Tools\n\n").unwrap();
    assert!(
        !prompt.contains("## Shell Policy"),
        "should not contain shell policy when shell tool is absent"
    );
    assert_eq!(prompt, "## Tools");
}

#[test]
fn a_blank_prompt_is_none() {
    assert_eq!(build(&tool(), &[], " \n"), None);
}

#[test]
fn strict_agents_are_told_of_no_tools() {
    let mut config = AliasedAgentConfig::default();
    config.resolved.strict_tool_parsing = true;
    let plan = plan_tools(&config, &names(&["shell"]), false);
    assert!(!plan.describes_tools);
    assert!(!plan.native);
    assert!(!plan.shell_policy);
    let native = plan_tools(&config, &names(&["shell"]), true);
    assert!(native.describes_tools && native.native && native.shell_policy);
    let empty = plan_tools(&config, &names(&[]), true);
    assert!(empty.describes_tools && !empty.native && !empty.shell_policy);
}

#[test]
fn identity_files_follow_the_operational_part() {
    let mut config = Config::default();
    config.install_root = "/opt/zc".to_string();
    let tool = tool().with_root_config(Arc::new(config));
    let paths = tool.identity_paths("alpha");
    assert_eq!(paths.len(), IDENTITY_FILES.len());
    assert_eq!(paths[0], "/opt/zc/agents/alpha/workspace/AGENTS.md");
    assert_eq!(paths[6], "/opt/zc/agents/alpha/workspace/MEMORY.md");
    let mut files = FileSnapshot::new();
    for (path, text) in [(&paths[0], " agents \n"), (&paths[2], "  "), (&paths[4], "tools")] {
        files.record(
            path.clone(),
            FileEntry {
                text: Some(text.to_string()),
                is_file: true,
            },
        );
    }
    let prompt = tool
        .build_enriched_system_prompt(
            "alpha",
            &AliasedAgentConfig::default(),
            &names(&[]),
            false,
            "ops\n\n",
            &files,
        )
        .unwrap();
    assert_eq!(prompt, "ops\n\nagents\n\ntools");
}

#[test]
fn no_identity_files_without_a_config() {
    assert!(tool().identity_paths("alpha").is_empty());
}

#[test]
fn enriched_prompt_loads_skills_from_scoped_directory() {
    let config = AliasedAgentConfig {
        skill_bundles: vec!["code_review".to_string()],
        ..Default::default()
    };
    let mut skill_bundles = AliasTable::new();
    skill_bundles.insert(
        "code_review".to_string(),
        SkillBundleConfig {
            directory: Some("skills/code-review".to_string()),
        },
    );
    let tool = tool().with_skill_bundles(skill_bundles);
    match tool.skill_sources(&config, "/ws") {
        SkillSources::Directories(dirs) => assert_eq!(dirs, vec!["/ws/skills/code-review"]),
        SkillSources::WorkspaceDefault => panic!("expected the bundle's directory"),
    }
}

#[test]
fn enriched_prompt_falls_back_to_default_skills_dir() {
    assert!(matches!(
        tool().skill_sources(&AliasedAgentConfig::default(), "/ws"),
        SkillSources::WorkspaceDefault
    ));
}

#[test]
fn runs_open_with_the_system_prompt_and_the_task() {
    let both = opening_messages(Some("sys".to_string()), "task");
    assert_eq!(both.len(), 2);
    assert_eq!(both[0].role, ChatRole::System);
    assert_eq!(both[0].content, "sys");
    assert_eq!(both[1].role, ChatRole::User);
    assert_eq!(both[1].content, "task");
    let alone = opening_messages(None, "task");
    assert_eq!(alone.len(), 1);
    assert_eq!(alone[0].role, ChatRole::User);
}
