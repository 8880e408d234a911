//! The prompts that a delegated agent is given.

use vstd::prelude::*;

use crate::delegate;
use crate::delegate::DelegateTool;
use crate::paths;
use crate::personality;
use crate::personality::FileSnapshot;
use crate::schema::AliasedAgentConfig;
use crate::text;

verus! {

/// The identity files of an agent's workspace that its prompt holds, in order.
pub const IDENTITY_FILES: [&'static str; 7] = [
    "AGENTS.md",
    "SOUL.md",
    "IDENTITY.md",
    "USER.md",
    "TOOLS.md",
    "BOOTSTRAP.md",
    "MEMORY.md",
];

/// What an agent that has the `shell` tool is told.
pub const SHELL_POLICY: &'static str =
    "## Shell Policy\n\n- Prefer non-destructive commands. Use `trash` over `rm` where possible.\n- Do not run commands that exfiltrate data or modify system-critical paths.\n- Avoid interactive commands that block on stdin.\n- Quote paths that may contain spaces.";

/// Where the skills of an agent are read from.
pub enum SkillSources {
    /// The default directory of the workspace.
    WorkspaceDefault,
    /// These directories, in order.
    Directories(Vec<String>),
}

/// Directories taken from a workspace.
pub open spec fn below(workspace_dir: Seq<char>, dirs: Seq<Seq<char>>) -> Seq<Seq<char>> {
    dirs.map_values(|dir: Seq<char>| paths::joined(workspace_dir, dir))
}

/// Whether the prompt may describe tools: where they are sent natively, or the
/// agent may write tool calls as text.
pub open spec fn describes_tools(agent: AliasedAgentConfig, sends_native: bool) -> bool {
    sends_native || !agent.resolved.strict_tool_parsing
}

/// What the prompt of an agent says about its tools.
pub struct ToolPrompt {
    /// Whether the tools are described.
    pub describes_tools: bool,
    /// Whether the prompt says that tools are sent natively.
    pub native: bool,
    /// Whether the shell policy is part of the prompt.
    pub shell_policy: bool,
}

/// The shell policy as a part of a prompt.
pub open spec fn shell_part(shell_policy: bool) -> Seq<char> {
    if shell_policy {
        SHELL_POLICY@ + "\n\n"@
    } else {
        seq![]
    }
}

/// The files of a workspace as a part of a prompt: each one that is not blank,
/// trimmed, followed by an empty line.
pub open spec fn identity_part(
    files: FileSnapshot,
    workspace_dir: Seq<char>,
    names: Seq<Seq<char>>,
) -> Seq<char>
    decreases names.len(),
{
    if names.len() == 0 {
        seq![]
    } else {
        let before = identity_part(files, workspace_dir, names.drop_last());
        match personality::layer_file(files, workspace_dir, names.last()) {
            Some((path, content)) => before + content + "\n\n"@,
            None => before,
        }
    }
}

/// The parts of a prompt put together, without surrounding whitespace.
pub open spec fn whole_prompt(
    operational: Seq<char>,
    shell_policy: bool,
    identity: Seq<char>,
) -> Option<Seq<char>> {
    let all = text::trimmed(operational + shell_part(shell_policy) + identity);
    if all.len() == 0 {
        None
    } else {
        Some(all)
    }
}

/// Who says a message.
#[derive(Debug, Clone, Copy, PartialEq, Eq, Structural)]
pub enum ChatRole {
    System,
    User,
}

/// A message to a model.
#[derive(Debug)]
pub struct ChatMessage {
    pub role: ChatRole,
    pub content: String,
}

/// The messages that open a run, as texts.
pub open spec fn opening(system: Option<Seq<char>>, prompt: Seq<char>) -> Seq<
    (ChatRole, Seq<char>),
> {
    match system {
        Some(system) => seq![(ChatRole::System, system), (ChatRole::User, prompt)],
        None => seq![(ChatRole::User, prompt)],
    }
}

/// Messages as texts.
pub open spec fn messages_view(messages: Seq<ChatMessage>) -> Seq<(ChatRole, Seq<char>)> {
    messages.map_values(|m: ChatMessage| (m.role, m.content@))
}

/// The messages that open a run: the system prompt, where there is one, and the
/// task.
pub fn opening_messages(system: Option<String>, prompt: &str) -> (r: Vec<ChatMessage>)
    ensures
        messages_view(r@) == opening(text::optional(system), prompt@),
{
    let mut out: Vec<ChatMessage> = Vec::new();
    let ghost shown = text::optional(system);
    if let Some(system) = system {
        out.push(ChatMessage { role: ChatRole::System, content: system });
    }
    out.push(ChatMessage { role: ChatRole::User, content: prompt.to_owned() });
    assert(messages_view(out@) =~= opening(shown, prompt@));
    out
}

/// What the prompt of an agent says about its tools.
pub fn plan_tools(
    agent_config: &AliasedAgentConfig,
    tool_names: &Vec<String>,
    sends_native_tool_specs: bool,
) -> (r: ToolPrompt)
    ensures
        r.describes_tools == describes_tools(*agent_config, sends_native_tool_specs),
        r.native == (sends_native_tool_specs && r.describes_tools && tool_names.len() > 0),
        r.shell_policy == (r.describes_tools && tool_names.deep_view().contains("shell"@)),
{
    let describes_tools = sends_native_tool_specs || !agent_config.resolved.strict_tool_parsing;
    let native = sends_native_tool_specs && describes_tools && tool_names.len() > 0;
    let shell_policy = describes_tools && text::listed(tool_names, "shell");
    ToolPrompt { describes_tools, native, shell_policy }
}

/// The files of a workspace as a part of a prompt.
fn identity_text(files: &FileSnapshot, workspace_dir: &str) -> (r: String)
    ensures
        r@ == identity_part(*files, workspace_dir@, personality::names_of(IDENTITY_FILES@)),
{
    let names: &[&str] = IDENTITY_FILES.as_slice();
    let ghost all = personality::names_of(names@);
    let mut out = String::new();
    let mut i: usize = 0;
    assert(out@ =~= identity_part(*files, workspace_dir@, all.take(0)));
    while i < names.len()
        invariant
            i <= names.len(),
            all == personality::names_of(names@),
            out@ == identity_part(*files, workspace_dir@, all.take(i as int)),
        decreases names.len() - i,
    {
        let name: &str = names[i];
        let ghost next = all.take(i + 1);
        assert(next.drop_last() =~= all.take(i as int));
        assert(next.last() == name@);
        if let Some((path, content)) = personality::read_trimmed(files, workspace_dir, name) {
            out.append(&content);
            out.append("\n\n");
        }
        i += 1;
    }
    assert(all.take(all.len() as int) =~= all);
    out
}

impl DelegateTool {
    /// Where the skills of an agent are read from: the directories of its skill
    /// bundles, else the default of the workspace.
    pub fn skill_sources(&self, agent_config: &AliasedAgentConfig, workspace_dir: &str) -> (r:
        SkillSources)
        ensures
            ({
                let dirs = delegate::skill_dirs_for(
                    *self.skill_bundles,
                    agent_config.skill_bundles.deep_view(),
                );
                match r {
                    SkillSources::WorkspaceDefault => dirs.len() == 0,
                    SkillSources::Directories(found) => dirs.len() > 0 && found.deep_view()
                        == below(workspace_dir@, dirs),
                }
            }),
    {
        let dirs = self.resolve_skill_bundle_dirs(&agent_config.skill_bundles);
        let ghost all = dirs.deep_view();
        assert(all.len() == dirs.len());
        if dirs.len() == 0 {
            return SkillSources::WorkspaceDefault;
        }
        let mut out: Vec<String> = Vec::new();
        let mut i: usize = 0;
        while i < dirs.len()
            invariant
                i <= dirs.len(),
                all == dirs.deep_view(),
                out.deep_view() == below(workspace_dir@, all).take(i as int),
            decreases dirs.len() - i,
        {
            let ghost before = out.deep_view();
            out.push(paths::join(workspace_dir, &dirs[i]));
            assert(out.deep_view() =~= before.push(paths::joined(workspace_dir@, all[i as int])));
            assert(below(workspace_dir@, all).take(i + 1) =~= below(workspace_dir@, all).take(
                i as int,
            ).push(paths::joined(workspace_dir@, all[i as int])));
            i += 1;
        }
        assert(below(workspace_dir@, all).take(all.len() as int) =~= below(workspace_dir@, all));
        SkillSources::Directories(out)
    }

    /// The identity files of an agent as a part of its prompt; none where the
    /// configuration is not known.
    pub open spec fn identity_of(self, files: FileSnapshot, agent_alias: Seq<char>) -> Seq<char> {
        match self.root_config {
            Some(config) => identity_part(
                files,
                config.workspace_of(agent_alias),
                personality::names_of(IDENTITY_FILES@),
            ),
            None => seq![],
        }
    }

    /// The system prompt of an agent: the operational sections, the shell
    /// policy where the agent is told of a `shell` tool, and its identity
    /// files. None when nothing but whitespace would be left.
    pub fn build_enriched_system_prompt(
        &self,
        agent_alias: &str,
        agent_config: &AliasedAgentConfig,
        tool_names: &Vec<String>,
        sends_native_tool_specs: bool,
        operational: &str,
        files: &FileSnapshot,
    ) -> (r: Option<String>)
        ensures
            text::optional(r) == whole_prompt(
                operational@,
                describes_tools(*agent_config, sends_native_tool_specs)
                    && tool_names.deep_view().contains("shell"@),
                self.identity_of(*files, agent_alias@),
            ),
    {
        let plan = plan_tools(agent_config, tool_names, sends_native_tool_specs);
        let mut shell = String::new();
        if plan.shell_policy {
            shell = SHELL_POLICY.to_owned();
            shell.append("\n\n");
        }
        assert(shell@ =~= shell_part(plan.shell_policy));
        let identity = match self.agent_workspace(agent_alias) {
            Some(workspace) => identity_text(files, &workspace),
            None => String::new(),
        };
        assert(identity@ =~= self.identity_of(*files, agent_alias@));
        let mut enriched = operational.to_owned();
        enriched.append(&shell);
        enriched.append(&identity);
        let trimmed = text::trim(&enriched);
        if trimmed.unicode_len() == 0 {
            None
        } else {
            Some(trimmed.to_owned())
        }
    }

    /// The paths of an agent's identity files; none where the configuration is
    /// not known.
    pub fn identity_paths(&self, agent_alias: &str) -> (r: Vec<String>)
        ensures
            r.deep_view() == (match self.root_config {
                Some(config) => below(
                    config.workspace_of(agent_alias@),
                    personality::names_of(IDENTITY_FILES@),
                ),
                None => seq![],
            }),
    {
        let mut out: Vec<String> = Vec::new();
        assert(out.deep_view() =~= seq![]);
        let workspace = match self.agent_workspace(agent_alias) {
            Some(workspace) => workspace,
            None => {
                return out;
            },
        };
        let names: &[&str] = IDENTITY_FILES.as_slice();
        let ghost all = below(workspace@, personality::names_of(names@));
        let mut i: usize = 0;
        while i < names.len()
            invariant
                i <= names.len(),
                all == below(workspace@, personality::names_of(names@)),
                out.deep_view() == all.take(i as int),
            decreases names.len() - i,
        {
            let ghost before = out.deep_view();
            let name: &str = names[i];
            out.push(paths::join(&workspace, name));
            assert(out.deep_view() =~= before.push(all[i as int]));
            assert(all.take(i + 1) =~= all.take(i as int).push(all[i as int]));
            i += 1;
        }
        assert(all.take(all.len() as int) =~= all);
        out
    }
}

/// A system prompt is never blank and has no surrounding whitespace.
pub proof fn system_prompt_is_trimmed(
    operational: Seq<char>,
    shell_policy: bool,
    identity: Seq<char>,
)
    ensures
        whole_prompt(operational, shell_policy, identity) matches Some(p) ==> p.len() > 0
            && text::trimmed(p) == p,
{
    text::trimming_is_final(operational + shell_part(shell_policy) + identity);
}

/// An agent that is told of no tools is told no shell policy.
pub proof fn strict_agent_has_no_shell_policy(
    agent: AliasedAgentConfig,
    operational: Seq<char>,
    identity: Seq<char>,
    tool_names: Seq<Seq<char>>,
)
    requires
        agent.resolved.strict_tool_parsing,
    ensures
        whole_prompt(
            operational,
            describes_tools(agent, false) && tool_names.contains("shell"@),
            identity,
        ) == whole_prompt(operational, false, identity),
{
}

} // verus!
