//! The configuration that the rules of this library read.

use vstd::prelude::*;

use crate::paths;
use crate::table::AliasTable;

verus! {

/// A `[persona_bundles.<alias>]` entry.
pub struct PersonaBundleConfig {
    /// Directory of the bundle; the default one when unset or blank.
    pub directory: Option<String>,
    /// Declared format; empty means `openclaw`.
    pub format: String,
    /// File names to take from the bundle; empty means every one.
    pub includes: Vec<String>,
    /// File names never to take from the bundle.
    pub excludes: Vec<String>,
}

impl Default for PersonaBundleConfig {
    fn default() -> (r: Self)
        ensures
            r.directory is None,
            r.format@ == Seq::<char>::empty(),
            r.includes@ == Seq::<String>::empty(),
            r.excludes@ == Seq::<String>::empty(),
    {
        PersonaBundleConfig {
            directory: None,
            format: String::new(),
            includes: Vec::new(),
            excludes: Vec::new(),
        }
    }
}

/// How an agent may use the workspace of a sibling.
#[derive(Debug, Clone, Copy, PartialEq, Eq, Structural)]
pub enum AccessMode {
    Read,
    Write,
    ReadWrite,
}

/// The `workspace` part of an agent's configuration.
pub struct AgentWorkspaceConfig {
    /// Directory set by the operator, if any.
    pub path: Option<String>,
    /// Sibling workspaces that the agent may use.
    pub access: AliasTable<AccessMode>,
    /// Whether the agent may leave its workspace.
    pub unrestricted_filesystem: bool,
}

impl Default for AgentWorkspaceConfig {
    fn default() -> (r: Self)
        ensures
            r.path is None,
            r.access.contents().len() == 0,
            !r.unrestricted_filesystem,
    {
        AgentWorkspaceConfig {
            path: None,
            access: AliasTable::new(),
            unrestricted_filesystem: false,
        }
    }
}

/// Settings of an agent that are resolved when the configuration is loaded.
#[derive(Debug, Clone, Copy, PartialEq, Eq, Structural)]
pub struct ResolvedAgentSettings {
    /// Whether tool calls written as text are refused.
    pub strict_tool_parsing: bool,
    /// Whether the tool calls of one turn run concurrently.
    pub parallel_tools: bool,
}

impl Default for ResolvedAgentSettings {
    fn default() -> (r: Self)
        ensures
            r == (ResolvedAgentSettings { strict_tool_parsing: false, parallel_tools: false }),
    {
        ResolvedAgentSettings { strict_tool_parsing: false, parallel_tools: false }
    }
}

/// An `[agents.<alias>]` entry.
pub struct AliasedAgentConfig {
    /// Model provider reference, `<type>.<alias>`.
    pub model_provider: String,
    /// Name of the risk profile.
    pub risk_profile: String,
    /// Name of the runtime profile.
    pub runtime_profile: String,
    /// Persona bundles, lowest layer first.
    pub persona_bundles: Vec<String>,
    /// Skill bundles.
    pub skill_bundles: Vec<String>,
    /// Workspace settings.
    pub workspace: AgentWorkspaceConfig,
    /// Settings resolved at load time.
    pub resolved: ResolvedAgentSettings,
}

impl Default for AliasedAgentConfig {
    fn default() -> (r: Self)
        ensures
            r.model_provider@ == Seq::<char>::empty(),
            r.risk_profile@ == Seq::<char>::empty(),
            r.runtime_profile@ == Seq::<char>::empty(),
            r.persona_bundles@ == Seq::<String>::empty(),
            r.skill_bundles@ == Seq::<String>::empty(),
            r.workspace.path is None,
            r.workspace.access.contents().len() == 0,
            !r.workspace.unrestricted_filesystem,
            r.resolved == (ResolvedAgentSettings {
                strict_tool_parsing: false,
                parallel_tools: false,
            }),
    {
        AliasedAgentConfig {
            model_provider: String::new(),
            risk_profile: String::new(),
            runtime_profile: String::new(),
            persona_bundles: Vec::new(),
            skill_bundles: Vec::new(),
            workspace: AgentWorkspaceConfig::default(),
            resolved: ResolvedAgentSettings::default(),
        }
    }
}

/// A `[risk_profiles.<name>]` entry.
pub struct RiskProfileConfig {
    /// Tools that an agent on this profile may use; empty means no allowlist.
    pub allowed_tools: Vec<String>,
}

impl Default for RiskProfileConfig {
    fn default() -> (r: Self)
        ensures
            r.allowed_tools@ == Seq::<String>::empty(),
    {
        RiskProfileConfig { allowed_tools: Vec::new() }
    }
}

/// A `[runtime_profiles.<name>]` entry.
#[derive(Debug, Clone, Copy, PartialEq, Eq, Structural)]
pub struct RuntimeProfileConfig {
    /// Whether the agent runs a tool-call loop.
    pub agentic: bool,
    /// Greatest delegation depth; zero means the default.
    pub max_delegation_depth: u32,
    /// Seconds that a single-prompt delegation may take.
    pub delegation_timeout_secs: Option<u64>,
    /// Seconds that a tool-call loop may take.
    pub agentic_timeout_secs: Option<u64>,
    /// Greatest number of tool iterations; zero means the default.
    pub max_tool_iterations: usize,
}

impl Default for RuntimeProfileConfig {
    fn default() -> (r: Self)
        ensures
            r == (RuntimeProfileConfig {
                agentic: false,
                max_delegation_depth: 0,
                delegation_timeout_secs: None,
                agentic_timeout_secs: None,
                max_tool_iterations: 0,
            }),
    {
        RuntimeProfileConfig {
            agentic: false,
            max_delegation_depth: 0,
            delegation_timeout_secs: None,
            agentic_timeout_secs: None,
            max_tool_iterations: 0,
        }
    }
}

/// A `[skill_bundles.<alias>]` entry.
pub struct SkillBundleConfig {
    /// Directory of the bundle.
    pub directory: Option<String>,
}

impl Default for SkillBundleConfig {
    fn default() -> (r: Self)
        ensures
            r.directory is None,
    {
        SkillBundleConfig { directory: None }
    }
}

/// A `[providers.models.<type>.<alias>]` entry.
pub struct ModelProviderConfig {
    /// Credential of this entry; the global one is used when unset.
    pub api_key: Option<String>,
    /// Model name.
    pub model: Option<String>,
}

impl Default for ModelProviderConfig {
    fn default() -> (r: Self)
        ensures
            r.api_key is None,
            r.model is None,
    {
        ModelProviderConfig { api_key: None, model: None }
    }
}

/// Timeouts of the delegate tool that a runtime profile may override.
#[derive(Debug, Clone, Copy, PartialEq, Eq, Structural)]
pub struct DelegateToolConfig {
    /// Seconds that a single-prompt delegation may take.
    pub timeout_secs: u64,
    /// Seconds that a tool-call loop may take.
    pub agentic_timeout_secs: u64,
}

/// Seconds that a single-prompt delegation may take by default.
pub const DEFAULT_DELEGATE_TIMEOUT_SECS: u64 = 120;

/// Seconds that a tool-call loop may take by default.
pub const DEFAULT_DELEGATE_AGENTIC_TIMEOUT_SECS: u64 = 300;

impl Default for DelegateToolConfig {
    fn default() -> (r: Self)
        ensures
            r.timeout_secs == DEFAULT_DELEGATE_TIMEOUT_SECS,
            r.agentic_timeout_secs == DEFAULT_DELEGATE_AGENTIC_TIMEOUT_SECS,
    {
        DelegateToolConfig {
            timeout_secs: DEFAULT_DELEGATE_TIMEOUT_SECS,
            agentic_timeout_secs: DEFAULT_DELEGATE_AGENTIC_TIMEOUT_SECS,
        }
    }
}

/// The loaded configuration.
pub struct Config {
    /// Directory that the installation lives in.
    pub install_root: String,
    /// Agents.
    pub agents: AliasTable<AliasedAgentConfig>,
    /// Persona bundles.
    pub persona_bundles: AliasTable<PersonaBundleConfig>,
    /// Risk profiles.
    pub risk_profiles: AliasTable<RiskProfileConfig>,
    /// Runtime profiles.
    pub runtime_profiles: AliasTable<RuntimeProfileConfig>,
}

impl Default for Config {
    fn default() -> (r: Self)
        ensures
            r.install_root@ == Seq::<char>::empty(),
            r.agents.contents().len() == 0,
            r.persona_bundles.contents().len() == 0,
            r.risk_profiles.contents().len() == 0,
            r.runtime_profiles.contents().len() == 0,
    {
        Config {
            install_root: String::new(),
            agents: AliasTable::new(),
            persona_bundles: AliasTable::new(),
            risk_profiles: AliasTable::new(),
            runtime_profiles: AliasTable::new(),
        }
    }
}

/// The directory under the installation that an agent works in unless its
/// configuration names another: `<install>/agents/<alias>/workspace`.
pub open spec fn default_workspace(install_root: Seq<char>, alias: Seq<char>) -> Seq<char> {
    paths::joined(
        paths::joined(paths::joined(install_root, "agents"@), alias),
        "workspace"@,
    )
}

impl Config {
    /// The workspace directory of an agent. A relative configured path is taken
    /// from the installation directory.
    pub open spec fn workspace_of(self, alias: Seq<char>) -> Seq<char> {
        match self.agents.lookup(alias) {
            Some(agent) => match agent.workspace.path {
                Some(path) => paths::joined(self.install_root@, path@),
                None => default_workspace(self.install_root@, alias),
            },
            None => default_workspace(self.install_root@, alias),
        }
    }

    /// The workspace directory of an agent.
    pub fn agent_workspace_dir(&self, alias: &str) -> (r: String)
        ensures
            r@ == self.workspace_of(alias@),
    {
        if let Some(agent) = self.agents.get(alias) {
            if let Some(path) = &agent.workspace.path {
                return paths::join(&self.install_root, path);
            }
        }
        let agents = paths::join(&self.install_root, "agents");
        let own = paths::join(&agents, alias);
        paths::join(&own, "workspace")
    }
}

} // verus!
