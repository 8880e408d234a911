//! The delegate tool: what it knows, and how it resolves an agent's profiles.

use std::sync::Arc;

use vstd::prelude::*;

use crate::paths;
use crate::policy::SecurityPolicy;
use crate::schema::{
    AliasedAgentConfig, Config, DelegateToolConfig, ModelProviderConfig, RiskProfileConfig,
    RuntimeProfileConfig, SkillBundleConfig,
};
use crate::table::AliasTable;
use crate::text;

verus! {

/// A handle that background runs watch for cancellation.
#[verifier::external_type_specification]
#[verifier::external_body]
pub struct ExCancellationToken(tokio_util::sync::CancellationToken);

/// `CancellationToken::new` makes a token. Whether a token is cancelled is
/// shared state, of which nothing is claimed.
pub assume_specification[ tokio_util::sync::CancellationToken::new ]() -> tokio_util::sync::CancellationToken
;

/// `CancellationToken::child_token` makes a token that is cancelled together
/// with its parent. Whether a token is cancelled is shared state, of which
/// nothing is claimed.
pub assume_specification[ tokio_util::sync::CancellationToken::child_token ](
    token: &tokio_util::sync::CancellationToken,
) -> tokio_util::sync::CancellationToken
;

/// `CancellationToken::cancel` cancels the token and its children. Whether a
/// token is cancelled is shared state, of which nothing is claimed.
pub assume_specification[ tokio_util::sync::CancellationToken::cancel ](
    token: &tokio_util::sync::CancellationToken,
)
;

/// Delegation depth allowed where no profile says otherwise.
pub const DEFAULT_MAX_DEPTH: u32 = 3;

/// Tool iterations allowed where no profile says otherwise.
pub const DEFAULT_MAX_ITERATIONS: usize = 10;

/// Options of a model provider that a delegate passes on.
pub struct ModelProviderRuntimeOptions {
    /// Endpoint that overrides the provider's own.
    pub provider_api_url: Option<String>,
}

impl Default for ModelProviderRuntimeOptions {
    fn default() -> (r: Self)
        ensures
            r.provider_api_url is None,
    {
        ModelProviderRuntimeOptions { provider_api_url: None }
    }
}

/// The tool by which an agent hands a subtask to another agent.
pub struct DelegateTool {
    /// Agents that can be named.
    pub agents: Arc<AliasTable<AliasedAgentConfig>>,
    /// Policy of the calling agent.
    pub security: Arc<SecurityPolicy>,
    /// Credential used where a provider entry has none.
    pub global_credential: Option<String>,
    /// Provider options inherited from the root configuration.
    pub provider_runtime_options: Arc<ModelProviderRuntimeOptions>,
    /// Position of this instance in the delegation chain.
    pub depth: u32,
    /// Default timeouts.
    pub delegate_config: DelegateToolConfig,
    /// Workspace directory of the root agent.
    pub workspace_dir: String,
    /// Token that cancels background runs.
    pub cancellation_token: tokio_util::sync::CancellationToken,
    /// Provider entries by type and alias.
    pub providers_models: Arc<AliasTable<AliasTable<ModelProviderConfig>>>,
    /// Risk profiles.
    pub risk_profiles: Arc<AliasTable<RiskProfileConfig>>,
    /// Runtime profiles.
    pub runtime_profiles: Arc<AliasTable<RuntimeProfileConfig>>,
    /// Skill bundles.
    pub skill_bundles: Arc<AliasTable<SkillBundleConfig>>,
    /// The loaded configuration, where policies are resolved per target.
    pub root_config: Option<Arc<Config>>,
    /// Alias of the calling agent; empty when unknown.
    pub caller_alias: String,
}

/// What a model provider reference resolves to.
pub struct Brain {
    /// Provider type.
    pub provider_type: String,
    /// Credential to use.
    pub credential: Option<String>,
    /// Model name; empty when none is configured.
    pub model: String,
    /// Whether a configured entry was found.
    pub configured: bool,
}

/// Where a delegate's provider options come from.
pub enum ProviderOptions<'a> {
    /// Resolve the options of this provider entry.
    ForAlias { family: &'a str, alias: &'a str },
    /// Use the inherited options.
    Inherited(&'a ModelProviderRuntimeOptions),
}

/// The greatest delegation depth under a runtime profile.
pub open spec fn max_depth_of(
    profiles: AliasTable<RuntimeProfileConfig>,
    name: Seq<char>,
) -> u32 {
    if name.len() == 0 {
        DEFAULT_MAX_DEPTH
    } else {
        match profiles.lookup(name) {
            Some(p) => if p.max_delegation_depth > 0 {
                p.max_delegation_depth
            } else {
                DEFAULT_MAX_DEPTH
            },
            None => DEFAULT_MAX_DEPTH,
        }
    }
}

/// The greatest number of tool iterations under a runtime profile.
pub open spec fn max_iterations_of(
    profiles: AliasTable<RuntimeProfileConfig>,
    name: Seq<char>,
) -> usize {
    if name.len() == 0 {
        DEFAULT_MAX_ITERATIONS
    } else {
        match profiles.lookup(name) {
            Some(p) => if p.max_tool_iterations > 0 {
                p.max_tool_iterations
            } else {
                DEFAULT_MAX_ITERATIONS
            },
            None => DEFAULT_MAX_ITERATIONS,
        }
    }
}

/// The single-prompt timeout that a runtime profile sets.
pub open spec fn delegation_timeout_of(
    profiles: AliasTable<RuntimeProfileConfig>,
    name: Seq<char>,
) -> Option<u64> {
    if name.len() == 0 {
        None
    } else {
        match profiles.lookup(name) {
            Some(p) => p.delegation_timeout_secs,
            None => None,
        }
    }
}

/// The tool-loop timeout that a runtime profile sets.
pub open spec fn agentic_timeout_of(
    profiles: AliasTable<RuntimeProfileConfig>,
    name: Seq<char>,
) -> Option<u64> {
    if name.len() == 0 {
        None
    } else {
        match profiles.lookup(name) {
            Some(p) => p.agentic_timeout_secs,
            None => None,
        }
    }
}

/// Whether a runtime profile runs a tool-call loop. Whitespace round the name
/// does not count.
pub open spec fn agentic_of(profiles: AliasTable<RuntimeProfileConfig>, name: Seq<char>) -> bool {
    let trimmed = text::trimmed(name);
    if trimmed.len() == 0 {
        false
    } else {
        match profiles.lookup(trimmed) {
            Some(p) => p.agentic,
            None => false,
        }
    }
}

/// The tools that a risk profile allows.
pub open spec fn allowed_tools_of(
    profiles: AliasTable<RiskProfileConfig>,
    name: Seq<char>,
) -> Seq<Seq<char>> {
    if name.len() == 0 {
        seq![]
    } else {
        match profiles.lookup(name) {
            Some(p) => p.allowed_tools.deep_view(),
            None => seq![],
        }
    }
}

/// The directory that a skill bundle alias stands for, if any.
pub open spec fn skill_dir_for(
    bundles: AliasTable<SkillBundleConfig>,
    alias: Seq<char>,
) -> Option<Seq<char>> {
    if alias.len() == 0 {
        None
    } else {
        match bundles.lookup(alias) {
            Some(b) => text::optional(b.directory),
            None => None,
        }
    }
}

/// The directories that a list of skill bundle aliases stands for, in order.
pub open spec fn skill_dirs_for(
    bundles: AliasTable<SkillBundleConfig>,
    aliases: Seq<Seq<char>>,
) -> Seq<Seq<char>>
    decreases aliases.len(),
{
    if aliases.len() == 0 {
        seq![]
    } else {
        let before = skill_dirs_for(bundles, aliases.drop_last());
        match skill_dir_for(bundles, aliases.last()) {
            Some(dir) => before.push(dir),
            None => before,
        }
    }
}

/// The configured entry that a provider reference `<type>.<alias>` names.
pub open spec fn provider_entry(
    models: AliasTable<AliasTable<ModelProviderConfig>>,
    reference: Seq<char>,
) -> Option<ModelProviderConfig> {
    match text::split_once_at(reference, '.') {
        Some((type_key, alias_key)) => match models.lookup(type_key) {
            Some(aliases) => aliases.lookup(alias_key),
            None => None,
        },
        None => None,
    }
}

/// The part of a provider reference before its first dot, or all of it.
pub open spec fn provider_type_of(reference: Seq<char>) -> Seq<char> {
    match text::split_once_at(reference, '.') {
        Some((type_key, _)) => type_key,
        None => reference,
    }
}

/// Whether `options` are those of a delegate with this provider reference: of
/// its own entry when the reference is `<family>.<alias>` and the configuration
/// is known, else the inherited ones.
pub open spec fn options_for(
    tool: DelegateTool,
    reference: Seq<char>,
    options: ProviderOptions,
) -> bool {
    match (text::split_once_at(reference, '.'), tool.root_config, options) {
        (Some((f, a)), Some(_), ProviderOptions::ForAlias { family, alias }) => family@ == f
            && alias@ == a,
        (Some(_), Some(_), _) => false,
        (_, _, ProviderOptions::Inherited(inherited)) => *inherited
            == *tool.provider_runtime_options,
        _ => false,
    }
}

impl DelegateTool {
    /// A tool at the start of a delegation chain.
    pub fn new(
        agents: AliasTable<AliasedAgentConfig>,
        global_credential: Option<String>,
        security: Arc<SecurityPolicy>,
    ) -> (r: Self)
        ensures
            r.is_fresh(agents, global_credential, security, 0),
            r.provider_runtime_options.provider_api_url is None,
    {
        Self::new_with_options(
            agents,
            global_credential,
            security,
            ModelProviderRuntimeOptions::default(),
        )
    }

    /// A tool at the start of a delegation chain, with inherited provider
    /// options.
    pub fn new_with_options(
        agents: AliasTable<AliasedAgentConfig>,
        global_credential: Option<String>,
        security: Arc<SecurityPolicy>,
        provider_runtime_options: ModelProviderRuntimeOptions,
    ) -> (r: Self)
        ensures
            r.is_fresh(agents, global_credential, security, 0),
            *r.provider_runtime_options == provider_runtime_options,
    {
        Self::with_depth_and_options(
            agents,
            global_credential,
            security,
            0,
            provider_runtime_options,
        )
    }

    /// A tool for an agent at some depth of a delegation chain.
    pub fn with_depth(
        agents: AliasTable<AliasedAgentConfig>,
        global_credential: Option<String>,
        security: Arc<SecurityPolicy>,
        depth: u32,
    ) -> (r: Self)
        ensures
            r.is_fresh(agents, global_credential, security, depth),
            r.provider_runtime_options.provider_api_url is None,
    {
        Self::with_depth_and_options(
            agents,
            global_credential,
            security,
            depth,
            ModelProviderRuntimeOptions::default(),
        )
    }

    /// Whether a tool is as constructed from these parts, with nothing attached.
    pub open spec fn is_fresh(
        self,
        agents: AliasTable<AliasedAgentConfig>,
        global_credential: Option<String>,
        security: Arc<SecurityPolicy>,
        depth: u32,
    ) -> bool {
        &&& *self.agents == agents
        &&& self.security == security
        &&& self.global_credential == global_credential
        &&& self.depth == depth
        &&& self.delegate_config.timeout_secs == crate::schema::DEFAULT_DELEGATE_TIMEOUT_SECS
        &&& self.delegate_config.agentic_timeout_secs
            == crate::schema::DEFAULT_DELEGATE_AGENTIC_TIMEOUT_SECS
        &&& self.workspace_dir@ == Seq::<char>::empty()
        &&& self.providers_models.contents().len() == 0
        &&& self.risk_profiles.contents().len() == 0
        &&& self.runtime_profiles.contents().len() == 0
        &&& self.skill_bundles.contents().len() == 0
        &&& self.root_config is None
        &&& self.caller_alias@ == Seq::<char>::empty()
    }

    /// A tool for an agent at some depth of a delegation chain, with inherited
    /// provider options.
    pub fn with_depth_and_options(
        agents: AliasTable<AliasedAgentConfig>,
        global_credential: Option<String>,
        security: Arc<SecurityPolicy>,
        depth: u32,
        provider_runtime_options: ModelProviderRuntimeOptions,
    ) -> (r: Self)
        ensures
            r.is_fresh(agents, global_credential, security, depth),
            *r.provider_runtime_options == provider_runtime_options,
    {
        DelegateTool {
            agents: Arc::new(agents),
            security,
            global_credential,
            provider_runtime_options: Arc::new(provider_runtime_options),
            depth,
            delegate_config: DelegateToolConfig::default(),
            workspace_dir: String::new(),
            cancellation_token: tokio_util::sync::CancellationToken::new(),
            providers_models: Arc::new(AliasTable::new()),
            risk_profiles: Arc::new(AliasTable::new()),
            runtime_profiles: Arc::new(AliasTable::new()),
            skill_bundles: Arc::new(AliasTable::new()),
            root_config: None,
            caller_alias: String::new(),
        }
    }

    /// Attaches default timeouts.
    pub fn with_delegate_config(self, config: DelegateToolConfig) -> (r: Self)
        ensures
            r == (DelegateTool { delegate_config: config, ..self }),
    {
        let mut tool = self;
        tool.delegate_config = config;
        tool
    }

    /// Attaches the workspace directory.
    pub fn with_workspace_dir(self, workspace_dir: String) -> (r: Self)
        ensures
            r == (DelegateTool { workspace_dir, ..self }),
    {
        let mut tool = self;
        tool.workspace_dir = workspace_dir;
        tool
    }

    /// Attaches a cancellation token.
    pub fn with_cancellation_token(self, token: tokio_util::sync::CancellationToken) -> (r: Self)
        ensures
            r == (DelegateTool { cancellation_token: token, ..self }),
    {
        let mut tool = self;
        tool.cancellation_token = token;
        tool
    }

    /// The cancellation token.
    pub fn cancellation_token(&self) -> (r: &tokio_util::sync::CancellationToken)
        ensures
            *r == self.cancellation_token,
    {
        &self.cancellation_token
    }

    /// Cancels every background run that this tool started: their tokens are
    /// children of this tool's.
    pub fn cancel_all_background_tasks(&self)
        ensures
            call_ensures(
                tokio_util::sync::CancellationToken::cancel,
                (&self.cancellation_token,),
                (),
            ),
    {
        let stop = tokio_util::sync::CancellationToken::cancel;
        stop(&self.cancellation_token);
    }

    /// Attaches the provider entries.
    pub fn with_providers_models(self, m: AliasTable<AliasTable<ModelProviderConfig>>) -> (r: Self)
        ensures
            *r.providers_models == m,
            r == (DelegateTool { providers_models: r.providers_models, ..self }),
    {
        let mut tool = self;
        tool.providers_models = Arc::new(m);
        tool
    }

    /// Attaches the risk profiles.
    pub fn with_risk_profiles(self, m: AliasTable<RiskProfileConfig>) -> (r: Self)
        ensures
            *r.risk_profiles == m,
            r == (DelegateTool { risk_profiles: r.risk_profiles, ..self }),
    {
        let mut tool = self;
        tool.risk_profiles = Arc::new(m);
        tool
    }

    /// Attaches the runtime profiles.
    pub fn with_runtime_profiles(self, m: AliasTable<RuntimeProfileConfig>) -> (r: Self)
        ensures
            *r.runtime_profiles == m,
            r == (DelegateTool { runtime_profiles: r.runtime_profiles, ..self }),
    {
        let mut tool = self;
        tool.runtime_profiles = Arc::new(m);
        tool
    }

    /// Attaches the skill bundles.
    pub fn with_skill_bundles(self, m: AliasTable<SkillBundleConfig>) -> (r: Self)
        ensures
            *r.skill_bundles == m,
            r == (DelegateTool { skill_bundles: r.skill_bundles, ..self }),
    {
        let mut tool = self;
        tool.skill_bundles = Arc::new(m);
        tool
    }

    /// Attaches the loaded configuration, so that policies are resolved per
    /// target.
    pub fn with_root_config(self, config: Arc<Config>) -> (r: Self)
        ensures
            r == (DelegateTool { root_config: Some(config), ..self }),
    {
        let mut tool = self;
        tool.root_config = Some(config);
        tool
    }

    /// Names the calling agent, which is never offered itself.
    pub fn with_caller_alias(self, alias: &str) -> (r: Self)
        ensures
            r.caller_alias@ == alias@,
            r == (DelegateTool { caller_alias: r.caller_alias, ..self }),
    {
        let mut tool = self;
        tool.caller_alias = alias.to_owned();
        tool
    }

    /// The workspace directory of an agent, where the configuration is known.
    pub fn agent_workspace(&self, agent_alias: &str) -> (r: Option<String>)
        ensures
            match (self.root_config, r) {
                (Some(config), Some(dir)) => dir@ == config.workspace_of(agent_alias@),
                (None, None) => true,
                _ => false,
            },
    {
        match &self.root_config {
            Some(config) => Some(config.agent_workspace_dir(agent_alias)),
            None => None,
        }
    }

    /// The credential for a provider reference: that of the configured entry,
    /// else the global one.
    pub open spec fn credential_for(self, reference: Seq<char>) -> Option<Seq<char>> {
        match provider_entry(*self.providers_models, reference) {
            Some(entry) => match entry.api_key {
                Some(key) => Some(key@),
                None => text::optional(self.global_credential),
            },
            None => text::optional(self.global_credential),
        }
    }

    /// The model for a provider reference; empty where none is configured.
    pub open spec fn model_for(self, reference: Seq<char>) -> Seq<char> {
        match provider_entry(*self.providers_models, reference) {
            Some(entry) => match entry.model {
                Some(model) => model@,
                None => Seq::empty(),
            },
            None => Seq::empty(),
        }
    }

    /// What a model provider reference resolves to: the configured entry, with
    /// the global credential where the entry has none; without an entry, the
    /// type alone, the global credential and no model.
    pub fn resolve_brain(&self, model_provider: &str) -> (r: Brain)
        ensures
            r.provider_type@ == provider_type_of(model_provider@),
            text::optional(r.credential) == self.credential_for(model_provider@),
            r.model@ == self.model_for(model_provider@),
            r.configured == provider_entry(*self.providers_models, model_provider@) is Some,
    {
        match text::split_once(model_provider, '.') {
            Some((type_key, alias_key)) => {
                if let Some(aliases) = self.providers_models.get(type_key) {
                    if let Some(entry) = aliases.get(alias_key) {
                        let credential = match &entry.api_key {
                            Some(key) => Some(key.clone()),
                            None => text::copy_optional(&self.global_credential),
                        };
                        let model = match &entry.model {
                            Some(model) => model.clone(),
                            None => String::new(),
                        };
                        return Brain {
                            provider_type: type_key.to_owned(),
                            credential,
                            model,
                            configured: true,
                        };
                    }
                }
                Brain {
                    provider_type: type_key.to_owned(),
                    credential: text::copy_optional(&self.global_credential),
                    model: String::new(),
                    configured: false,
                }
            },
            None => Brain {
                provider_type: model_provider.to_owned(),
                credential: text::copy_optional(&self.global_credential),
                model: String::new(),
                configured: false,
            },
        }
    }

    /// Where the provider options of a delegate come from: its own entry when
    /// the reference is `<family>.<alias>` and the configuration is known, else
    /// the inherited ones.
    pub fn resolve_delegate_provider_options<'a>(&'a self, model_provider: &'a str) -> (r:
        ProviderOptions<'a>)
        ensures
            options_for(*self, model_provider@, r),
    {
        if self.root_config.is_some() {
            if let Some((family, alias)) = text::split_once(model_provider, '.') {
                return ProviderOptions::ForAlias { family, alias };
            }
        }
        ProviderOptions::Inherited(&self.provider_runtime_options)
    }

    /// The greatest delegation depth under a runtime profile.
    pub fn resolve_max_depth(&self, runtime_profile: &str) -> (r: u32)
        ensures
            r == max_depth_of(*self.runtime_profiles, runtime_profile@),
            r > 0,
    {
        if runtime_profile.unicode_len() == 0 {
            return DEFAULT_MAX_DEPTH;
        }
        match self.runtime_profiles.get(runtime_profile) {
            Some(p) => if p.max_delegation_depth > 0 {
                p.max_delegation_depth
            } else {
                DEFAULT_MAX_DEPTH
            },
            None => DEFAULT_MAX_DEPTH,
        }
    }

    /// The single-prompt timeout that a runtime profile sets.
    pub fn resolve_delegation_timeout(&self, runtime_profile: &str) -> (r: Option<u64>)
        ensures
            r == delegation_timeout_of(*self.runtime_profiles, runtime_profile@),
    {
        if runtime_profile.unicode_len() == 0 {
            return None;
        }
        match self.runtime_profiles.get(runtime_profile) {
            Some(p) => p.delegation_timeout_secs,
            None => None,
        }
    }

    /// The tool-loop timeout that a runtime profile sets.
    pub fn resolve_agentic_timeout_secs(&self, runtime_profile: &str) -> (r: Option<u64>)
        ensures
            r == agentic_timeout_of(*self.runtime_profiles, runtime_profile@),
    {
        if runtime_profile.unicode_len() == 0 {
            return None;
        }
        match self.runtime_profiles.get(runtime_profile) {
            Some(p) => p.agentic_timeout_secs,
            None => None,
        }
    }

    /// Whether a runtime profile runs a tool-call loop.
    pub fn resolve_agentic(&self, runtime_profile: &str) -> (r: bool)
        ensures
            r == agentic_of(*self.runtime_profiles, runtime_profile@),
    {
        let trimmed = text::trim(runtime_profile);
        if trimmed.unicode_len() == 0 {
            return false;
        }
        match self.runtime_profiles.get(trimmed) {
            Some(p) => p.agentic,
            None => false,
        }
    }

    /// The greatest number of tool iterations under a runtime profile.
    pub fn resolve_max_iterations(&self, runtime_profile: &str) -> (r: usize)
        ensures
            r == max_iterations_of(*self.runtime_profiles, runtime_profile@),
            r > 0,
    {
        if runtime_profile.unicode_len() == 0 {
            return DEFAULT_MAX_ITERATIONS;
        }
        match self.runtime_profiles.get(runtime_profile) {
            Some(p) => if p.max_tool_iterations > 0 {
                p.max_tool_iterations
            } else {
                DEFAULT_MAX_ITERATIONS
            },
            None => DEFAULT_MAX_ITERATIONS,
        }
    }

    /// The tools that a risk profile allows.
    pub fn resolve_allowed_tools(&self, risk_profile: &str) -> (r: Vec<String>)
        ensures
            r.deep_view() == allowed_tools_of(*self.risk_profiles, risk_profile@),
    {
        let none: Vec<String> = Vec::new();
        assert(none.deep_view() =~= seq![]);
        if risk_profile.unicode_len() == 0 {
            return none;
        }
        match self.risk_profiles.get(risk_profile) {
            Some(p) => text::copied(&p.allowed_tools),
            None => none,
        }
    }

    /// The directories that a list of skill bundle aliases stands for.
    pub fn resolve_skill_bundle_dirs(&self, bundle_aliases: &Vec<String>) -> (r: Vec<String>)
        ensures
            r.deep_view() == skill_dirs_for(*self.skill_bundles, bundle_aliases.deep_view()),
    {
        let ghost all = bundle_aliases.deep_view();
        let mut out: Vec<String> = Vec::new();
        let mut i: usize = 0;
        assert(out.deep_view() =~= skill_dirs_for(*self.skill_bundles, all.take(0)));
        while i < bundle_aliases.len()
            invariant
                i <= bundle_aliases.len(),
                all == bundle_aliases.deep_view(),
                out.deep_view() == skill_dirs_for(*self.skill_bundles, all.take(i as int)),
            decreases bundle_aliases.len() - i,
        {
            let alias = &bundle_aliases[i];
            let ghost next = all.take(i + 1);
            let ghost before = out.deep_view();
            assert(next.drop_last() =~= all.take(i as int));
            assert(next.last() == alias@);
            if alias.unicode_len() > 0 {
                if let Some(bundle) = self.skill_bundles.get(alias) {
                    if let Some(dir) = &bundle.directory {
                        out.push(dir.clone());
                        assert(out.deep_view() =~= before.push(dir@));
                    }
                }
            }
            i += 1;
        }
        assert(all.take(all.len() as int) =~= all);
        out
    }

    /// The directory of background results.
    pub open spec fn results_path(self) -> Seq<char> {
        paths::joined(self.workspace_dir@, "delegate_results"@)
    }

    /// The directory of background results.
    pub fn results_dir(&self) -> (r: String)
        ensures
            r@ == self.results_path(),
    {
        paths::join(&self.workspace_dir, "delegate_results")
    }

    /// The name under which the tool is offered.
    pub fn name(&self) -> (r: &'static str)
        ensures
            r@ == "delegate"@,
    {
        "delegate"
    }

    /// What the tool is for, in the words that a model reads.
    pub fn description(&self) -> (r: &'static str)
        ensures
            r@ == TOOL_DESCRIPTION@,
    {
        TOOL_DESCRIPTION
    }
}

/// What the tool is for, in the words that a model reads.
pub const TOOL_DESCRIPTION: &'static str = "Delegate a subtask to a specialized agent. Use when: a task benefits from a different model (e.g. fast summarization, deep reasoning, code generation). The sub-agent runs a single prompt by default; with agentic=true it can iterate with a filtered tool-call loop. Supports background execution (returns a task_id immediately) and parallel execution (runs multiple agents concurrently). Use action='check_result' with a task_id to retrieve background results.";

} // verus!
