//! Running one agent: the steps from a request to an answer.
//!
//! A request is admitted, charged against the caller's budget, cleared by the
//! narrowing-only guard and given a model provider. What comes out is a job that
//! says how to run the agent. Each step needs the value of the step before it,
//! so that no job exists that the guard has not cleared.

use std::sync::Arc;

use vstd::prelude::*;

use crate::delegate;
use crate::delegate::{Brain, DelegateTool, ProviderOptions};
use crate::evidence::GuardSteps;
use crate::guard;
use crate::policy::SecurityPolicy;
use crate::reply;
use crate::reply::ToolResult;
use crate::schema::{AliasedAgentConfig, Config};
use crate::text;

verus! {

/// How a request is to be run.
#[derive(Debug, Clone, Copy, PartialEq, Eq, Structural)]
pub enum Dispatch {
    /// The caller waits for the answer.
    Foreground,
    /// The caller gets a task id.
    Background,
}

/// The names of agents as an answer lists them.
pub open spec fn roster_text(names: Seq<Seq<char>>) -> Seq<char> {
    if names.len() == 0 {
        "(none configured)"@
    } else {
        text::joined(names, ", "@)
    }
}

/// The answer for an agent that is not configured.
pub open spec fn unknown_agent_text(name: Seq<char>, names: Seq<Seq<char>>) -> Seq<char> {
    "Unknown agent '"@ + name + "'. Available agents: "@ + roster_text(names)
}

/// The answer at the end of the delegation chain.
pub open spec fn depth_text(depth: u32, max: u32, dispatch: Dispatch) -> Seq<char> {
    "Delegation depth limit reached ("@ + text::decimal(depth as nat) + "/"@ + text::decimal(
        max as nat,
    ) + (match dispatch {
        Dispatch::Foreground =>
            "). Cannot delegate further to prevent infinite loops."@,
        Dispatch::Background => ")."@,
    })
}

/// Why a request is not admitted, if it is not: the agent is unknown, or the
/// tool stands at the greatest depth that the agent's profile allows.
pub open spec fn admission_refusal(
    tool: DelegateTool,
    name: Seq<char>,
    dispatch: Dispatch,
) -> Option<Seq<char>> {
    match tool.agents.lookup(name) {
        None => Some(unknown_agent_text(name, tool.agents.keys())),
        Some(agent) => {
            let max = delegate::max_depth_of(*tool.runtime_profiles, agent.runtime_profile@);
            if tool.depth >= max {
                Some(depth_text(tool.depth, max, dispatch))
            } else {
                None
            }
        },
    }
}

/// The names of agents as an answer lists them.
pub(crate) fn list_agents(names: &Vec<String>) -> (r: String)
    ensures
        r@ == roster_text(names.deep_view()),
{
    if names.len() == 0 {
        "(none configured)".to_owned()
    } else {
        text::join(names, ", ")
    }
}

/// A request for a known agent, within the allowed depth.
pub struct Admission<'a> {
    tool: &'a DelegateTool,
    name: String,
    agent: &'a AliasedAgentConfig,
}

impl<'a> Admission<'a> {
    /// The tool that the request came to.
    pub closed spec fn tool(self) -> DelegateTool {
        *self.tool
    }

    /// The agent's name.
    pub closed spec fn name(self) -> Seq<char> {
        self.name@
    }

    /// The agent's configuration.
    pub closed spec fn agent(self) -> AliasedAgentConfig {
        *self.agent
    }

    /// Whether this is the admission of a request to a tool for an agent, which
    /// there is for a known agent within the allowed depth only.
    pub open spec fn admits(self, tool: DelegateTool, name: Seq<char>, dispatch: Dispatch) -> bool {
        &&& admission_refusal(tool, name, dispatch) is None
        &&& self.tool() == tool
        &&& self.name() == name
        &&& tool.agents.lookup(name) == Some(self.agent())
    }

    /// The agent's name.
    pub fn agent_name(&self) -> (r: &String)
        ensures
            r@ == self.name(),
    {
        &self.name
    }

    /// The tool that the request came to.
    pub fn delegate_tool(&self) -> (r: &'a DelegateTool)
        ensures
            *r == self.tool(),
    {
        self.tool
    }

    /// Charges the request against the caller's budget: `enforcement` is what
    /// the caller's policy says to it.
    pub fn charge(self, enforcement: Result<(), String>) -> (r: Result<Charged<'a>, ToolResult>)
        ensures
            match (enforcement, r) {
                (Ok(()), Ok(charged)) => charged.tool() == self.tool() && charged.name()
                    == self.name() && charged.agent() == self.agent(),
                (Err(e), Err(answer)) => answer@ == reply::refused(e@),
                _ => false,
            },
    {
        match enforcement {
            Ok(()) => Ok(Charged { tool: self.tool, name: self.name, agent: self.agent }),
            Err(e) => Err(ToolResult::refusal(e)),
        }
    }
}

/// A request that was charged against the caller's budget.
pub struct Charged<'a> {
    tool: &'a DelegateTool,
    name: String,
    agent: &'a AliasedAgentConfig,
}

impl<'a> Charged<'a> {
    /// The tool that the request came to.
    pub closed spec fn tool(self) -> DelegateTool {
        *self.tool
    }

    /// The agent's name.
    pub closed spec fn name(self) -> Seq<char> {
        self.name@
    }

    /// The agent's configuration.
    pub closed spec fn agent(self) -> AliasedAgentConfig {
        *self.agent
    }

    /// Takes the request through the guard.
    pub fn clear<R, B, P, X, C>(self, steps: &GuardSteps<R, B, P, X, C>) -> (r: Result<
        Cleared<'a>,
        ToolResult,
    >) where
        R: Fn(&Config, &str) -> Result<SecurityPolicy, String>,
        B: Fn(&Config, &str, &str, &str) -> SecurityPolicy,
        P: Fn(&Config, &str, SecurityPolicy) -> SecurityPolicy,
        X: Fn(&SecurityPolicy, &SecurityPolicy) -> Option<String>,
        C: Fn(&str) -> Option<String>,

        requires
            steps.callable(),
        ensures
            exists|verdict: Result<Arc<SecurityPolicy>, String>| #[trigger]
                steps.judged(self.tool(), self.name(), verdict) && match (verdict, r) {
                    (Ok(policy), Ok(cleared)) => {
                        &&& cleared.tool() == self.tool()
                        &&& cleared.name() == self.name()
                        &&& cleared.agent() == self.agent()
                        &&& cleared.policy() == policy
                    },
                    (Err(reason), Err(answer)) => answer@ == reply::refused(reason@),
                    _ => false,
                },
    {
        let verdict = steps.judge_target(self.tool, &self.name);
        let ghost given = verdict;
        assert(steps.judged(self.tool(), self.name(), given));
        match verdict {
            Ok(policy) => Ok(
                Cleared { tool: self.tool, name: self.name, agent: self.agent, policy },
            ),
            Err(reason) => Err(ToolResult::refusal(reason)),
        }
    }
}

/// How an agent is run.
#[derive(Debug, Clone, Copy, PartialEq, Eq, Structural)]
pub enum RunMode {
    /// One prompt, no tools.
    Chat,
    /// A tool-call loop with the caller's tools.
    InProcess,
    /// A tool-call loop with tools rebuilt under the target's policy.
    Rebuilt,
}

/// Whether the calling agent is configured on another risk profile than the
/// target.
pub open spec fn crosses_profiles(tool: DelegateTool, agent: AliasedAgentConfig) -> bool {
    match tool.root_config {
        Some(config) => match config.agents.lookup(tool.caller_alias@) {
            Some(caller) => text::trimmed(caller.risk_profile@) != text::trimmed(
                agent.risk_profile@,
            ),
            None => false,
        },
        None => false,
    }
}

/// How an agent is run: by one prompt unless its runtime profile runs a
/// tool-call loop; the caller's tools serve that loop only where both agents
/// are on one risk profile.
pub open spec fn run_mode(tool: DelegateTool, agent: AliasedAgentConfig) -> RunMode {
    if !delegate::agentic_of(*tool.runtime_profiles, agent.runtime_profile@) {
        RunMode::Chat
    } else if crosses_profiles(tool, agent) {
        RunMode::Rebuilt
    } else {
        RunMode::InProcess
    }
}

/// A task with its context, where there is one.
pub open spec fn full_prompt(context: Seq<char>, prompt: Seq<char>) -> Seq<char> {
    if context.len() == 0 {
        prompt
    } else {
        "[Context]\n"@ + context + "\n\n[Task]\n"@ + prompt
    }
}

/// A task with its context, where there is one.
pub fn compose_prompt(context: &str, prompt: &str) -> (r: String)
    ensures
        r@ == full_prompt(context@, prompt@),
{
    if context.unicode_len() == 0 {
        prompt.to_owned()
    } else {
        let mut out = "[Context]\n".to_owned();
        out.append(context);
        out.append("\n\n[Task]\n");
        out.append(prompt);
        out
    }
}

/// The answer when the model provider of an agent cannot be made.
pub open spec fn provider_text(
    provider_type: Seq<char>,
    name: Seq<char>,
    error: Seq<char>,
) -> Seq<char> {
    "Failed to create model_provider '"@ + provider_type + "' for agent '"@ + name + "': "@ + error
}

/// A request that the guard let pass.
pub struct Cleared<'a> {
    tool: &'a DelegateTool,
    name: String,
    agent: &'a AliasedAgentConfig,
    policy: Arc<SecurityPolicy>,
}

impl<'a> Cleared<'a> {
    /// The tool that the request came to.
    pub closed spec fn tool(self) -> DelegateTool {
        *self.tool
    }

    /// The agent's name.
    pub closed spec fn name(self) -> Seq<char> {
        self.name@
    }

    /// The agent's configuration.
    pub closed spec fn agent(self) -> AliasedAgentConfig {
        *self.agent
    }

    /// The policy that the agent runs under.
    pub closed spec fn policy(self) -> Arc<SecurityPolicy> {
        self.policy
    }

    /// The agent's name.
    pub fn agent_name(&self) -> (r: &String)
        ensures
            r@ == self.name(),
    {
        &self.name
    }

    /// The tool that the request came to.
    pub fn delegate_tool(&self) -> (r: &'a DelegateTool)
        ensures
            *r == self.tool(),
    {
        self.tool
    }

    /// The policy that the agent runs under.
    pub fn target_policy(&self) -> (r: Arc<SecurityPolicy>)
        ensures
            r == self.policy(),
    {
        Arc::clone(&self.policy)
    }

    /// The provider type, credential and model of the agent.
    pub fn brain(&self) -> (r: Brain)
        ensures
            r.provider_type@ == delegate::provider_type_of(self.agent().model_provider@),
            text::optional(r.credential) == self.tool().credential_for(
                self.agent().model_provider@,
            ),
            r.model@ == self.tool().model_for(self.agent().model_provider@),
            r.configured == delegate::provider_entry(
                *self.tool().providers_models,
                self.agent().model_provider@,
            ) is Some,
    {
        self.tool.resolve_brain(&self.agent.model_provider)
    }

    /// The provider options of the agent: those of its own provider entry, else
    /// the inherited ones.
    pub fn provider_options(&self) -> (r: ProviderOptions<'_>)
        ensures
            delegate::options_for(self.tool(), self.agent().model_provider@, r),
    {
        self.tool.resolve_delegate_provider_options(&self.agent.model_provider)
    }

    /// Turns the request into a job. `created` is the model provider, where it
    /// could be made; it comes back with the job.
    pub fn provision<P>(self, created: Result<P, String>, prompt: &str, context: &str) -> (r:
        Result<(SyncJob<'a>, P), ToolResult>)
        ensures
            match (created, r) {
                (Ok(made), Ok((job, provider))) => {
                    &&& provider == made
                    &&& job.tool() == self.tool()
                    &&& job.name() == self.name()
                    &&& job.agent() == self.agent()
                    &&& job.policy() == self.policy()
                    &&& job.prompt() == full_prompt(context@, prompt@)
                    &&& job.mode() == run_mode(self.tool(), self.agent())
                },
                (Err(e), Err(answer)) => answer@ == reply::refused(
                    provider_text(
                        delegate::provider_type_of(self.agent().model_provider@),
                        self.name(),
                        e@,
                    ),
                ),
                _ => false,
            },
    {
        let brain = self.brain();
        match created {
            Ok(provider) => {
                let mode = self.tool.mode_for(self.agent);
                let job = SyncJob {
                    tool: self.tool,
                    name: self.name,
                    agent: self.agent,
                    policy: self.policy,
                    prompt: compose_prompt(context, prompt),
                    mode,
                };
                Ok((job, provider))
            },
            Err(e) => {
                let mut out = "Failed to create model_provider '".to_owned();
                out.append(&brain.provider_type);
                out.append("' for agent '");
                out.append(&self.name);
                out.append("': ");
                out.append(&e);
                Err(ToolResult::refusal(out))
            },
        }
    }
}

/// Whether a request was answered with a refusal for a reason.
pub open spec fn answered_by(r: Result<Cleared, ToolResult>, reason: Seq<char>) -> bool {
    match r {
        Err(answer) => answer@ == reply::refused(reason),
        Ok(_) => false,
    }
}

/// Whether `r` is what becomes of a request for a known agent once the guard has
/// spoken.
pub open spec fn guarded(
    tool: DelegateTool,
    name: Seq<char>,
    verdict: Result<Arc<SecurityPolicy>, String>,
    r: Result<Cleared, ToolResult>,
) -> bool {
    match (verdict, r) {
        (Ok(policy), Ok(cleared)) => {
            &&& cleared.tool() == tool
            &&& cleared.name() == name
            &&& tool.agents.lookup(name) == Some(cleared.agent())
            &&& cleared.policy() == policy
        },
        (Err(reason), r) => answered_by(r, reason@),
        _ => false,
    }
}

impl DelegateTool {
    /// Admits a request for an agent that is known and whose profile allows
    /// another step in the delegation chain.
    pub fn open_request<'a>(&'a self, agent_name: &str, dispatch: Dispatch) -> (r: Result<
        Admission<'a>,
        ToolResult,
    >)
        ensures
            match (admission_refusal(*self, agent_name@, dispatch), r) {
                (None, Ok(admission)) => {
                    &&& admission.tool() == *self
                    &&& admission.name() == agent_name@
                    &&& self.agents.lookup(agent_name@) == Some(admission.agent())
                },
                (Some(reason), Err(answer)) => answer@ == reply::refused(reason),
                _ => false,
            },
    {
        let agent = match self.agents.get(agent_name) {
            Some(agent) => agent,
            None => {
                let names = self.agents.names();
                let mut out = "Unknown agent '".to_owned();
                out.append(agent_name);
                out.append("'. Available agents: ");
                let listed = list_agents(&names);
                out.append(&listed);
                return Err(ToolResult::refusal(out));
            },
        };
        let max = self.resolve_max_depth(&agent.runtime_profile);
        if self.depth >= max {
            let mut out = "Delegation depth limit reached (".to_owned();
            let depth_shown = text::to_decimal(self.depth as u64);
            out.append(&depth_shown);
            out.append("/");
            let max_shown = text::to_decimal(max as u64);
            out.append(&max_shown);
            match dispatch {
                Dispatch::Foreground => {
                    out.append("). Cannot delegate further to prevent infinite loops.");
                },
                Dispatch::Background => {
                    out.append(").");
                },
            }
            return Err(ToolResult::refusal(out));
        }
        Ok(Admission { tool: self, name: agent_name.to_owned(), agent })
    }

    /// Takes a request through admission, budget and guard, in this order; the
    /// first that refuses gives the answer, and what comes after it is not
    /// asked. `enforce` charges an admitted request against the caller's budget;
    /// it can be called for an admitted request only.
    pub fn clear_request<'a, E, R, B, P, X, C>(
        &'a self,
        agent_name: &str,
        dispatch: Dispatch,
        enforce: E,
        steps: &GuardSteps<R, B, P, X, C>,
    ) -> (r: Result<Cleared<'a>, ToolResult>) where
        E: FnOnce(&Admission<'a>) -> Result<(), String>,
        R: Fn(&Config, &str) -> Result<SecurityPolicy, String>,
        B: Fn(&Config, &str, &str, &str) -> SecurityPolicy,
        P: Fn(&Config, &str, SecurityPolicy) -> SecurityPolicy,
        X: Fn(&SecurityPolicy, &SecurityPolicy) -> Option<String>,
        C: Fn(&str) -> Option<String>,

        requires
            forall|admission: Admission<'a>|
                admission.admits(*self, agent_name@, dispatch) ==> #[trigger] call_requires(
                    enforce,
                    (&admission,),
                ),
            steps.callable(),
        ensures
            match admission_refusal(*self, agent_name@, dispatch) {
                Some(reason) => answered_by(r, reason),
                None => exists|admission: Admission<'a>, charge: Result<(), String>|
                    {
                        &&& admission.admits(*self, agent_name@, dispatch)
                        &&& #[trigger] call_ensures(enforce, (&admission,), charge)
                        &&& match charge {
                            Err(reason) => answered_by(r, reason@),
                            Ok(()) => exists|verdict: Result<Arc<SecurityPolicy>, String>|
                                #[trigger]
                                steps.judged(*self, agent_name@, verdict) && guarded(
                                    *self,
                                    agent_name@,
                                    verdict,
                                    r,
                                ),
                        }
                    },
            },
    {
        let admission = match self.open_request(agent_name, dispatch) {
            Ok(admission) => admission,
            Err(answer) => {
                return Err(answer);
            },
        };
        let ghost admitted = admission;
        let charge = enforce(&admission);
        assert(call_ensures(enforce, (&admitted,), charge));
        let charged = match admission.charge(charge) {
            Ok(charged) => charged,
            Err(answer) => {
                return Err(answer);
            },
        };
        charged.clear(steps)
    }

    /// How an agent is run.
    pub fn mode_for(&self, agent: &AliasedAgentConfig) -> (r: RunMode)
        ensures
            r == run_mode(*self, *agent),
    {
        if !self.resolve_agentic(&agent.runtime_profile) {
            return RunMode::Chat;
        }
        if let Some(config) = &self.root_config {
            if let Some(caller) = config.agents.get(&self.caller_alias) {
                if !text::same_text(
                    text::trim(&caller.risk_profile),
                    text::trim(&agent.risk_profile),
                ) {
                    return RunMode::Rebuilt;
                }
            }
        }
        RunMode::InProcess
    }
}

/// What became of a run.
pub enum RunOutcome {
    /// It took longer than it may.
    TimedOut,
    /// It failed.
    Failed(String),
    /// It gave a reply, which may hold no text.
    Replied(Option<String>),
}

/// Seconds that a run may take: what the runtime profile sets, else the default
/// for the mode.
pub open spec fn timeout_for(
    tool: DelegateTool,
    agent: AliasedAgentConfig,
    mode: RunMode,
) -> u64 {
    match mode {
        RunMode::Chat => match delegate::delegation_timeout_of(
            *tool.runtime_profiles,
            agent.runtime_profile@,
        ) {
            Some(secs) => secs,
            None => tool.delegate_config.timeout_secs,
        },
        _ => match delegate::agentic_timeout_of(*tool.runtime_profiles, agent.runtime_profile@) {
            Some(secs) => secs,
            None => tool.delegate_config.agentic_timeout_secs,
        },
    }
}

/// The reply of an agent, or a note that it is empty.
pub open spec fn reply_text(reply: Option<Seq<char>>) -> Seq<char> {
    match reply {
        Some(reply) => if text::trimmed(reply).len() == 0 {
            "[Empty response]"@
        } else {
            reply
        },
        None => "[Empty response]"@,
    }
}

/// What precedes the reply of an agent.
pub open spec fn reply_header(
    name: Seq<char>,
    provider_type: Seq<char>,
    model: Seq<char>,
    mode: RunMode,
) -> Seq<char> {
    "[Agent '"@ + name + "' ("@ + provider_type + "/"@ + model + (match mode {
        RunMode::Chat => ")]\n"@,
        _ => ", agentic)]\n"@,
    })
}

/// What a run is answered.
pub open spec fn run_reply(
    tool: DelegateTool,
    name: Seq<char>,
    agent: AliasedAgentConfig,
    mode: RunMode,
    outcome: RunOutcome,
) -> reply::Reply {
    match outcome {
        RunOutcome::TimedOut => reply::refused(
            "Agent '"@ + name + "' timed out after "@ + text::decimal(
                timeout_for(tool, agent, mode) as nat,
            ) + "s"@,
        ),
        RunOutcome::Failed(e) => reply::refused("Agent '"@ + name + "' failed: "@ + e@),
        RunOutcome::Replied(reply) => reply::produced(
            reply_header(
                name,
                delegate::provider_type_of(agent.model_provider@),
                tool.model_for(agent.model_provider@),
                mode,
            ) + reply_text(text::optional(reply)),
        ),
    }
}

/// Tokens that a call of a model took, where they are known.
#[derive(Debug, Clone, Copy, PartialEq, Eq, Structural)]
pub struct TokenUsage {
    pub input_tokens: Option<u64>,
    pub output_tokens: Option<u64>,
}

/// The provider and the model that served a call in place of those asked for.
#[derive(Debug)]
pub struct ProviderFallback {
    pub actual_provider: String,
    pub actual_model: String,
}

/// What is recorded of a model's reply to a single prompt.
#[derive(Debug)]
pub struct ResponseEvent {
    /// Provider type that was asked for.
    pub model_provider: String,
    /// Model that was asked for.
    pub model: String,
    /// Tokens that went in.
    pub input_tokens: Option<u64>,
    /// Tokens that came out.
    pub output_tokens: Option<u64>,
    /// Provider that served the call, where it was another.
    pub actual_provider: Option<String>,
    /// Model that served the call, where it was another.
    pub actual_model: Option<String>,
}

/// How a target on another profile is run.
pub struct RebuildOrder {
    /// The configuration that the tools are built from.
    pub config: Arc<Config>,
    /// The task with its context.
    pub prompt: String,
    /// The only tools that the run may use.
    pub allowed_tools: Vec<String>,
    /// The policy that the run is under.
    pub policy: Arc<SecurityPolicy>,
    /// Whether the run counts as one of a sub-agent, which starts no other.
    pub is_subagent: bool,
}

/// The positions of the first `n` tools that a tool-call loop may use: those
/// whose names are on the list, without `delegate`.
pub open spec fn selected(tools: Seq<Seq<char>>, allowed: Seq<Seq<char>>, n: int) -> Seq<usize>
    decreases n,
{
    if n <= 0 {
        seq![]
    } else {
        let before = selected(tools, allowed, n - 1);
        if may_run(tools[n - 1], allowed) {
            before.push((n - 1) as usize)
        } else {
            before
        }
    }
}

/// Whether a tool-call loop may use a tool: its name is on the list, where
/// whitespace round an entry does not count, and it is not `delegate`.
pub open spec fn may_run(tool: Seq<char>, allowed: Seq<Seq<char>>) -> bool {
    &&& tool.len() > 0
    &&& tool != "delegate"@
    &&& exists|i: int| 0 <= i < allowed.len() && text::trimmed(#[trigger] allowed[i]) == tool
}

/// The answer for a risk profile without tools.
pub open spec fn no_allowed_tools_text(name: Seq<char>, risk_profile: Seq<char>) -> Seq<char> {
    "Agent '"@ + name + "' is agentic but risk_profile '"@ + risk_profile
        + "' has no allowed_tools"@
}

/// The answer when none of the caller's tools is on the list.
pub open spec fn no_executable_tools_text(
    name: Seq<char>,
    allowed: Seq<Seq<char>>,
) -> Seq<char> {
    "Agent '"@ + name + "' has no executable tools after filtering allowlist ("@ + text::joined(
        allowed,
        ", "@,
    ) + ")"@
}

/// The answer when there is no configuration to rebuild tools from.
pub open spec fn no_config_text(name: Seq<char>) -> Seq<char> {
    "Agent '"@ + name + "' requires a loaded config for cross-profile agentic delegation"@
}

/// The answer when nothing is left of the list to rebuild.
pub open spec fn no_rebuild_tools_text(name: Seq<char>) -> Seq<char> {
    "Agent '"@ + name
        + "' is agentic cross-profile but resolves no non-`delegate` allowed_tools"@
}

/// An agent that is ready to be run.
pub struct SyncJob<'a> {
    tool: &'a DelegateTool,
    name: String,
    agent: &'a AliasedAgentConfig,
    policy: Arc<SecurityPolicy>,
    prompt: String,
    mode: RunMode,
}

impl<'a> SyncJob<'a> {
    /// The tool that the request came to.
    pub closed spec fn tool(self) -> DelegateTool {
        *self.tool
    }

    /// The agent's name.
    pub closed spec fn name(self) -> Seq<char> {
        self.name@
    }

    /// The agent's configuration.
    pub closed spec fn agent(self) -> AliasedAgentConfig {
        *self.agent
    }

    /// The policy that the agent runs under.
    pub closed spec fn policy(self) -> Arc<SecurityPolicy> {
        self.policy
    }

    /// The task with its context.
    pub closed spec fn prompt(self) -> Seq<char> {
        self.prompt@
    }

    /// How the agent is run.
    pub closed spec fn mode(self) -> RunMode {
        self.mode
    }

    /// The agent's name.
    pub fn agent_name(&self) -> (r: &String)
        ensures
            r@ == self.name(),
    {
        &self.name
    }

    /// The agent's configuration.
    pub fn agent_config(&self) -> (r: &'a AliasedAgentConfig)
        ensures
            *r == self.agent(),
    {
        self.agent
    }

    /// The policy that the agent runs under.
    pub fn target_policy(&self) -> (r: Arc<SecurityPolicy>)
        ensures
            r == self.policy(),
    {
        Arc::clone(&self.policy)
    }

    /// The task with its context.
    pub fn full_prompt(&self) -> (r: &String)
        ensures
            r@ == self.prompt(),
    {
        &self.prompt
    }

    /// How the agent is run.
    pub fn run_mode(&self) -> (r: RunMode)
        ensures
            r == self.mode(),
    {
        self.mode
    }

    /// Seconds that the run may take.
    pub fn timeout_secs(&self) -> (r: u64)
        ensures
            r == timeout_for(self.tool(), self.agent(), self.mode()),
    {
        match self.mode {
            RunMode::Chat => match self.tool.resolve_delegation_timeout(
                &self.agent.runtime_profile,
            ) {
                Some(secs) => secs,
                None => self.tool.delegate_config.timeout_secs,
            },
            _ => match self.tool.resolve_agentic_timeout_secs(&self.agent.runtime_profile) {
                Some(secs) => secs,
                None => self.tool.delegate_config.agentic_timeout_secs,
            },
        }
    }

    /// The greatest number of tool iterations of the run.
    pub fn max_iterations(&self) -> (r: usize)
        ensures
            r == delegate::max_iterations_of(
                *self.tool().runtime_profiles,
                self.agent().runtime_profile@,
            ),
    {
        self.tool.resolve_max_iterations(&self.agent.runtime_profile)
    }

    /// What the run is answered.
    pub fn finish(&self, outcome: RunOutcome) -> (r: ToolResult)
        ensures
            r@ == run_reply(self.tool(), self.name(), self.agent(), self.mode(), outcome),
    {
        let mut out = "Agent '".to_owned();
        out.append(&self.name);
        match outcome {
            RunOutcome::TimedOut => {
                out.append("' timed out after ");
                let secs = text::to_decimal(self.timeout_secs());
                out.append(&secs);
                out.append("s");
                ToolResult::refusal(out)
            },
            RunOutcome::Failed(e) => {
                out.append("' failed: ");
                out.append(&e);
                ToolResult::refusal(out)
            },
            RunOutcome::Replied(reply) => {
                let brain = self.tool.resolve_brain(&self.agent.model_provider);
                let mut out = "[Agent '".to_owned();
                out.append(&self.name);
                out.append("' (");
                out.append(&brain.provider_type);
                out.append("/");
                out.append(&brain.model);
                match self.mode {
                    RunMode::Chat => {
                        out.append(")]\n");
                    },
                    _ => {
                        out.append(", agentic)]\n");
                    },
                }
                let rendered = match reply {
                    Some(reply) => if text::trim(&reply).unicode_len() == 0 {
                        "[Empty response]".to_owned()
                    } else {
                        reply
                    },
                    None => "[Empty response]".to_owned(),
                };
                out.append(&rendered);
                ToolResult::product(out)
            },
        }
    }

    /// The positions of the caller's tools that the run may use, given the
    /// names of those tools.
    pub fn select_tools(&self, tool_names: &Vec<String>) -> (r: Result<Vec<usize>, ToolResult>)
        ensures
            ({
                let allowed = delegate::allowed_tools_of(
                    *self.tool().risk_profiles,
                    self.agent().risk_profile@,
                );
                let found = selected(tool_names.deep_view(), allowed, tool_names.len() as int);
                match r {
                    Ok(positions) => allowed.len() > 0 && found.len() > 0 && positions@ == found,
                    Err(answer) => if allowed.len() == 0 {
                        answer@ == reply::refused(
                            no_allowed_tools_text(self.name(), self.agent().risk_profile@),
                        )
                    } else {
                        &&& found.len() == 0
                        &&& answer@ == reply::refused(
                            no_executable_tools_text(self.name(), allowed),
                        )
                    },
                }
            }),
    {
        let allowed = self.tool.resolve_allowed_tools(&self.agent.risk_profile);
        assert(allowed.deep_view().len() == allowed.len());
        if allowed.len() == 0 {
            let mut out = "Agent '".to_owned();
            out.append(&self.name);
            out.append("' is agentic but risk_profile '");
            out.append(&self.agent.risk_profile);
            out.append("' has no allowed_tools");
            return Err(ToolResult::refusal(out));
        }
        let ghost names = tool_names.deep_view();
        let mut positions: Vec<usize> = Vec::new();
        let mut i: usize = 0;
        while i < tool_names.len()
            invariant
                i <= tool_names.len(),
                names == tool_names.deep_view(),
                positions@ == selected(names, allowed.deep_view(), i as int),
            decreases tool_names.len() - i,
        {
            assert(names[i as int] == tool_names[i as int]@);
            if runnable(&tool_names[i], &allowed) {
                positions.push(i);
            }
            i += 1;
        }
        if positions.len() == 0 {
            let mut out = "Agent '".to_owned();
            out.append(&self.name);
            out.append("' has no executable tools after filtering allowlist (");
            let listed = text::join(&allowed, ", ");
            out.append(&listed);
            out.append(")");
            return Err(ToolResult::refusal(out));
        }
        Ok(positions)
    }

    /// How the agent is run under its own policy, with tools that are built for
    /// it alone.
    pub fn rebuild_order(&self) -> (r: Result<RebuildOrder, ToolResult>)
        ensures
            ({
                let rebuilt = guard::rebuild_list(
                    delegate::allowed_tools_of(
                        *self.tool().risk_profiles,
                        self.agent().risk_profile@,
                    ),
                );
                match r {
                    Ok(order) => {
                        &&& self.tool().root_config == Some(order.config)
                        &&& rebuilt.len() > 0
                        &&& order.allowed_tools.deep_view() == rebuilt
                        &&& order.prompt@ == self.prompt()
                        &&& order.policy == self.policy()
                        &&& order.is_subagent
                    },
                    Err(answer) => if self.tool().root_config is None {
                        answer@ == reply::refused(no_config_text(self.name()))
                    } else {
                        rebuilt.len() == 0 && answer@ == reply::refused(
                            no_rebuild_tools_text(self.name()),
                        )
                    },
                }
            }),
    {
        let config = match &self.tool.root_config {
            Some(config) => Arc::clone(config),
            None => {
                let mut out = "Agent '".to_owned();
                out.append(&self.name);
                out.append("' requires a loaded config for cross-profile agentic delegation");
                return Err(ToolResult::refusal(out));
            },
        };
        let allowed = self.tool.resolve_allowed_tools(&self.agent.risk_profile);
        let rebuilt = DelegateTool::agentic_rebuild_allowlist(&allowed);
        assert(rebuilt.deep_view().len() == rebuilt.len());
        if rebuilt.len() == 0 {
            let mut out = "Agent '".to_owned();
            out.append(&self.name);
            out.append("' is agentic cross-profile but resolves no non-`delegate` allowed_tools");
            return Err(ToolResult::refusal(out));
        }
        Ok(
            RebuildOrder {
                config,
                prompt: self.prompt.clone(),
                allowed_tools: rebuilt,
                policy: Arc::clone(&self.policy),
                is_subagent: true,
            },
        )
    }

    /// What is recorded of the model's reply to a single prompt: the provider
    /// and the model that were asked for, and those that served it in their
    /// place.
    pub fn response_event(
        &self,
        usage: Option<TokenUsage>,
        fallback: Option<ProviderFallback>,
    ) -> (r: ResponseEvent)
        ensures
            r.model_provider@ == delegate::provider_type_of(self.agent().model_provider@),
            r.model@ == self.tool().model_for(self.agent().model_provider@),
            r.input_tokens == (match usage {
                Some(u) => u.input_tokens,
                None => None,
            }),
            r.output_tokens == (match usage {
                Some(u) => u.output_tokens,
                None => None,
            }),
            r.actual_provider == (match fallback {
                Some(f) => Some(f.actual_provider),
                None => None,
            }),
            r.actual_model == (match fallback {
                Some(f) => Some(f.actual_model),
                None => None,
            }),
    {
        let brain = self.tool.resolve_brain(&self.agent.model_provider);
        let (input_tokens, output_tokens) = match usage {
            Some(u) => (u.input_tokens, u.output_tokens),
            None => (None, None),
        };
        let (actual_provider, actual_model) = match fallback {
            Some(f) => (Some(f.actual_provider), Some(f.actual_model)),
            None => (None, None),
        };
        ResponseEvent {
            model_provider: brain.provider_type,
            model: brain.model,
            input_tokens,
            output_tokens,
            actual_provider,
            actual_model,
        }
    }
}

/// Whether a tool-call loop may use a tool.
fn runnable(tool: &str, allowed: &Vec<String>) -> (r: bool)
    ensures
        r == may_run(tool@, allowed.deep_view()),
{
    if tool.unicode_len() == 0 || text::same_text(tool, "delegate") {
        return false;
    }
    let mut i: usize = 0;
    while i < allowed.len()
        invariant
            i <= allowed.len(),
            tool@.len() > 0,
            tool@ != "delegate"@,
            forall|k: int| 0 <= k < i ==> text::trimmed(#[trigger] allowed.deep_view()[k]) != tool@,
        decreases allowed.len() - i,
    {
        assert(allowed.deep_view()[i as int] == allowed[i as int]@);
        if text::same_text(text::trim(&allowed[i]), tool) {
            return true;
        }
        i += 1;
    }
    false
}

/// A request is admitted exactly when the agent is known and the tool stands
/// above the greatest depth of the agent's profile, in the foreground as in the
/// background.
pub proof fn admitted_exactly(tool: DelegateTool, name: Seq<char>, dispatch: Dispatch)
    ensures
        admission_refusal(tool, name, dispatch) is None <==> {
            &&& tool.agents.lookup(name) matches Some(agent)
            &&& tool.depth < delegate::max_depth_of(
                *tool.runtime_profiles,
                agent.runtime_profile@,
            )
        },
        admission_refusal(tool, name, Dispatch::Foreground) is None <==> admission_refusal(
            tool,
            name,
            Dispatch::Background,
        ) is None,
{
}

/// A tool-call loop runs with the caller's tools only where the calling agent,
/// if it is configured, is on the target's risk profile.
pub proof fn shared_tools_need_one_profile(
    tool: DelegateTool,
    agent: AliasedAgentConfig,
    config: Arc<Config>,
    caller: AliasedAgentConfig,
)
    requires
        run_mode(tool, agent) == RunMode::InProcess,
        tool.root_config == Some(config),
        config.agents.lookup(tool.caller_alias@) == Some(caller),
    ensures
        text::trimmed(caller.risk_profile@) == text::trimmed(agent.risk_profile@),
{
}

proof fn lemma_selected_members(
    tools: Seq<Seq<char>>,
    allowed: Seq<Seq<char>>,
    n: int,
    k: int,
)
    requires
        0 <= n <= tools.len(),
        tools.len() <= usize::MAX,
        0 <= k < selected(tools, allowed, n).len(),
    ensures
        0 <= selected(tools, allowed, n)[k] < n,
        may_run(tools[selected(tools, allowed, n)[k] as int], allowed),
    decreases n,
{
    let before = selected(tools, allowed, n - 1);
    if k < before.len() {
        assert(selected(tools, allowed, n)[k] == before[k]);
        lemma_selected_members(tools, allowed, n - 1, k);
    }
}

/// A tool-call loop is never handed `delegate`, and only tools that are on the
/// list.
pub proof fn loop_never_delegates(tools: Seq<Seq<char>>, allowed: Seq<Seq<char>>, k: int)
    requires
        tools.len() <= usize::MAX,
        0 <= k < selected(tools, allowed, tools.len() as int).len(),
    ensures
        ({
            let i = selected(tools, allowed, tools.len() as int)[k] as int;
            &&& 0 <= i < tools.len()
            &&& tools[i] != "delegate"@
            &&& exists|j: int|
                0 <= j < allowed.len() && text::trimmed(#[trigger] allowed[j]) == tools[i]
        }),
{
    lemma_selected_members(tools, allowed, tools.len() as int, k);
}

/// Every tool on the list but `delegate` is handed to a tool-call loop.
pub proof fn loop_gets_every_listed_tool(
    tools: Seq<Seq<char>>,
    allowed: Seq<Seq<char>>,
    n: int,
    i: int,
)
    requires
        0 <= i < n <= tools.len(),
        tools.len() <= usize::MAX,
        may_run(tools[i], allowed),
    ensures
        selected(tools, allowed, n).contains(i as usize),
    decreases n,
{
    let found = selected(tools, allowed, n);
    let before = selected(tools, allowed, n - 1);
    if i == n - 1 {
        assert(found[found.len() - 1] == i as usize);
    } else {
        loop_gets_every_listed_tool(tools, allowed, n - 1, i);
        let k = before.index_of(i as usize);
        assert(found[k] == i as usize);
    }
}

/// The tools of a rebuilt registry are those that a shared tool-call loop could
/// be handed under the same list.
pub proof fn rebuilt_tools_may_run(allowed: Seq<Seq<char>>, name: Seq<char>)
    ensures
        guard::rebuild_list(allowed).contains(name) <==> may_run(name, allowed),
{
    if guard::rebuild_list(allowed).contains(name) {
        crate::narrowing::rebuild_never_delegates(allowed, name);
    }
    if may_run(name, allowed) {
        let i = choose|i: int| 0 <= i < allowed.len() && text::trimmed(#[trigger] allowed[i]) == name;
        crate::narrowing::rebuild_keeps_tools(allowed, i);
    }
}

/// A run never gives a blank answer: an empty reply is replaced by a note.
pub proof fn reply_is_never_blank(reply: Option<Seq<char>>)
    ensures
        text::trimmed(reply_text(reply)).len() > 0,
{
    reveal_strlit("[Empty response]");
    let note = "[Empty response]"@;
    assert(!text::is_blank(note[0]));
    assert(!text::is_blank(note[note.len() - 1]));
    assert(text::trimmed_start(note) == note);
    assert(text::trimmed_end(note) == note);
}

} // verus!
