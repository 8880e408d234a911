//! Laws of runs: what a request goes through, and what it is answered.

use std::sync::Arc;

use vstd::prelude::*;

use crate::delegate::{Brain, DelegateTool, ProviderOptions};
use crate::dispatch;
use crate::dispatch::{
    Admission, Charged, Cleared, Dispatch, ProviderFallback, RebuildOrder, ResponseEvent, RunMode,
    RunOutcome, SyncJob, TokenUsage,
};
use crate::evidence::GuardSteps;
use crate::laws::policies;
use crate::laws::texts;
use crate::policy::SecurityPolicy;
use crate::reply::ToolResult;
use crate::schema::{AliasedAgentConfig, Config, RuntimeProfileConfig};
use crate::text;

verus! {

/// The runtime profile that an agent's name for it stands for, if any.
pub open spec fn profile_of(tool: DelegateTool, agent: AliasedAgentConfig) -> Option<
    RuntimeProfileConfig,
> {
    if agent.runtime_profile@.len() > 0 {
        tool.runtime_profiles.lookup(agent.runtime_profile@)
    } else {
        None
    }
}

/// A run may take what the agent's profile sets for its kind of run, and the
/// tool's own setting exactly where the profile sets nothing.
pub proof fn profile_sets_the_timeout<'a>(job: SyncJob<'a>, r: u64)
    requires
        call_ensures(SyncJob::timeout_secs, (&job,), r),
    ensures
        job.mode() == RunMode::Chat ==> match profile_of(job.tool(), job.agent()) {
            Some(p) => r == if p.delegation_timeout_secs is Some {
                p.delegation_timeout_secs->0
            } else {
                job.tool().delegate_config.timeout_secs
            },
            None => r == job.tool().delegate_config.timeout_secs,
        },
        job.mode() != RunMode::Chat ==> match profile_of(job.tool(), job.agent()) {
            Some(p) => r == if p.agentic_timeout_secs is Some {
                p.agentic_timeout_secs->0
            } else {
                job.tool().delegate_config.agentic_timeout_secs
            },
            None => r == job.tool().delegate_config.agentic_timeout_secs,
        },
{
}

/// The seconds that a profile sets for single prompts hold of single prompts, and
/// those that it sets for tool-call loops of tool-call loops.
pub proof fn timeout_is_that_of_the_profile(
    tool: DelegateTool,
    agent: AliasedAgentConfig,
    p: RuntimeProfileConfig,
    secs: u64,
)
    requires
        tool.runtime_profiles.lookup(agent.runtime_profile@) == Some(p),
        agent.runtime_profile@.len() > 0,
    ensures
        p.delegation_timeout_secs == Some(secs) ==> dispatch::timeout_for(
            tool,
            agent,
            RunMode::Chat,
        ) == secs,
        p.agentic_timeout_secs == Some(secs) ==> dispatch::timeout_for(
            tool,
            agent,
            RunMode::InProcess,
        ) == secs && dispatch::timeout_for(tool, agent, RunMode::Rebuilt) == secs,
        p.delegation_timeout_secs is None ==> dispatch::timeout_for(tool, agent, RunMode::Chat)
            == tool.delegate_config.timeout_secs,
        p.agentic_timeout_secs is None ==> dispatch::timeout_for(tool, agent, RunMode::InProcess)
            == tool.delegate_config.agentic_timeout_secs,
{
}

/// A run may iterate as often as the agent's profile says, ten times where it
/// says nothing.
pub proof fn profile_sets_the_iterations<'a>(job: SyncJob<'a>, r: usize)
    requires
        call_ensures(SyncJob::max_iterations, (&job,), r),
    ensures
        match profile_of(job.tool(), job.agent()) {
            Some(p) => r == if p.max_tool_iterations > 0 {
                p.max_tool_iterations
            } else {
                10
            },
            None => r == 10,
        },
{
}

/// Whether an agent's runtime profile runs a tool-call loop.
pub open spec fn loops(tool: DelegateTool, agent: AliasedAgentConfig) -> bool {
    let name = text::trimmed(agent.runtime_profile@);
    &&& name.len() > 0
    &&& tool.runtime_profiles.lookup(name) is Some
    &&& tool.runtime_profiles.lookup(name)->0.agentic
}

/// Whether the caller is configured on another risk profile than an agent.
pub open spec fn on_another_profile(tool: DelegateTool, agent: AliasedAgentConfig) -> bool {
    &&& tool.root_config matches Some(config)
    &&& config.agents.lookup(tool.caller_alias@) matches Some(caller)
    &&& text::trimmed(caller.risk_profile@) != text::trimmed(agent.risk_profile@)
}

/// An agent gets tools exactly where its profile runs a loop, and the caller's
/// own tools only where the two are not on different profiles.
pub proof fn caller_tools_stay_on_the_profile(
    tool: DelegateTool,
    agent: AliasedAgentConfig,
    r: RunMode,
)
    requires
        call_ensures(DelegateTool::mode_for, (&tool, &agent), r),
    ensures
        r == RunMode::Chat <==> !loops(tool, agent),
        r == RunMode::Rebuilt <==> loops(tool, agent) && on_another_profile(tool, agent),
        r == RunMode::InProcess <==> loops(tool, agent) && !on_another_profile(tool, agent),
{
}

proof fn lemma_regroup(a: Seq<char>, n: Seq<char>, b: Seq<char>, c: Seq<char>, d: Seq<char>)
    ensures
        a + n + b + c == a + n + (b + c),
        a + n + b + c + d == a + n + (b + c + d),
        a + n + b + c + d == (a + n + b) + (c + d),
        a + n + b + c + d == a + (n + b + c) + d,
        a + n + b + c == a + (n + b + c),
{
    assert(a + n + b + c =~= a + n + (b + c));
    assert(a + n + b + c + d =~= a + n + (b + c + d));
    assert(a + n + b + c + d =~= (a + n + b) + (c + d));
    assert(a + n + b + c + d =~= a + (n + b + c) + d);
    assert(a + n + b + c =~= a + (n + b + c));
}

/// A request is admitted exactly when the agent is known and stands at a depth
/// that its profile allows, three where it says nothing. The answer to any other
/// names the agent, or the depth and its limit.
pub proof fn depth_is_limited<'a>(
    tool: &'a DelegateTool,
    name: &str,
    dispatch: Dispatch,
    r: Result<Admission<'a>, ToolResult>,
)
    requires
        call_ensures(DelegateTool::open_request, (tool, name, dispatch), r),
    ensures
        tool.agents.lookup(name@) matches None ==> r matches Err(answer) && !answer.success
            && answer.error is Some && text::occurs_in(name@, answer.error->0@),
        tool.agents.lookup(name@) matches Some(agent) ==> {
            let limit: u32 = match profile_of(*tool, agent) {
                Some(p) => if p.max_delegation_depth > 0 {
                    p.max_delegation_depth
                } else {
                    3
                },
                None => 3,
            };
            &&& tool.depth < limit ==> {
                &&& r matches Ok(admission)
                &&& admission.tool() == *tool
                &&& admission.name() == name@
                &&& admission.agent() == agent
            }
            &&& tool.depth >= limit ==> {
                &&& r matches Err(answer)
                &&& !answer.success
                &&& answer.error is Some
                &&& text::occurs_in(
                    text::decimal(tool.depth as nat) + "/"@ + text::decimal(limit as nat),
                    answer.error->0@,
                )
            }
        },
{
    if let Err(answer) = r {
        assert(answer@.success == answer.success && answer@.error == text::optional(answer.error));
        let whole = answer.error->0@;
        if tool.agents.lookup(name@) is None {
            let a = "Unknown agent '"@;
            let b = "'. Available agents: "@;
            let c = dispatch::roster_text(tool.agents.keys());
            assert(whole == a + name@ + b + c);
            texts::stands_within(a, name@, b + c);
            lemma_regroup(a, name@, b, c, seq![]);
        } else {
            let agent = tool.agents.lookup(name@)->0;
            let max = limit_of(*tool, agent);
            let a = "Delegation depth limit reached ("@;
            let d = text::decimal(tool.depth as nat);
            let m = text::decimal(max as nat);
            let end = match dispatch {
                Dispatch::Foreground => "). Cannot delegate further to prevent infinite loops."@,
                Dispatch::Background => ")."@,
            };
            assert(whole == a + d + "/"@ + m + end);
            let both = d + "/"@ + m;
            texts::stands_within(a, both, end);
            lemma_regroup(a, d, "/"@, m, end);
        }
    }
}

/// An agent that is not known is answered with the names of those that are.
pub proof fn unknown_agent_is_told_the_others<'a>(
    tool: &'a DelegateTool,
    name: &str,
    dispatch: Dispatch,
    answer: ToolResult,
    i: int,
)
    requires
        call_ensures(
            DelegateTool::open_request,
            (tool, name, dispatch),
            Err::<Admission<'a>, ToolResult>(answer),
        ),
        tool.agents.lookup(name@) is None,
        0 <= i < tool.agents.keys().len(),
    ensures
        answer.error is Some,
        text::occurs_in(tool.agents.keys()[i], answer.error->0@),
{
    assert(answer@.error == text::optional(answer.error));
    let keys = tool.agents.keys();
    let list = text::joined(keys, ", "@);
    let front = "Unknown agent '"@ + name@ + "'. Available agents: "@;
    text::part_occurs_in_joined(keys, ", "@, i);
    text::occurs_in_longer(keys[i], list, front, seq![]);
    assert(front + list + seq![] =~= answer.error->0@);
}

/// A request goes on exactly when the caller's budget allows it, and is otherwise
/// answered with the reason that the budget gives.
pub proof fn budget_is_asked<'a>(
    admission: Admission<'a>,
    enforcement: Result<(), String>,
    r: Result<Charged<'a>, ToolResult>,
)
    requires
        call_ensures(Admission::charge, (admission, enforcement), r),
    ensures
        r is Ok <==> enforcement is Ok,
        r matches Ok(charged) ==> {
            &&& charged.tool() == admission.tool()
            &&& charged.name() == admission.name()
            &&& charged.agent() == admission.agent()
        },
        r matches Err(answer) ==> !answer.success && text::optional(answer.error) == Some(
            enforcement->Err_0@,
        ),
{
    if let Err(answer) = r {
        assert(answer@.success == answer.success && answer@.error == text::optional(answer.error));
    }
}

/// What the guard lets pass runs, with a configuration, under the policy that the
/// target's own name resolves to, on the caller's budget; and only where the
/// caller may delegate.
pub proof fn cleared_runs_under_its_own_policy<'a, R, B, P, X, C>(
    charged: Charged<'a>,
    steps: GuardSteps<R, B, P, X, C>,
    config: Arc<Config>,
    cleared: Cleared<'a>,
) where
    R: Fn(&Config, &str) -> Result<SecurityPolicy, String>,
    B: Fn(&Config, &str, &str, &str) -> SecurityPolicy,
    P: Fn(&Config, &str, SecurityPolicy) -> SecurityPolicy,
    X: Fn(&SecurityPolicy, &SecurityPolicy) -> Option<String>,
    C: Fn(&str) -> Option<String>,

    requires
        call_ensures(
            Charged::clear::<R, B, P, X, C>,
            (charged, &steps),
            Ok::<Cleared<'a>, ToolResult>(cleared),
        ),
        charged.tool().root_config == Some(config),
    ensures
        cleared.tool() == charged.tool(),
        cleared.name() == charged.name(),
        cleared.agent() == charged.agent(),
        charged.tool().security.delegation_policy.mode == crate::policy::DelegationMode::Allow,
        exists|name: &str, own: SecurityPolicy|
            {
                &&& name@ == charged.name()
                &&& #[trigger] call_ensures(steps.resolve, (&*config, name), Ok(own))
                &&& *cleared.policy() == (SecurityPolicy {
                    tracker: charged.tool().security.tracker,
                    ..own
                })
            },
{
    policies::judged_target_keeps_its_own_policy(
        steps,
        charged.tool(),
        config,
        charged.name(),
        cleared.policy(),
    );
}

/// A request that is cleared is one for a known agent, within the depth, that the
/// budget was asked for; and the target runs under its own policy.
pub proof fn cleared_request_went_all_the_way<'a, E, R, B, P, X, C>(
    tool: &'a DelegateTool,
    name: &str,
    dispatch: Dispatch,
    enforce: E,
    steps: GuardSteps<R, B, P, X, C>,
    config: Arc<Config>,
    cleared: Cleared<'a>,
) where
    E: FnOnce(&Admission<'a>) -> Result<(), String>,
    R: Fn(&Config, &str) -> Result<SecurityPolicy, String>,
    B: Fn(&Config, &str, &str, &str) -> SecurityPolicy,
    P: Fn(&Config, &str, SecurityPolicy) -> SecurityPolicy,
    X: Fn(&SecurityPolicy, &SecurityPolicy) -> Option<String>,
    C: Fn(&str) -> Option<String>,

    requires
        call_ensures(
            DelegateTool::clear_request::<E, R, B, P, X, C>,
            (tool, name, dispatch, enforce, &steps),
            Ok::<Cleared<'a>, ToolResult>(cleared),
        ),
        tool.root_config == Some(config),
    ensures
        cleared.tool() == *tool,
        cleared.name() == name@,
        tool.agents.lookup(name@) == Some(cleared.agent()),
        tool.depth < match profile_of(*tool, cleared.agent()) {
            Some(p) => if p.max_delegation_depth > 0 {
                p.max_delegation_depth
            } else {
                3
            },
            None => 3,
        },
        exists|admission: Admission<'a>| #[trigger]
            call_ensures(enforce, (&admission,), Ok::<(), String>(())) && admission.tool() == *tool
                && admission.name() == name@,
        tool.security.delegation_policy.mode == crate::policy::DelegationMode::Allow,
        exists|target: &str, own: SecurityPolicy|
            {
                &&& target@ == name@
                &&& #[trigger] call_ensures(steps.resolve, (&*config, target), Ok(own))
                &&& *cleared.policy() == (SecurityPolicy {
                    tracker: tool.security.tracker,
                    ..own
                })
            },
{
    let (admission, charge) = choose|admission: Admission<'a>, charge: Result<(), String>|
        {
            &&& admission.admits(*tool, name@, dispatch)
            &&& #[trigger] call_ensures(enforce, (&admission,), charge)
            &&& match charge {
                Err(reason) => dispatch::answered_by(
                    Ok::<Cleared<'a>, ToolResult>(cleared),
                    reason@,
                ),
                Ok(()) => exists|verdict: Result<Arc<SecurityPolicy>, String>| #[trigger]
                    steps.judged(*tool, name@, verdict) && dispatch::guarded(
                        *tool,
                        name@,
                        verdict,
                        Ok::<Cleared<'a>, ToolResult>(cleared),
                    ),
            }
        };
    assert(charge is Ok);
    assert(charge->Ok_0 == ());
    assert(charge == Ok::<(), String>(()));
    assert(call_ensures(enforce, (&admission,), Ok::<(), String>(())));
    let verdict = choose|verdict: Result<Arc<SecurityPolicy>, String>| #[trigger]
        steps.judged(*tool, name@, verdict) && dispatch::guarded(
            *tool,
            name@,
            verdict,
            Ok::<Cleared<'a>, ToolResult>(cleared),
        );
    assert(verdict == Ok::<Arc<SecurityPolicy>, String>(cleared.policy()));
    policies::judged_target_keeps_its_own_policy(steps, *tool, config, name@, cleared.policy());
}

/// A task without a context is the task itself; one with a context holds both, the
/// context first.
pub proof fn context_comes_before_the_task(context: &str, prompt: &str, r: String)
    requires
        call_ensures(dispatch::compose_prompt, (context, prompt), r),
    ensures
        context@.len() == 0 ==> r@ == prompt@,
        context@.len() > 0 ==> r@ == "[Context]\n"@ + context@ + "\n\n[Task]\n"@ + prompt@,
{
}

/// A job is that of the cleared request, with the task and its context, and is
/// run as the tool says. The provider comes back as it was made; where it could
/// not be made, the answer says for whom and why.
pub proof fn job_is_that_of_the_request<'a, P>(
    cleared: Cleared<'a>,
    created: Result<P, String>,
    prompt: &str,
    context: &str,
    r: Result<(SyncJob<'a>, P), ToolResult>,
    composed: String,
    mode: RunMode,
    brain: Brain,
)
    requires
        call_ensures(Cleared::provision::<P>, (cleared, created, prompt, context), r),
        call_ensures(dispatch::compose_prompt, (context, prompt), composed),
        call_ensures(DelegateTool::mode_for, (&cleared.tool(), &cleared.agent()), mode),
        call_ensures(Cleared::brain, (&cleared,), brain),
    ensures
        r is Ok <==> created is Ok,
        r matches Ok((job, provider)) ==> {
            &&& provider == created->Ok_0
            &&& job.tool() == cleared.tool()
            &&& job.name() == cleared.name()
            &&& job.agent() == cleared.agent()
            &&& job.policy() == cleared.policy()
            &&& job.prompt() == composed@
            &&& job.mode() == mode
        },
        r matches Err(answer) ==> {
            &&& !answer.success
            &&& text::optional(answer.error) == Some(
                "Failed to create model_provider '"@ + brain.provider_type@ + "' for agent '"@
                    + cleared.name() + "': "@ + created->Err_0@,
            )
        },
{
    if let Err(answer) = r {
        assert(answer@.success == answer.success && answer@.error == text::optional(answer.error));
    }
}

/// What a job gives back is what it was made of.
pub proof fn job_gives_back_its_parts<'a>(
    job: SyncJob<'a>,
    name: &String,
    policy: Arc<SecurityPolicy>,
    prompt: &String,
    mode: RunMode,
)
    requires
        call_ensures(SyncJob::agent_name, (&job,), name),
        call_ensures(SyncJob::target_policy, (&job,), policy),
        call_ensures(SyncJob::full_prompt, (&job,), prompt),
        call_ensures(SyncJob::run_mode, (&job,), mode),
    ensures
        name@ == job.name(),
        policy == job.policy(),
        prompt@ == job.prompt(),
        mode == job.mode(),
{
}

/// A run is answered with a success exactly when it gave a reply. A failure says
/// of which agent and why, a timeout after how many seconds.
pub proof fn only_replies_succeed<'a>(
    job: SyncJob<'a>,
    outcome: RunOutcome,
    r: ToolResult,
    secs: u64,
)
    requires
        call_ensures(SyncJob::finish, (&job, outcome), r),
        call_ensures(SyncJob::timeout_secs, (&job,), secs),
    ensures
        r.success <==> outcome is Replied,
        r.success ==> r.error is None,
        !r.success ==> {
            &&& r.output@.len() == 0
            &&& r.error is Some
            &&& text::occurs_in(job.name(), r.error->0@)
        },
        outcome matches RunOutcome::Failed(e) ==> text::occurs_in(e@, r.error->0@),
        outcome is TimedOut ==> text::occurs_in(text::decimal(secs as nat) + "s"@, r.error->0@),
{
    assert(r@.success == r.success && r@.error == text::optional(r.error));
    assert(r@.output == r.output@);
    let n = job.name();
    let a = "Agent '"@;
    match outcome {
        RunOutcome::TimedOut => {
            let whole = r.error->0@;
            let b = "' timed out after "@;
            let d = text::decimal(secs as nat);
            assert(whole == a + n + b + d + "s"@);
            texts::stands_within(a, n, b + d + "s"@);
            texts::stands_within(a + n + b, d + "s"@, seq![]);
            lemma_regroup(a, n, b, d, "s"@);
        },
        RunOutcome::Failed(e) => {
            let whole = r.error->0@;
            let b = "' failed: "@;
            assert(whole == a + n + b + e@);
            texts::stands_within(a, n, b + e@);
            texts::stands_within(a + n + b, e@, seq![]);
            lemma_regroup(a, n, b, e@, seq![]);
        },
        RunOutcome::Replied(_) => {},
    }
}

/// A reply is passed on as it is, behind a line that says of which agent, provider
/// and model it is, and whether tools were used. A blank one is replaced by a
/// note.
pub proof fn reply_is_passed_on<'a>(
    job: SyncJob<'a>,
    reply: Option<String>,
    r: ToolResult,
    brain: Brain,
    reference: &str,
)
    requires
        call_ensures(SyncJob::finish, (&job, RunOutcome::Replied(reply)), r),
        reference@ == job.agent().model_provider@,
        call_ensures(DelegateTool::resolve_brain, (&job.tool(), reference), brain),
    ensures
        r.output@ == "[Agent '"@ + job.name() + "' ("@ + brain.provider_type@ + "/"@ + brain.model@
            + (if job.mode() == RunMode::Chat {
            ")]\n"@
        } else {
            ", agentic)]\n"@
        }) + (if reply is Some && exists|i: int|
            0 <= i < reply->0@.len() && !text::is_blank(#[trigger] reply->0@[i]) {
            reply->0@
        } else {
            "[Empty response]"@
        }),
{
    assert(r@.output == r.output@);
    if let Some(said) = reply {
        texts::blank_exactly(said@);
    }
}

/// The tools that an agent's risk profile allows.
pub open spec fn allowed_by_profile(tool: DelegateTool, agent: AliasedAgentConfig) -> Seq<String> {
    if agent.risk_profile@.len() > 0 && tool.risk_profiles.lookup(agent.risk_profile@) is Some {
        tool.risk_profiles.lookup(agent.risk_profile@)->0.allowed_tools@
    } else {
        seq![]
    }
}

/// Whether a list names a tool that an agent may run.
pub open spec fn names_tool(list: Seq<String>, tool: Seq<char>) -> bool {
    &&& tool.len() > 0
    &&& tool != "delegate"@
    &&& exists|j: int| 0 <= j < list.len() && text::trimmed((#[trigger] list[j])@) == tool
}

spec fn allowed_of(tool: DelegateTool, agent: AliasedAgentConfig) -> Seq<Seq<char>> {
    crate::delegate::allowed_tools_of(*tool.risk_profiles, agent.risk_profile@)
}

spec fn limit_of(tool: DelegateTool, agent: AliasedAgentConfig) -> u32 {
    crate::delegate::max_depth_of(*tool.runtime_profiles, agent.runtime_profile@)
}

proof fn lemma_allowed(tool: DelegateTool, agent: AliasedAgentConfig, name: Seq<char>)
    ensures
        ({
            let allowed = allowed_of(tool, agent);
            let list = allowed_by_profile(tool, agent);
            &&& allowed.len() == list.len()
            &&& dispatch::may_run(name, allowed) == names_tool(list, name)
        }),
{
    let allowed = allowed_of(tool, agent);
    let list = allowed_by_profile(tool, agent);
    assert(allowed.len() == list.len());
    assert forall|j: int| 0 <= j < list.len() implies allowed[j] == (#[trigger] list[j])@ by {}
    if names_tool(list, name) {
        let j = choose|j: int|
            0 <= j < list.len() && text::trimmed((#[trigger] list[j])@) == name;
        assert(text::trimmed(allowed[j]) == name);
    }
    if dispatch::may_run(name, allowed) {
        let j = choose|j: int| 0 <= j < allowed.len() && text::trimmed(#[trigger] allowed[j]) == name;
        assert(text::trimmed(list[j]@) == name);
    }
}

proof fn lemma_selected_ascends(tools: Seq<Seq<char>>, allowed: Seq<Seq<char>>, n: int)
    requires
        0 <= n <= tools.len() <= usize::MAX,
    ensures
        forall|a: int, b: int|
            0 <= a < b < dispatch::selected(tools, allowed, n).len() ==> (
            #[trigger] dispatch::selected(tools, allowed, n)[a]) < (#[trigger] dispatch::selected(
                tools,
                allowed,
                n,
            )[b]),
        forall|a: int|
            0 <= a < dispatch::selected(tools, allowed, n).len() ==> 0 <= (
            #[trigger] dispatch::selected(tools, allowed, n)[a]) < n,
    decreases n,
{
    if n > 0 {
        lemma_selected_ascends(tools, allowed, n - 1);
        let before = dispatch::selected(tools, allowed, n - 1);
        let found = dispatch::selected(tools, allowed, n);
        assert forall|a: int| 0 <= a < found.len() implies 0 <= (#[trigger] found[a]) < n by {
            if a < before.len() {
                assert(found[a] == before[a]);
            }
        }
        assert forall|a: int, b: int| 0 <= a < b < found.len() implies (#[trigger] found[a]) < (
        #[trigger] found[b]) by {
            assert(found[a] == before[a]);
            if b < before.len() {
                assert(found[b] == before[b]);
            }
        }
    }
}

/// A tool-call loop gets exactly the tools of the caller that the profile names,
/// in the caller's order, and never `delegate`. A loop without any is refused, by
/// the agent's name.
pub proof fn loop_gets_exactly_the_named_tools<'a>(
    job: SyncJob<'a>,
    tool_names: Vec<String>,
    r: Result<Vec<usize>, ToolResult>,
)
    requires
        call_ensures(SyncJob::select_tools, (&job, &tool_names), r),
    ensures
        r is Ok <==> exists|i: int|
            0 <= i < tool_names@.len() && names_tool(
                allowed_by_profile(job.tool(), job.agent()),
                (#[trigger] tool_names@[i])@,
            ),
        r matches Ok(positions) ==> {
            &&& forall|i: int|
                0 <= i < tool_names@.len() ==> (positions@.contains(i as usize) <==> names_tool(
                    allowed_by_profile(job.tool(), job.agent()),
                    (#[trigger] tool_names@[i])@,
                ))
            &&& forall|a: int, b: int|
                0 <= a < b < positions@.len() ==> #[trigger] positions@[a]
                    < #[trigger] positions@[b]
            &&& forall|a: int|
                0 <= a < positions@.len() ==> 0 <= #[trigger] positions@[a] < tool_names@.len()
        },
        r matches Err(answer) ==> {
            &&& !answer.success
            &&& answer.error is Some
            &&& text::occurs_in("Agent '"@ + job.name() + "'"@, answer.error->0@)
            &&& allowed_by_profile(job.tool(), job.agent()).len() == 0 ==> text::occurs_in(
                "risk_profile '"@ + job.agent().risk_profile@ + "'"@,
                answer.error->0@,
            )
        },
{
    let names = tool_names.deep_view();
    let tool = job.tool();
    let agent = job.agent();
    let allowed = allowed_of(tool, agent);
    let list = allowed_by_profile(tool, agent);
    let n = tool_names@.len() as int;
    let found = dispatch::selected(names, allowed, n);
    assert(names.len() == n);
    assert(n == tool_names.len());
    lemma_selected_ascends(names, allowed, n);
    assert forall|i: int| 0 <= i < n implies (found.contains(i as usize) <==> names_tool(
        list,
        (#[trigger] tool_names@[i])@,
    )) by {
        assert(names[i] == tool_names@[i]@);
        lemma_allowed(tool, agent, names[i]);
        if dispatch::may_run(names[i], allowed) {
            dispatch::loop_gets_every_listed_tool(names, allowed, n, i);
        }
        if found.contains(i as usize) {
            let k = found.index_of(i as usize);
            dispatch::loop_never_delegates(names, allowed, k);
            lemma_runs(names, allowed, n, k);
        }
    }
    if found.len() > 0 {
        let i = found[0] as int;
        assert(found.contains(i as usize));
        assert(names_tool(list, tool_names@[i]@));
    }
    lemma_allowed(tool, agent, seq![]);
    if let Err(answer) = r {
        assert(answer@.success == answer.success && answer@.error == text::optional(answer.error));
        if allowed.len() == 0 {
            lemma_no_tools(job.name(), agent.risk_profile@);
        } else {
            lemma_no_executables(job.name(), text::joined(allowed, ", "@));
        }
    }
}

proof fn lemma_no_tools(name: Seq<char>, profile: Seq<char>)
    ensures
        text::occurs_in("Agent '"@ + name + "'"@, dispatch::no_allowed_tools_text(name, profile)),
        text::occurs_in(
            "risk_profile '"@ + profile + "'"@,
            dispatch::no_allowed_tools_text(name, profile),
        ),
{
    reveal_strlit("' is agentic but risk_profile '");
    reveal_strlit("risk_profile '");
    reveal_strlit("' has no allowed_tools");
    reveal_strlit("'");
    let whole = dispatch::no_allowed_tools_text(name, profile);
    let quoted = "Agent '"@ + name + "'"@;
    assert(whole.subrange(0int, 0int + quoted.len()) =~= quoted);
    let label = "risk_profile '"@ + profile + "'"@;
    let at = "Agent '"@.len() + name.len() + 17int;
    assert(whole.subrange(at, at + label.len()) =~= label);
}

proof fn lemma_no_executables(name: Seq<char>, list: Seq<char>)
    ensures
        text::occurs_in(
            "Agent '"@ + name + "'"@,
            "Agent '"@ + name + "' has no executable tools after filtering allowlist ("@ + list
                + ")"@,
        ),
{
    reveal_strlit("' has no executable tools after filtering allowlist (");
    reveal_strlit("'");
    let whole = "Agent '"@ + name + "' has no executable tools after filtering allowlist ("@ + list
        + ")"@;
    let quoted = "Agent '"@ + name + "'"@;
    assert(whole.subrange(0int, 0int + quoted.len()) =~= quoted);
}

proof fn lemma_runs(tools: Seq<Seq<char>>, allowed: Seq<Seq<char>>, n: int, k: int)
    requires
        0 <= n <= tools.len() <= usize::MAX,
        0 <= k < dispatch::selected(tools, allowed, n).len(),
    ensures
        ({
            let i = dispatch::selected(tools, allowed, n)[k] as int;
            0 <= i < n && dispatch::may_run(tools[i], allowed)
        }),
    decreases n,
{
    let before = dispatch::selected(tools, allowed, n - 1);
    if k < before.len() {
        assert(dispatch::selected(tools, allowed, n)[k] == before[k]);
        lemma_runs(tools, allowed, n - 1, k);
    }
}

/// A target on another profile is run with the task of the job, under the job's
/// policy, as a sub-agent, and with exactly the tools that its profile names but
/// `delegate`. Without a configuration, or without such a tool, it is refused.
pub proof fn rebuilt_run_keeps_to_the_profile<'a>(
    job: SyncJob<'a>,
    r: Result<RebuildOrder, ToolResult>,
    name: Seq<char>,
)
    requires
        call_ensures(SyncJob::rebuild_order, (&job,), r),
    ensures
        job.tool().root_config is None ==> r is Err,
        names_tool(allowed_by_profile(job.tool(), job.agent()), name)
            && job.tool().root_config is Some ==> r is Ok,
        r matches Ok(order) ==> {
            &&& job.tool().root_config == Some(order.config)
            &&& order.prompt@ == job.prompt()
            &&& order.policy == job.policy()
            &&& order.is_subagent
            &&& order.allowed_tools@.len() > 0
            &&& policies::lists(order.allowed_tools, name) <==> names_tool(
                allowed_by_profile(job.tool(), job.agent()),
                name,
            )
        },
        r matches Err(answer) ==> {
            &&& !answer.success
            &&& answer.error is Some
            &&& text::occurs_in(job.name(), answer.error->0@)
        },
{
    let allowed = allowed_of(job.tool(), job.agent());
    lemma_allowed(job.tool(), job.agent(), name);
    dispatch::rebuilt_tools_may_run(allowed, name);
    let rebuilt = crate::guard::rebuild_list(allowed);
    if rebuilt.contains(name) {
        assert(rebuilt.len() > 0);
    }
    match r {
        Ok(order) => {
            policies::lemma_lists(order.allowed_tools, name);
            assert(order.allowed_tools.deep_view().len() == order.allowed_tools@.len());
        },
        Err(answer) => {
            assert(answer@.success == answer.success);
            assert(answer@.error == text::optional(answer.error));
            let a = "Agent '"@;
            texts::stands_within(
                a,
                job.name(),
                "' requires a loaded config for cross-profile agentic delegation"@,
            );
            texts::stands_within(
                a,
                job.name(),
                "' is agentic cross-profile but resolves no non-`delegate` allowed_tools"@,
            );
        },
    }
}

/// What is recorded of a reply is the provider and model that were asked for, the
/// tokens that went in and came out, and who served the call instead, if anyone.
pub proof fn record_of_a_reply<'a>(
    job: SyncJob<'a>,
    usage: Option<TokenUsage>,
    fallback: Option<ProviderFallback>,
    r: ResponseEvent,
    brain: Brain,
    reference: &str,
)
    requires
        call_ensures(SyncJob::response_event, (&job, usage, fallback), r),
        reference@ == job.agent().model_provider@,
        call_ensures(DelegateTool::resolve_brain, (&job.tool(), reference), brain),
    ensures
        r.model_provider@ == brain.provider_type@,
        r.model@ == brain.model@,
        usage matches Some(u) ==> r.input_tokens == u.input_tokens && r.output_tokens
            == u.output_tokens,
        usage is None ==> r.input_tokens is None && r.output_tokens is None,
        fallback matches Some(f) ==> r.actual_provider == Some(f.actual_provider)
            && r.actual_model == Some(f.actual_model),
        fallback is None ==> r.actual_provider is None && r.actual_model is None,
{
}

/// A request that does not go through is answered with the reason of whoever stopped
/// it: of the guard here.
pub proof fn guard_gives_its_reason<'a, R, B, P, X, C>(
    charged: Charged<'a>,
    steps: GuardSteps<R, B, P, X, C>,
    answer: ToolResult,
) where
    R: Fn(&Config, &str) -> Result<SecurityPolicy, String>,
    B: Fn(&Config, &str, &str, &str) -> SecurityPolicy,
    P: Fn(&Config, &str, SecurityPolicy) -> SecurityPolicy,
    X: Fn(&SecurityPolicy, &SecurityPolicy) -> Option<String>,
    C: Fn(&str) -> Option<String>,

    requires
        call_ensures(
            Charged::clear::<R, B, P, X, C>,
            (charged, &steps),
            Err::<Cleared<'a>, ToolResult>(answer),
        ),
    ensures
        !answer.success,
        exists|reason: String|
            text::optional(answer.error) == Some(reason@) && #[trigger] steps.judged(
                charged.tool(),
                charged.name(),
                Err(reason),
            ),
        charged.tool().root_config is Some,
{
    assert(answer@.success == answer.success && answer@.error == text::optional(answer.error));
}

/// A request that does not go through is answered with the reason of the first that
/// stops it: an unknown agent or the depth, then the budget, then the guard.
pub proof fn first_obstacle_answers<'a, E, R, B, P, X, C>(
    tool: &'a DelegateTool,
    name: &str,
    dispatch: Dispatch,
    enforce: E,
    steps: GuardSteps<R, B, P, X, C>,
    answer: ToolResult,
    opened: Result<Admission<'a>, ToolResult>,
) where
    E: FnOnce(&Admission<'a>) -> Result<(), String>,
    R: Fn(&Config, &str) -> Result<SecurityPolicy, String>,
    B: Fn(&Config, &str, &str, &str) -> SecurityPolicy,
    P: Fn(&Config, &str, SecurityPolicy) -> SecurityPolicy,
    X: Fn(&SecurityPolicy, &SecurityPolicy) -> Option<String>,
    C: Fn(&str) -> Option<String>,

    requires
        call_ensures(
            DelegateTool::clear_request::<E, R, B, P, X, C>,
            (tool, name, dispatch, enforce, &steps),
            Err::<Cleared<'a>, ToolResult>(answer),
        ),
        call_ensures(DelegateTool::open_request, (tool, name, dispatch), opened),
    ensures
        !answer.success,
        opened matches Err(refused) ==> text::optional(answer.error) == text::optional(
            refused.error,
        ),
        opened is Ok ==> exists|admission: Admission<'a>, charge: Result<(), String>|
            {
                &&& admission.tool() == *tool
                &&& admission.name() == name@
                &&& #[trigger] call_ensures(enforce, (&admission,), charge)
                &&& charge is Err ==> text::optional(answer.error) == Some(charge->Err_0@)
                &&& charge is Ok ==> exists|reason: String|
                    text::optional(answer.error) == Some(reason@) && #[trigger] steps.judged(
                        *tool,
                        name@,
                        Err(reason),
                    )
            },
{
    assert(answer@.success == answer.success && answer@.error == text::optional(answer.error));
    match opened {
        Err(refused) => {
            assert(refused@.error == text::optional(refused.error));
        },
        Ok(_) => {
            let (admission, charge) = choose|admission: Admission<'a>, charge: Result<(), String>|
                {
                    &&& admission.admits(*tool, name@, dispatch)
                    &&& #[trigger] call_ensures(enforce, (&admission,), charge)
                    &&& match charge {
                        Err(reason) => dispatch::answered_by(
                            Err::<Cleared<'a>, ToolResult>(answer),
                            reason@,
                        ),
                        Ok(()) => exists|verdict: Result<Arc<SecurityPolicy>, String>| #[trigger]
                            steps.judged(*tool, name@, verdict) && dispatch::guarded(
                                *tool,
                                name@,
                                verdict,
                                Err::<Cleared<'a>, ToolResult>(answer),
                            ),
                    }
                };
            assert(call_ensures(enforce, (&admission,), charge));
            if charge is Ok {
                let verdict = choose|verdict: Result<Arc<SecurityPolicy>, String>| #[trigger]
                    steps.judged(*tool, name@, verdict) && dispatch::guarded(
                        *tool,
                        name@,
                        verdict,
                        Err::<Cleared<'a>, ToolResult>(answer),
                    );
                let reason = verdict->Err_0;
                assert(steps.judged(*tool, name@, Err(reason)));
            }
        },
    }
}

/// What a cleared request gives back is what it was made of; its provider and the
/// options for it are those of the agent's own reference.
pub proof fn cleared_request_gives_back_its_parts<'a>(
    cleared: &'a Cleared<'a>,
    name: &String,
    policy: Arc<SecurityPolicy>,
    brain: Brain,
    own: Brain,
    options: ProviderOptions<'a>,
    reference: &str,
)
    requires
        call_ensures(Cleared::agent_name, (cleared,), name),
        call_ensures(Cleared::target_policy, (cleared,), policy),
        call_ensures(Cleared::brain, (cleared,), brain),
        call_ensures(Cleared::provider_options, (cleared,), options),
        reference@ == cleared.agent().model_provider@,
        call_ensures(DelegateTool::resolve_brain, (&cleared.tool(), reference), own),
    ensures
        name@ == cleared.name(),
        policy == cleared.policy(),
        brain.provider_type@ == own.provider_type@,
        brain.model@ == own.model@,
        text::optional(brain.credential) == text::optional(own.credential),
        brain.configured == own.configured,
        options is ForAlias <==> cleared.tool().root_config is Some && reference@.contains('.'),
        options matches ProviderOptions::ForAlias { family, alias } ==> family@.push('.') + alias@
            == reference@ && !family@.contains('.'),
        options matches ProviderOptions::Inherited(inherited) ==> *inherited
            == *cleared.tool().provider_runtime_options,
{
    texts::split_puts_together(reference@, '.');
    if let Some((a, b)) = text::split_once_at(reference@, '.') {
        assert(reference@[a.len() as int] == '.');
    }
}

/// Without a configuration a request that was charged always passes the guard, and
/// the target runs under the caller's policy.
pub proof fn without_configuration_the_callers_policy_holds<'a, R, B, P, X, C>(
    charged: Charged<'a>,
    steps: GuardSteps<R, B, P, X, C>,
    r: Result<Cleared<'a>, ToolResult>,
) where
    R: Fn(&Config, &str) -> Result<SecurityPolicy, String>,
    B: Fn(&Config, &str, &str, &str) -> SecurityPolicy,
    P: Fn(&Config, &str, SecurityPolicy) -> SecurityPolicy,
    X: Fn(&SecurityPolicy, &SecurityPolicy) -> Option<String>,
    C: Fn(&str) -> Option<String>,

    requires
        call_ensures(Charged::clear::<R, B, P, X, C>, (charged, &steps), r),
        charged.tool().root_config is None,
    ensures
        r is Ok,
        r->Ok_0.tool() == charged.tool(),
        r->Ok_0.name() == charged.name(),
        r->Ok_0.agent() == charged.agent(),
        r->Ok_0.policy() == charged.tool().security,
{
}

/// What an admitted request, a cleared one and a job give back of the tool and of
/// the agent is what they were made of.
pub proof fn steps_give_back_tool_and_agent<'a>(
    admission: Admission<'a>,
    admitted_name: &String,
    admitted_tool: &'a DelegateTool,
    cleared: Cleared<'a>,
    cleared_tool: &'a DelegateTool,
    job: SyncJob<'a>,
    agent: &'a AliasedAgentConfig,
)
    requires
        call_ensures(Admission::agent_name, (&admission,), admitted_name),
        call_ensures(Admission::delegate_tool, (&admission,), admitted_tool),
        call_ensures(Cleared::delegate_tool, (&cleared,), cleared_tool),
        call_ensures(SyncJob::agent_config, (&job,), agent),
    ensures
        admitted_name@ == admission.name(),
        *admitted_tool == admission.tool(),
        *cleared_tool == cleared.tool(),
        *agent == job.agent(),
{
}

} // verus!
