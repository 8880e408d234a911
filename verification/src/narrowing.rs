//! What the narrowing-only guard guarantees.

use std::sync::Arc;

use vstd::prelude::*;

use crate::delegate;
use crate::delegate::DelegateTool;
use crate::guard;
use crate::guard::GuardEvidence;
use crate::paths;
use crate::policy::SecurityPolicy;
use crate::schema::{AliasedAgentConfig, Config, RuntimeProfileConfig};
use crate::table::AliasTable;
use crate::text;

verus! {

/// Whether every tool that the target may use is one that the caller may use.
pub open spec fn tools_subset(caller: SecurityPolicy, target: SecurityPolicy) -> bool {
    forall|tool: Seq<char>| #[trigger] target.may_use(tool) ==> caller.may_use(tool)
}

/// Whether the target keeps every approval prompt and the sandbox of the
/// caller: it approves no tool by itself that the caller does not, asks for
/// every tool that the caller asks for, and runs in the same sandbox where the
/// caller runs in one.
pub open spec fn no_more_relaxed(caller: SecurityPolicy, target: SecurityPolicy) -> bool {
    &&& forall|tool: Seq<char>|
        #[trigger] target.auto_approves(tool) ==> caller.auto_approves(tool)
    &&& forall|tool: Seq<char>| #[trigger] caller.always_asks(tool) ==> target.always_asks(tool)
    &&& caller.sandboxed() ==> target.sandboxed() && target.backend() == caller.backend()
}

/// Arguments for the firejail backend do not count: two agents that differ only
/// in them run in the same sandbox.
pub proof fn firejail_args_do_not_count(
    caller: SecurityPolicy,
    target: SecurityPolicy,
    caller_args: Vec<String>,
    target_args: Vec<String>,
)
    ensures
        guard::relaxation(
            SecurityPolicy { firejail_args: caller_args, ..caller },
            SecurityPolicy { firejail_args: target_args, ..target },
        ) == guard::relaxation(caller, target),
        guard::tool_overreach(
            SecurityPolicy { firejail_args: caller_args, ..caller },
            SecurityPolicy { firejail_args: target_args, ..target },
        ) == guard::tool_overreach(caller, target),
{
    let c = SecurityPolicy { firejail_args: caller_args, ..caller };
    let t = SecurityPolicy { firejail_args: target_args, ..target };
    assert((|tool: Seq<char>| !c.auto_approves(tool)) =~= (|tool: Seq<char>|
        !caller.auto_approves(tool)));
    assert((|tool: Seq<char>| !t.always_asks(tool)) =~= (|tool: Seq<char>|
        !target.always_asks(tool)));
    assert((|tool: Seq<char>| t.may_use(tool) && !c.may_use(tool)) =~= (|tool: Seq<char>|
        target.may_use(tool) && !caller.may_use(tool)));
    assert((|tool: Seq<char>| t.may_use(tool)) =~= (|tool: Seq<char>| target.may_use(tool)));
}

/// The tool check passes exactly when the target's tools are among the
/// caller's.
pub proof fn tool_check_is_subset(caller: SecurityPolicy, target: SecurityPolicy)
    ensures
        guard::tool_overreach(caller, target) is None <==> tools_subset(caller, target),
{
    match (caller.allowed_tools, target.allowed_tools) {
        (Some(listed), None) => {
            let excluded = match target.excluded_tools {
                Some(excluded) => excluded.deep_view(),
                None => seq![],
            };
            let tool = text::some_text_is_unlisted(listed.deep_view(), excluded);
            assert(target.may_use(tool));
            assert(!caller.may_use(tool));
        },
        (_, Some(listed)) => {
            let names = listed.deep_view();
            let bad = |tool: Seq<char>| target.may_use(tool) && !caller.may_use(tool);
            text::first_match_none(names, bad);
            if guard::tool_overreach(caller, target) is None {
                assert forall|tool: Seq<char>| #[trigger] target.may_use(tool) implies caller.may_use(
                    tool,
                ) by {
                    assert(names.contains(tool));
                    assert(!bad(tool));
                }
            } else {
                let tool = text::first_match(names, bad)->0;
                assert(bad(tool));
                assert(target.may_use(tool));
            }
        },
        (None, None) => {
            if let Some(excluded) = caller.excluded_tools {
                let names = excluded.deep_view();
                let bad = |tool: Seq<char>| target.may_use(tool);
                text::first_match_none(names, bad);
                if guard::tool_overreach(caller, target) is None {
                    assert forall|tool: Seq<char>| #[trigger] target.may_use(
                        tool,
                    ) implies caller.may_use(tool) by {
                        if names.contains(tool) {
                            assert(!bad(tool));
                        }
                    }
                } else {
                    let tool = text::first_match(names, bad)->0;
                    assert(target.may_use(tool));
                    assert(!caller.may_use(tool));
                }
            }
        },
    }
}

/// The approval and sandbox check passes exactly when the target is no more
/// relaxed than the caller.
pub proof fn relaxation_check_is_exact(caller: SecurityPolicy, target: SecurityPolicy)
    ensures
        guard::relaxation(caller, target) is None <==> no_more_relaxed(caller, target),
{
    let star = "*"@;
    let approved = target.auto_approve.deep_view();
    let too_free = |tool: Seq<char>| !caller.auto_approves(tool);
    text::first_match_none(approved, too_free);
    let asked = caller.always_ask.deep_view();
    let dropped = |tool: Seq<char>| !target.always_asks(tool);
    text::first_match_none(asked, dropped);
    if guard::relaxation(caller, target) is None {
        assert forall|tool: Seq<char>| #[trigger] target.auto_approves(
            tool,
        ) implies caller.auto_approves(tool) by {
            if approved.contains(tool) {
                assert(!too_free(tool));
            } else {
                assert(approved.contains(star));
                assert(!too_free(star));
            }
        }
        assert forall|tool: Seq<char>| #[trigger] caller.always_asks(
            tool,
        ) implies target.always_asks(tool) by {
            if asked.contains(tool) {
                assert(!dropped(tool));
            } else {
                assert(asked.contains(star));
                assert(!dropped(star));
            }
        }
    }
    if no_more_relaxed(caller, target) {
        if text::first_match(approved, too_free) is Some {
            let tool = text::first_match(approved, too_free)->0;
            assert(target.auto_approves(tool));
            assert(too_free(tool));
        }
        if text::first_match(asked, dropped) is Some {
            let tool = text::first_match(asked, dropped)->0;
            assert(caller.always_asks(tool));
            assert(dropped(tool));
        }
    }
}

/// Both checks pass for a target with the caller's own policy, and passing is
/// transitive.
pub proof fn narrowing_is_preorder(a: SecurityPolicy, b: SecurityPolicy, c: SecurityPolicy)
    ensures
        guard::tool_overreach(a, a) is None,
        guard::relaxation(a, a) is None,
        guard::tool_overreach(a, b) is None && guard::tool_overreach(b, c) is None
            ==> guard::tool_overreach(a, c) is None,
        guard::relaxation(a, b) is None && guard::relaxation(b, c) is None ==> guard::relaxation(
            a,
            c,
        ) is None,
{
    tool_check_is_subset(a, a);
    tool_check_is_subset(a, b);
    tool_check_is_subset(b, c);
    tool_check_is_subset(a, c);
    relaxation_check_is_exact(a, a);
    relaxation_check_is_exact(a, b);
    relaxation_check_is_exact(b, c);
    relaxation_check_is_exact(a, c);
    if tools_subset(a, b) && tools_subset(b, c) {
        assert forall|tool: Seq<char>| #[trigger] c.may_use(tool) implies a.may_use(tool) by {
            assert(b.may_use(tool));
        }
    }
    if no_more_relaxed(a, b) && no_more_relaxed(b, c) {
        assert forall|tool: Seq<char>| #[trigger] c.auto_approves(tool) implies a.auto_approves(
            tool,
        ) by {
            assert(b.auto_approves(tool));
        }
        assert forall|tool: Seq<char>| #[trigger] a.always_asks(tool) implies c.always_asks(tool) by {
            assert(b.always_asks(tool));
        }
    }
}

/// Whether a target that runs a tool-call loop on another profile is within the
/// caller's bounds.
pub open spec fn agentic_within(
    config: Config,
    caller_alias: Seq<char>,
    target: Seq<char>,
    target_profile: Seq<char>,
    evidence: GuardEvidence,
) -> bool {
    let caller_jail = guard::jail_of(
        config.workspace_of(caller_alias),
        text::optional(evidence.caller_canonical),
    );
    let target_jail = guard::jail_of(
        config.workspace_of(target),
        text::optional(evidence.target_canonical),
    );
    &&& tools_subset(evidence.caller_grants, evidence.target_grants)
    &&& no_more_relaxed(evidence.caller_grants, evidence.target_grants)
    &&& evidence.target_grants.workspace_only ==> !guard::strictly_above(target_jail, caller_jail)
    &&& guard::rebuild_list(guard::configured_tools(config, target_profile)).len() > 0
}

/// The guard lets a delegation pass exactly when the target is configured and
/// either shares the caller's risk profile or can be compared, does not exceed
/// the caller's grants and, where it runs a tool-call loop, stays within the
/// caller's tools, approvals, sandbox and workspace and has tools of its own.
pub proof fn guard_passes_exactly(
    config: Config,
    caller_alias: Seq<char>,
    caller_profile: Seq<char>,
    target: Seq<char>,
    evidence: Option<&GuardEvidence>,
)
    ensures
        guard::refusal(config, caller_alias, caller_profile, target, evidence) is None <==> {
            &&& config.agents.lookup(target) matches Some(agent)
            &&& {
                let target_profile = text::trimmed(agent.risk_profile@);
                ||| caller_profile == target_profile
                ||| {
                    &&& caller_alias.len() > 0
                    &&& guard::has_grants(config, caller_alias)
                    &&& guard::has_grants(config, target)
                    &&& evidence matches Some(e)
                    &&& e.escalation is None
                    &&& guard::target_is_agentic(config, agent) ==> agentic_within(
                        config,
                        caller_alias,
                        target,
                        target_profile,
                        *e,
                    )
                }
            }
        },
{
    if let Some(e) = evidence {
        tool_check_is_subset(e.caller_grants, e.target_grants);
        relaxation_check_is_exact(e.caller_grants, e.target_grants);
    }
}

/// A target whose grants exceed the caller's is refused, whether or not it runs
/// tools.
pub proof fn escalation_is_refused(
    config: Config,
    caller_alias: Seq<char>,
    caller_profile: Seq<char>,
    target: Seq<char>,
    evidence: &GuardEvidence,
)
    requires
        config.agents.lookup(target) is Some,
        caller_profile != text::trimmed(config.agents.lookup(target)->0.risk_profile@),
        evidence.escalation is Some,
    ensures
        guard::refusal(config, caller_alias, caller_profile, target, Some(evidence)) is Some,
{
}

/// A target in the caller's own workspace, or in one below it or beside it, is
/// not above it.
pub proof fn only_wider_workspace_is_above(target: Seq<char>, caller: Seq<char>)
    ensures
        !guard::strictly_above(caller, caller),
        paths::starts_with(target, caller) ==> !guard::strictly_above(target, caller),
        !paths::starts_with(caller, target) ==> !guard::strictly_above(target, caller),
        guard::strictly_above(target, caller) ==> !guard::strictly_above(caller, target),
{
    paths::starts_with_is_preorder(caller, caller, caller);
}

/// A rebuilt registry never holds `delegate` nor a blank name: a delegate that
/// runs under it cannot delegate again.
pub proof fn rebuild_never_delegates(tools: Seq<Seq<char>>, name: Seq<char>)
    requires
        guard::rebuild_list(tools).contains(name),
    ensures
        name != "delegate"@,
        name.len() > 0,
        exists|i: int| 0 <= i < tools.len() && text::trimmed(#[trigger] tools[i]) == name,
    decreases tools.len(),
{
    let front = tools.drop_last();
    let before = guard::rebuild_list(front);
    let last = text::trimmed(tools.last());
    let i = guard::rebuild_list(tools).index_of(name);
    if i < before.len() {
        assert(before[i] == name);
        rebuild_never_delegates(front, name);
        let k = choose|k: int| 0 <= k < front.len() && text::trimmed(#[trigger] front[k]) == name;
        assert(tools[k] == front[k]);
    } else {
        assert(name == last);
        assert(text::trimmed(tools[tools.len() - 1]) == name);
    }
}

/// Every tool of a list that is neither blank nor `delegate` is in the rebuilt
/// registry's list.
pub proof fn rebuild_keeps_tools(tools: Seq<Seq<char>>, i: int)
    requires
        0 <= i < tools.len(),
        text::trimmed(tools[i]).len() > 0,
        text::trimmed(tools[i]) != "delegate"@,
    ensures
        guard::rebuild_list(tools).contains(text::trimmed(tools[i])),
    decreases tools.len(),
{
    let whole = guard::rebuild_list(tools);
    let front = tools.drop_last();
    let name = text::trimmed(tools[i]);
    if i == tools.len() - 1 {
        assert(whole[whole.len() - 1] == name);
    } else {
        assert(front[i] == tools[i]);
        rebuild_keeps_tools(front, i);
        let k = guard::rebuild_list(front).index_of(name);
        assert(whole[k] == name);
    }
}

/// A target on another profile that passes the guard and runs a tool-call loop
/// has a non-empty list of tools to rebuild its registry from.
pub proof fn passing_agentic_target_has_tools(
    config: Config,
    caller_alias: Seq<char>,
    caller_profile: Seq<char>,
    target: Seq<char>,
    evidence: Option<&GuardEvidence>,
)
    requires
        guard::refusal(config, caller_alias, caller_profile, target, evidence) is None,
        config.agents.lookup(target) is Some,
        guard::target_is_agentic(config, config.agents.lookup(target)->0),
        caller_profile != text::trimmed(config.agents.lookup(target)->0.risk_profile@),
    ensures
        guard::rebuild_list(
            guard::configured_tools(
                config,
                text::trimmed(config.agents.lookup(target)->0.risk_profile@),
            ),
        ).len() > 0,
{
}

/// The guard and the dispatch read the same tool-loop flag off an agent, when
/// they read the same profiles and no agentic profile has an empty name.
pub proof fn guard_and_dispatch_agree(
    config: Config,
    profiles: AliasTable<RuntimeProfileConfig>,
    agent: AliasedAgentConfig,
)
    requires
        config.runtime_profiles == profiles,
        profiles.lookup(seq![]) matches Some(p) ==> !p.agentic,
    ensures
        guard::target_is_agentic(config, agent) == delegate::agentic_of(
            profiles,
            agent.runtime_profile@,
        ),
{
    let name = text::trimmed(agent.runtime_profile@);
    if name.len() == 0 {
        assert(name =~= seq![]);
    }
}

/// Whatever policy a target runs under, its actions count against the caller's
/// budget.
pub proof fn budget_is_shared(
    tool: DelegateTool,
    target: Seq<char>,
    resolved: Result<SecurityPolicy, String>,
    evidence: Option<&GuardEvidence>,
    policy: Arc<SecurityPolicy>,
)
    requires
        guard::policy_outcome(tool, target, resolved, evidence, Ok(policy)),
    ensures
        policy.tracker == tool.security.tracker,
{
}

/// With a configuration attached, a caller whose policy forbids delegation is
/// refused for every target.
pub proof fn forbidden_caller_is_refused(
    tool: DelegateTool,
    target: Seq<char>,
    resolved: Result<SecurityPolicy, String>,
    evidence: Option<&GuardEvidence>,
)
    requires
        tool.root_config is Some,
        !tool.security.delegation_policy.permits_spec(),
    ensures
        guard::policy_refusal(tool, target, resolved, evidence) is Some,
{
}

} // verus!
