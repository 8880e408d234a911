//! Laws of policies and of the guard.

use std::sync::Arc;

use vstd::prelude::*;

use crate::delegate::DelegateTool;
use crate::evidence::GuardSteps;
use crate::guard;
use crate::guard::GuardEvidence;
use crate::narrowing;
use crate::paths;
use crate::policy::{DelegationMode, DelegationPolicy, SecurityPolicy};
use crate::schema::{AccessMode, AliasedAgentConfig, Config};
use crate::table::AliasTable;
use crate::text;

verus! {

/// Whether a text is one of a list.
pub open spec fn lists(list: Vec<String>, name: Seq<char>) -> bool {
    exists|i: int| 0 <= i < list@.len() && (#[trigger] list@[i])@ == name
}

pub(crate) proof fn lemma_lists(list: Vec<String>, name: Seq<char>)
    ensures
        lists(list, name) == list.deep_view().contains(name),
{
    if lists(list, name) {
        let i = choose|i: int| 0 <= i < list@.len() && (#[trigger] list@[i])@ == name;
        assert(list.deep_view()[i] == name);
    }
    if list.deep_view().contains(name) {
        let i = list.deep_view().index_of(name);
        assert(list@[i]@ == name);
    }
}

/// A tool that is excluded may not be used, nor one that an allowlist does not
/// hold; every other may be used.
pub proof fn tool_use_follows_the_lists(policy: SecurityPolicy, tool: &str, r: bool)
    requires
        call_ensures(SecurityPolicy::is_tool_allowed, (&policy, tool), r),
    ensures
        policy.excluded_tools matches Some(excluded) ==> lists(excluded, tool@) ==> !r,
        policy.allowed_tools matches Some(allowed) ==> !lists(allowed, tool@) ==> !r,
        !r ==> {
            ||| policy.excluded_tools is Some && lists(policy.excluded_tools->0, tool@)
            ||| policy.allowed_tools is Some && !lists(policy.allowed_tools->0, tool@)
        },
        r == policy.may_use(tool@),
{
    if let Some(excluded) = policy.excluded_tools {
        lemma_lists(excluded, tool@);
    }
    if let Some(allowed) = policy.allowed_tools {
        lemma_lists(allowed, tool@);
    }
}

/// Delegation is permitted exactly by a switch that is set to allow it.
pub proof fn only_allow_permits(switch: DelegationPolicy, r: bool)
    requires
        call_ensures(DelegationPolicy::permits, (&switch,), r),
    ensures
        r <==> switch.mode == DelegationMode::Allow,
        !r <==> switch.mode == DelegationMode::Forbidden,
{
}

/// With a configuration attached, a target runs under its own policy: what it
/// may use, where it may go, what it has to ask for and how it is sandboxed is
/// as the configuration resolves it. Only its budget is the caller's.
pub proof fn target_keeps_its_own_policy(
    tool: DelegateTool,
    target: &str,
    own: SecurityPolicy,
    evidence: Option<&GuardEvidence>,
    p: Arc<SecurityPolicy>,
)
    requires
        call_ensures(
            DelegateTool::policy_for_target,
            (&tool, target, Ok(own), evidence),
            Ok(p),
        ),
        tool.root_config is Some,
    ensures
        forall|t: Seq<char>| #[trigger] p.may_use(t) == own.may_use(t),
        p.allowed_tools == own.allowed_tools,
        p.excluded_tools == own.excluded_tools,
        p.risk_profile_name == own.risk_profile_name,
        p.delegation_policy == own.delegation_policy,
        p.auto_approve == own.auto_approve,
        p.always_ask == own.always_ask,
        p.sandbox_enabled == own.sandbox_enabled,
        p.sandbox_backend == own.sandbox_backend,
        p.firejail_args == own.firejail_args,
        p.allowed_roots == own.allowed_roots,
        p.allowed_roots_read_only == own.allowed_roots_read_only,
        p.allowed_roots_write_only == own.allowed_roots_write_only,
        p.workspace_only == own.workspace_only,
        p.tracker == tool.security.tracker,
{
}

/// The same, of every outcome that a delegation can have.
pub proof fn outcome_keeps_the_targets_policy(
    tool: DelegateTool,
    target: Seq<char>,
    own: SecurityPolicy,
    evidence: Option<&GuardEvidence>,
    p: Arc<SecurityPolicy>,
)
    requires
        guard::policy_outcome(tool, target, Ok(own), evidence, Ok(p)),
        tool.root_config is Some,
    ensures
        forall|t: Seq<char>| #[trigger] p.may_use(t) == own.may_use(t),
        *p == (SecurityPolicy { tracker: p.tracker, ..own }),
        p.tracker == tool.security.tracker,
{
}

/// A tool that steps judge to pass runs under the policy that its configuration
/// resolves to, but for the budget.
pub proof fn judged_target_keeps_its_own_policy<R, B, P, X, C>(
    steps: GuardSteps<R, B, P, X, C>,
    tool: DelegateTool,
    config: Arc<Config>,
    target: Seq<char>,
    p: Arc<SecurityPolicy>,
) where
    R: Fn(&Config, &str) -> Result<SecurityPolicy, String>,
    B: Fn(&Config, &str, &str, &str) -> SecurityPolicy,
    P: Fn(&Config, &str, SecurityPolicy) -> SecurityPolicy,
    X: Fn(&SecurityPolicy, &SecurityPolicy) -> Option<String>,
    C: Fn(&str) -> Option<String>,

    requires
        steps.judged(tool, target, Ok(p)),
        tool.root_config == Some(config),
    ensures
        tool.security.delegation_policy.mode == DelegationMode::Allow,
        exists|name: &str, own: SecurityPolicy|
            {
                &&& name@ == target
                &&& #[trigger] call_ensures(steps.resolve, (&*config, name), Ok(own))
                &&& *p == (SecurityPolicy { tracker: tool.security.tracker, ..own })
            },
{
    let (resolved, evidence) = choose|
        resolved: Result<SecurityPolicy, String>,
        evidence: Option<GuardEvidence>,
    |
        {
            &&& steps.is_resolved(*config, target, resolved)
            &&& steps.is_evidence(*config, tool.caller_alias@, target, evidence)
            &&& #[trigger] guard::policy_outcome(
                tool,
                target,
                resolved,
                crate::evidence::borrowed(&evidence),
                Ok(p),
            )
        };
    let name = choose|name: &str|
        name@ == target && #[trigger] call_ensures(steps.resolve, (&*config, name), resolved);
    assert(resolved is Ok);
    let own = resolved->Ok_0;
    assert(call_ensures(steps.resolve, (&*config, name), Ok(own)));
}

/// Evidence compares the grants of the target with those of the caller, in this
/// order, and looks at the workspaces of these two.
pub proof fn evidence_compares_target_with_caller<R, B, P, X, C>(
    steps: GuardSteps<R, B, P, X, C>,
    config: Config,
    caller: Seq<char>,
    target: Seq<char>,
    e: GuardEvidence,
) where
    R: Fn(&Config, &str) -> Result<SecurityPolicy, String>,
    B: Fn(&Config, &str, &str, &str) -> SecurityPolicy,
    P: Fn(&Config, &str, SecurityPolicy) -> SecurityPolicy,
    X: Fn(&SecurityPolicy, &SecurityPolicy) -> Option<String>,
    C: Fn(&str) -> Option<String>,

    requires
        steps.is_evidence(config, caller, target, Some(e)),
    ensures
        call_ensures(steps.compare, (&e.target_grants, &e.caller_grants), e.escalation),
        exists|dir: &str|
            dir@ == config.workspace_of(caller) && #[trigger] call_ensures(
                steps.canonical,
                (dir,),
                e.caller_canonical,
            ),
        exists|dir: &str|
            dir@ == config.workspace_of(target) && #[trigger] call_ensures(
                steps.canonical,
                (dir,),
                e.target_canonical,
            ),
        exists|name: &str, policy: SecurityPolicy|
            name@ == caller && #[trigger] call_ensures(
                steps.equip,
                (&config, name, policy),
                e.caller_grants,
            ) && policy.risk_profile_name@ == text::trimmed(
                config.agents.lookup(caller)->0.risk_profile@,
            ),
        exists|name: &str, policy: SecurityPolicy|
            name@ == target && #[trigger] call_ensures(
                steps.equip,
                (&config, name, policy),
                e.target_grants,
            ) && policy.risk_profile_name@ == text::trimmed(
                config.agents.lookup(target)->0.risk_profile@,
            ),
{
    lemma_equipped(steps, config, caller, e.caller_grants);
    lemma_equipped(steps, config, target, e.target_grants);
}

proof fn lemma_equipped<R, B, P, X, C>(
    steps: GuardSteps<R, B, P, X, C>,
    config: Config,
    alias: Seq<char>,
    grants: SecurityPolicy,
) where
    R: Fn(&Config, &str) -> Result<SecurityPolicy, String>,
    B: Fn(&Config, &str, &str, &str) -> SecurityPolicy,
    P: Fn(&Config, &str, SecurityPolicy) -> SecurityPolicy,
    X: Fn(&SecurityPolicy, &SecurityPolicy) -> Option<String>,
    C: Fn(&str) -> Option<String>,

    requires
        steps.are_grants(config, alias, grants),
    ensures
        exists|name: &str, policy: SecurityPolicy|
            name@ == alias && #[trigger] call_ensures(
                steps.equip,
                (&config, name, policy),
                grants,
            ) && policy.risk_profile_name@ == text::trimmed(
                config.agents.lookup(alias)->0.risk_profile@,
            ),
{
    let (start, merged) = choose|start: SecurityPolicy, merged: SecurityPolicy|
        {
            &&& steps.is_base(config, alias, start)
            &&& #[trigger] guard::grants_from(
                config,
                config.agents.lookup(alias)->0,
                start,
                merged,
            )
            &&& steps.is_equipped(config, alias, merged, grants)
        };
    let name = choose|name: &str|
        name@ == alias && #[trigger] call_ensures(steps.equip, (&config, name, merged), grants);
    assert(call_ensures(steps.equip, (&config, name, merged), grants));
}

/// What is approved without asking, and what is always asked for, follows the
/// lists: a name in the list, or `*` for every tool.
pub proof fn approvals_follow_the_lists(policy: SecurityPolicy, tool: Seq<char>)
    ensures
        policy.auto_approves(tool) <==> lists(policy.auto_approve, tool) || lists(
            policy.auto_approve,
            "*"@,
        ),
        policy.always_asks(tool) <==> lists(policy.always_ask, tool) || lists(
            policy.always_ask,
            "*"@,
        ),
{
    lemma_lists(policy.auto_approve, tool);
    lemma_lists(policy.auto_approve, "*"@);
    lemma_lists(policy.always_ask, tool);
    lemma_lists(policy.always_ask, "*"@);
}

/// The names of sandbox backends that stand for themselves.
pub open spec fn own_backends() -> Seq<Seq<char>> {
    seq![
        "landlock"@,
        "firejail"@,
        "bubblewrap"@,
        "docker"@,
        "sandbox-exec"@,
        "none"@,
        "auto"@,
    ]
}

/// A backend stands for itself however it is written; two other names stand for
/// `sandbox-exec`; none, and any other name, stands for `auto`.
pub proof fn backends_stand_for_themselves(policy: SecurityPolicy, r: &'static str)
    requires
        call_ensures(DelegateTool::resolved_sandbox_backend, (&policy,), r),
    ensures
        own_backends().contains(r@),
        policy.sandbox_backend is None ==> r@ == "auto"@,
        policy.sandbox_backend matches Some(raw) ==> {
            let name = text::lowered(text::trimmed(raw@));
            &&& own_backends().contains(name) ==> r@ == name
            &&& name == "sandboxexec"@ || name == "seatbelt"@ ==> r@ == "sandbox-exec"@
            &&& !own_backends().contains(name) && name != "sandboxexec"@ && name != "seatbelt"@
                ==> r@ == "auto"@
        },
{
    reveal_strlit("landlock");
    reveal_strlit("firejail");
    reveal_strlit("bubblewrap");
    reveal_strlit("docker");
    reveal_strlit("sandbox-exec");
    reveal_strlit("sandboxexec");
    reveal_strlit("seatbelt");
    reveal_strlit("none");
    reveal_strlit("auto");
    assert("landlock"@[0] == 'l' && "firejail"@[0] == 'f' && "bubblewrap"@[0] == 'b');
    assert("docker"@[0] == 'd' && "none"@[0] == 'n' && "auto"@[0] == 'a');
    assert("sandbox-exec"@.len() == 12 && "sandboxexec"@.len() == 11 && "seatbelt"@.len() == 8);
    assert("sandbox-exec"@[0] == 's' && "sandboxexec"@[0] == 's' && "seatbelt"@[0] == 's');
    let all = own_backends();
    assert(all[0] == "landlock"@ && all[1] == "firejail"@ && all[2] == "bubblewrap"@);
    assert(all[3] == "docker"@ && all[4] == "sandbox-exec"@ && all[5] == "none"@);
    assert(all[6] == "auto"@);
    if let Some(raw) = policy.sandbox_backend {
        let name = text::lowered(text::trimmed(raw@));
        if all.contains(name) {
            let i = all.index_of(name);
            assert(all[i] == name);
        }
    }
}

/// Commands run in a sandbox unless the backend is `none` or the sandbox is
/// switched off.
pub proof fn sandbox_is_on_by_default(policy: SecurityPolicy, backend: &'static str, r: bool)
    requires
        call_ensures(DelegateTool::effectively_sandboxed, (&policy,), r),
        call_ensures(DelegateTool::resolved_sandbox_backend, (&policy,), backend),
    ensures
        r <==> backend@ != "none"@ && policy.sandbox_enabled != Some(false),
        r == policy.sandboxed(),
        backend@ == policy.backend(),
{
}

/// The directory that file tools are confined to is the canonical one where
/// there is one.
pub proof fn jail_is_canonical(workspace: &str, canonical: Option<String>, r: String)
    requires
        call_ensures(DelegateTool::workspace_jail, (workspace, &canonical), r),
    ensures
        canonical matches Some(path) ==> r@ == path@,
        canonical is None ==> r@ == workspace@,
{
}

/// The list of a rebuilt registry holds exactly the tools of the list but
/// `delegate`, without the whitespace round them.
pub proof fn rebuilding_drops_delegate_only(tools: Vec<String>, r: Vec<String>, name: Seq<char>)
    requires
        call_ensures(DelegateTool::agentic_rebuild_allowlist, (&tools,), r),
    ensures
        lists(r, name) <==> name.len() > 0 && name != "delegate"@ && exists|i: int|
            0 <= i < tools@.len() && text::trimmed((#[trigger] tools@[i])@) == name,
        r@.len() <= tools@.len(),
{
    let all = tools.deep_view();
    lemma_lists(r, name);
    lemma_rebuild_len(all);
    assert(r.deep_view().len() == r@.len());
    if r.deep_view().contains(name) {
        narrowing::rebuild_never_delegates(all, name);
        let i = choose|i: int| 0 <= i < all.len() && text::trimmed(#[trigger] all[i]) == name;
        assert(tools@[i]@ == all[i]);
    }
    if name.len() > 0 && name != "delegate"@ && exists|i: int|
        0 <= i < tools@.len() && text::trimmed((#[trigger] tools@[i])@) == name {
        let i = choose|i: int|
            0 <= i < tools@.len() && text::trimmed((#[trigger] tools@[i])@) == name;
        assert(all[i] == tools@[i]@);
        narrowing::rebuild_keeps_tools(all, i);
    }
}

proof fn lemma_rebuild_len(tools: Seq<Seq<char>>)
    ensures
        guard::rebuild_list(tools).len() <= tools.len(),
    decreases tools.len(),
{
    if tools.len() > 0 {
        lemma_rebuild_len(tools.drop_last());
    }
}

/// The tool check passes exactly when the target may use no tool that the caller
/// may not.
pub proof fn tool_check_refuses_wider(
    caller: SecurityPolicy,
    target: SecurityPolicy,
    r: Result<(), String>,
)
    requires
        call_ensures(DelegateTool::target_tools_within_caller, (&caller, &target), r),
    ensures
        r is Ok <==> forall|tool: Seq<char>| #[trigger]
            target.may_use(tool) ==> caller.may_use(tool),
{
    narrowing::tool_check_is_subset(caller, target);
}

/// The approval and sandbox check passes exactly when the target asks wherever
/// the caller asks, approves nothing that the caller does not, and runs in the
/// caller's sandbox where it has one.
pub proof fn relaxation_check_refuses_laxer(
    caller: SecurityPolicy,
    target: SecurityPolicy,
    r: Result<(), String>,
)
    requires
        call_ensures(DelegateTool::target_approval_sandbox_within_caller, (&caller, &target), r),
    ensures
        r is Ok <==> {
            &&& forall|tool: Seq<char>| #[trigger]
                target.auto_approves(tool) ==> caller.auto_approves(tool)
            &&& forall|tool: Seq<char>| #[trigger]
                caller.always_asks(tool) ==> target.always_asks(tool)
            &&& caller.sandboxed() ==> target.sandboxed() && target.backend() == caller.backend()
        },
{
    narrowing::relaxation_check_is_exact(caller, target);
}

/// Whether an agent is configured and so is its risk profile.
pub open spec fn comparable(config: Config, alias: Seq<char>) -> bool {
    &&& config.agents.lookup(alias) matches Some(agent)
    &&& config.risk_profiles.lookup(text::trimmed(agent.risk_profile@)) is Some
}

/// Whether an agent of the configuration runs a tool-call loop.
pub open spec fn runs_tools(config: Config, alias: Seq<char>) -> bool {
    &&& config.agents.lookup(alias) matches Some(agent)
    &&& config.runtime_profiles.lookup(text::trimmed(agent.runtime_profile@)) matches Some(profile)
    &&& profile.agentic
}

/// The directory that the file tools of an agent are confined to.
pub open spec fn confined_to(
    config: Config,
    alias: Seq<char>,
    canonical: Option<String>,
) -> Seq<char> {
    if canonical is Some {
        canonical->0@
    } else {
        config.workspace_of(alias)
    }
}

/// Whether a list names a tool other than `delegate`.
pub open spec fn names_a_tool(tools: Vec<String>) -> bool {
    exists|i: int|
        {
            &&& 0 <= i < tools@.len()
            &&& text::trimmed((#[trigger] tools@[i])@).len() > 0
            &&& text::trimmed(tools@[i]@) != "delegate"@
        }
}

pub(crate) proof fn lemma_names_a_tool(tools: Vec<String>)
    ensures
        names_a_tool(tools) == (guard::rebuild_list(tools.deep_view()).len() > 0),
{
    let all = tools.deep_view();
    let list = guard::rebuild_list(all);
    if names_a_tool(tools) {
        let i = choose|i: int|
            {
                &&& 0 <= i < tools@.len()
                &&& text::trimmed((#[trigger] tools@[i])@).len() > 0
                &&& text::trimmed(tools@[i]@) != "delegate"@
            };
        assert(all[i] == tools@[i]@);
        narrowing::rebuild_keeps_tools(all, i);
    }
    if list.len() > 0 {
        assert(list.contains(list[0]));
        narrowing::rebuild_never_delegates(all, list[0]);
        let i = choose|i: int| 0 <= i < all.len() && text::trimmed(#[trigger] all[i]) == list[0];
        assert(tools@[i]@ == all[i]);
    }
}

/// A delegation passes the guard exactly when the target is configured and is on
/// the caller's own risk profile; or when caller and target can be compared, the
/// target's grants do not exceed the caller's, and a target that runs tools has
/// tools of its own, uses none that the caller may not use, relaxes no approval
/// and no sandbox, and is not confined to a directory above the caller's.
pub proof fn guard_passes_only_narrower(
    tool: DelegateTool,
    config: Config,
    target: &str,
    evidence: Option<&GuardEvidence>,
    r: Result<(), String>,
)
    requires
        call_ensures(DelegateTool::cross_profile_decision, (&tool, &config, target, evidence), r),
    ensures
        r is Ok <==> {
            &&& config.agents.lookup(target@) matches Some(agent)
            &&& {
                let profile = text::trimmed(agent.risk_profile@);
                ||| tool.security.risk_profile_name@ == profile
                ||| {
                    &&& tool.caller_alias@.len() > 0
                    &&& comparable(config, tool.caller_alias@)
                    &&& comparable(config, target@)
                    &&& evidence matches Some(e)
                    &&& e.escalation is None
                    &&& runs_tools(config, target@) ==> {
                        let own = confined_to(config, tool.caller_alias@, e.caller_canonical);
                        let theirs = confined_to(config, target@, e.target_canonical);
                        &&& forall|t: Seq<char>| #[trigger]
                            e.target_grants.may_use(t) ==> e.caller_grants.may_use(t)
                        &&& forall|t: Seq<char>| #[trigger]
                            e.target_grants.auto_approves(t) ==> e.caller_grants.auto_approves(t)
                        &&& forall|t: Seq<char>| #[trigger]
                            e.caller_grants.always_asks(t) ==> e.target_grants.always_asks(t)
                        &&& e.caller_grants.sandboxed() ==> e.target_grants.sandboxed()
                            && e.target_grants.backend() == e.caller_grants.backend()
                        &&& e.target_grants.workspace_only && paths::starts_with(own, theirs)
                            ==> paths::starts_with(theirs, own)
                        &&& names_a_tool(config.risk_profiles.lookup(profile)->0.allowed_tools)
                    }
                }
            }
        },
{
    narrowing::guard_passes_exactly(
        config,
        tool.caller_alias@,
        tool.security.risk_profile_name@,
        target@,
        evidence,
    );
    if let Some(agent) = config.agents.lookup(target@) {
        let profile = text::trimmed(agent.risk_profile@);
        if let Some(risk) = config.risk_profiles.lookup(profile) {
            lemma_names_a_tool(risk.allowed_tools);
        }
    }
}

/// Every refusal of the guard names the target that it refuses.
pub proof fn refusals_name_the_target(
    tool: DelegateTool,
    config: Config,
    target: &str,
    evidence: Option<&GuardEvidence>,
    reason: String,
)
    requires
        call_ensures(
            DelegateTool::cross_profile_decision,
            (&tool, &config, target, evidence),
            Err(reason),
        ),
    ensures
        text::occurs_in(text::debug_text(target@), reason@),
{
    let shown = text::debug_text(target@);
    let known = "delegate target "@;
    let unknown = "unknown delegate target "@;
    if config.agents.lookup(target@) is None {
        assert(reason@.subrange(unknown.len() as int, (unknown.len() + shown.len()) as int) =~= shown);
    } else {
        assert(reason@.len() >= known.len() + shown.len());
        assert(reason@.subrange(known.len() as int, (known.len() + shown.len()) as int) =~= shown);
    }
}

/// With a configuration, a target gets a policy exactly when its own policy
/// resolves, the caller may delegate and the guard lets it pass. Without one it
/// runs under the caller's policy.
pub proof fn policy_needs_switch_and_guard(
    tool: DelegateTool,
    target: &str,
    resolved: Result<SecurityPolicy, String>,
    evidence: Option<&GuardEvidence>,
    decided: Result<(), String>,
    r: Result<Arc<SecurityPolicy>, String>,
)
    requires
        call_ensures(DelegateTool::policy_for_target, (&tool, target, resolved, evidence), r),
        tool.root_config matches Some(config) ==> call_ensures(
            DelegateTool::cross_profile_decision,
            (&tool, &*config, target, evidence),
            decided,
        ),
    ensures
        tool.root_config is None ==> r == Ok::<Arc<SecurityPolicy>, String>(tool.security),
        tool.root_config is Some ==> {
            &&& r is Ok <==> resolved is Ok && tool.security.delegation_policy.mode
                == DelegationMode::Allow && decided is Ok
            &&& resolved is Ok && tool.security.delegation_policy.mode == DelegationMode::Allow
                && decided is Err ==> r->Err_0@ == decided->Err_0@
            &&& resolved matches Err(e) ==> text::occurs_in(e@, r->Err_0@)
        },
{
    if tool.root_config is Some && resolved is Err {
        let e = resolved->Err_0@;
        let whole = r->Err_0@;
        assert(whole.subrange(whole.len() - e.len(), whole.len() as int) =~= e);
        assert(whole.subrange(whole.len() - e.len(), whole.len() - e.len() + e.len()) == e);
    }
}

/// Whether a sibling's workspace is opened to an agent in a mode.
pub open spec fn opens(
    config: Config,
    agent: AliasedAgentConfig,
    dir: Seq<char>,
    mode: AccessMode,
) -> bool {
    exists|sibling: Seq<char>|
        #[trigger] agent.workspace.access.lookup(sibling) == Some(mode) && dir
            == config.workspace_of(sibling)
}

proof fn lemma_opened(
    config: Config,
    access: AliasTable<AccessMode>,
    n: int,
    mode: AccessMode,
    dir: Seq<char>,
)
    requires
        access.wf(),
        0 <= n <= access.keys().len(),
    ensures
        guard::opened_dirs(config, access, n, mode).contains(dir) <==> exists|i: int|
            0 <= i < n && access.value_at(i) == mode && dir == config.workspace_of(
                #[trigger] access.keys()[i],
            ),
    decreases n,
{
    if n > 0 {
        lemma_opened(config, access, n - 1, mode, dir);
        let all = guard::opened_dirs(config, access, n, mode);
        let before = guard::opened_dirs(config, access, n - 1, mode);
        if before.contains(dir) {
            let k = before.index_of(dir);
            assert(all[k] == dir);
        }
        if access.value_at(n - 1) == mode && dir == config.workspace_of(access.keys()[n - 1]) {
            assert(all[all.len() - 1] == dir);
        }
        if all.contains(dir) {
            let k = all.index_of(dir);
            if k < before.len() {
                assert(before[k] == dir);
            } else {
                assert(dir == config.workspace_of(access.keys()[n - 1]));
            }
        }
    }
}

proof fn lemma_opens(config: Config, agent: AliasedAgentConfig, dir: Seq<char>, mode: AccessMode)
    requires
        agent.workspace.access.wf(),
    ensures
        guard::opened_dirs(
            config,
            agent.workspace.access,
            agent.workspace.access.keys().len() as int,
            mode,
        ).contains(dir) == opens(config, agent, dir, mode),
{
    let access = agent.workspace.access;
    let keys = access.keys();
    lemma_opened(config, access, keys.len() as int, mode, dir);
    if opens(config, agent, dir, mode) {
        let sibling = choose|sibling: Seq<char>|
            #[trigger] access.lookup(sibling) == Some(mode) && dir == config.workspace_of(sibling);
        let i = keys.index_of(sibling);
        assert(keys[i] == sibling);
    }
    if exists|i: int|
        0 <= i < keys.len() && access.value_at(i) == mode && dir == config.workspace_of(
            #[trigger] keys[i],
        ) {
        let i = choose|i: int|
            0 <= i < keys.len() && access.value_at(i) == mode && dir == config.workspace_of(
                #[trigger] keys[i],
            );
        assert(keys.contains(keys[i]));
        assert(keys.index_of(keys[i]) == i);
        assert(access.lookup(keys[i]) == Some(mode));
    }
}

/// The grants of an agent are its profiles' policy with the workspaces of the
/// siblings that it may use among the roots, each in its mode, and nothing else
/// added. An unrestricted agent is not confined.
pub proof fn grants_add_opened_workspaces(
    config: Config,
    alias: &str,
    base: SecurityPolicy,
    grants: SecurityPolicy,
    dir: Seq<char>,
)
    requires
        call_ensures(DelegateTool::profile_grants, (&config, alias, base), Some(grants)),
        config.agents.lookup(alias@)->0.workspace.access.wf(),
    ensures
        comparable(config, alias@),
        ({
            let agent = config.agents.lookup(alias@)->0;
            &&& lists(grants.allowed_roots, dir) <==> lists(base.allowed_roots, dir) || opens(
                config,
                agent,
                dir,
                AccessMode::ReadWrite,
            )
            &&& lists(grants.allowed_roots_read_only, dir) <==> lists(
                base.allowed_roots_read_only,
                dir,
            ) || opens(config, agent, dir, AccessMode::Read)
            &&& lists(grants.allowed_roots_write_only, dir) <==> lists(
                base.allowed_roots_write_only,
                dir,
            ) || opens(config, agent, dir, AccessMode::Write)
            &&& grants.workspace_only <==> base.workspace_only
                && !agent.workspace.unrestricted_filesystem
            &&& grants.risk_profile_name@ == text::trimmed(agent.risk_profile@)
        }),
        grants.allowed_tools == base.allowed_tools,
        grants.excluded_tools == base.excluded_tools,
        grants.auto_approve == base.auto_approve,
        grants.always_ask == base.always_ask,
        grants.sandbox_enabled == base.sandbox_enabled,
        grants.sandbox_backend == base.sandbox_backend,
        grants.delegation_policy == base.delegation_policy,
        grants.tracker == base.tracker,
{
    let agent = config.agents.lookup(alias@)->0;
    lemma_opens(config, agent, dir, AccessMode::ReadWrite);
    lemma_opens(config, agent, dir, AccessMode::Read);
    lemma_opens(config, agent, dir, AccessMode::Write);
    lemma_lists(grants.allowed_roots, dir);
    lemma_lists(base.allowed_roots, dir);
    lemma_lists(grants.allowed_roots_read_only, dir);
    lemma_lists(base.allowed_roots_read_only, dir);
    lemma_lists(grants.allowed_roots_write_only, dir);
    lemma_lists(base.allowed_roots_write_only, dir);
    let n = agent.workspace.access.keys().len() as int;
    let access = agent.workspace.access;
    lemma_contains_either(
        base.allowed_roots.deep_view(),
        guard::opened_dirs(config, access, n, AccessMode::ReadWrite),
        dir,
    );
    lemma_contains_either(
        base.allowed_roots_read_only.deep_view(),
        guard::opened_dirs(config, access, n, AccessMode::Read),
        dir,
    );
    lemma_contains_either(
        base.allowed_roots_write_only.deep_view(),
        guard::opened_dirs(config, access, n, AccessMode::Write),
        dir,
    );
}

proof fn lemma_contains_either(a: Seq<Seq<char>>, b: Seq<Seq<char>>, x: Seq<char>)
    ensures
        (a + b).contains(x) == (a.contains(x) || b.contains(x)),
{
    let c = a + b;
    if a.contains(x) {
        assert(c[a.index_of(x)] == x);
    }
    if b.contains(x) {
        assert(c[a.len() + b.index_of(x)] == x);
    }
    if c.contains(x) {
        let k = c.index_of(x);
        if k < a.len() {
            assert(a[k] == x);
        } else {
            assert(b[k - a.len()] == x);
        }
    }
}

/// An agent that cannot be compared has no grants.
pub proof fn only_configured_agents_have_grants(
    config: Config,
    alias: &str,
    base: SecurityPolicy,
    r: Option<SecurityPolicy>,
)
    requires
        call_ensures(DelegateTool::profile_grants, (&config, alias, base), r),
    ensures
        r is Some <==> comparable(config, alias@),
{
}

/// Whether an entry of a list is a tool that a rebuilt registry may hold.
pub open spec fn is_kept(entry: Seq<char>) -> bool {
    text::trimmed(entry).len() > 0 && text::trimmed(entry) != "delegate"@
}

/// How many of the first `n` entries are kept.
pub open spec fn kept_before(tools: Seq<String>, n: int) -> int
    decreases n,
{
    if n <= 0 {
        0
    } else if is_kept(tools[n - 1]@) {
        kept_before(tools, n - 1) + 1
    } else {
        kept_before(tools, n - 1)
    }
}

spec fn kept_to(tools: Vec<String>, n: int) -> Seq<Seq<char>> {
    guard::rebuild_list(tools.deep_view().take(n))
}

proof fn lemma_kept_next(tools: Vec<String>, n: int)
    requires
        0 <= n <= tools@.len(),
    ensures
        kept_to(tools, n).len() == kept_before(tools@, n),
        n > 0 ==> kept_to(tools, n) == if is_kept(tools@[n - 1]@) {
            kept_to(tools, n - 1).push(text::trimmed(tools@[n - 1]@))
        } else {
            kept_to(tools, n - 1)
        },
    decreases n,
{
    let all = tools.deep_view();
    if n > 0 {
        lemma_kept_next(tools, n - 1);
        assert(all.take(n).drop_last() =~= all.take(n - 1));
        assert(all.take(n).last() == tools@[n - 1]@);
    }
}

proof fn lemma_kept_at(tools: Vec<String>, n: int, k: int)
    requires
        0 <= k < n <= tools@.len(),
        is_kept(tools@[k]@),
    ensures
        0 <= kept_before(tools@, k) < kept_to(tools, n).len(),
        kept_to(tools, n)[kept_before(tools@, k)] == text::trimmed(tools@[k]@),
    decreases n,
{
    lemma_kept_next(tools, n);
    lemma_kept_next(tools, k);
    lemma_kept_next(tools, n - 1);
    if k < n - 1 {
        lemma_kept_at(tools, n - 1, k);
    }
}

/// The list of a rebuilt registry has the tools that are kept in the order in which
/// they were listed, and as often.
pub proof fn rebuilding_keeps_the_order(tools: Vec<String>, r: Vec<String>, k: int)
    requires
        call_ensures(DelegateTool::agentic_rebuild_allowlist, (&tools,), r),
    ensures
        r@.len() == kept_before(tools@, tools@.len() as int),
        0 <= k < tools@.len() && is_kept(tools@[k]@) ==> {
            let at = kept_before(tools@, k);
            &&& 0 <= at < r@.len()
            &&& r@[at]@ == text::trimmed(tools@[k]@)
        },
{
    let n = tools@.len() as int;
    assert(tools.deep_view().take(n) =~= tools.deep_view());
    lemma_kept_next(tools, n);
    assert(r.deep_view().len() == r@.len());
    if 0 <= k < n && is_kept(tools@[k]@) {
        lemma_kept_at(tools, n, k);
        let at = kept_before(tools@, k);
        assert(r.deep_view()[at] == r@[at]@);
    }
}

/// The roots that an agent's profiles give come first among its roots, as they are.
pub proof fn grants_keep_the_roots_of_the_profiles(
    config: Config,
    alias: &str,
    base: SecurityPolicy,
    grants: SecurityPolicy,
    i: int,
)
    requires
        call_ensures(DelegateTool::profile_grants, (&config, alias, base), Some(grants)),
    ensures
        0 <= i < base.allowed_roots@.len() ==> i < grants.allowed_roots@.len()
            && grants.allowed_roots@[i]@ == base.allowed_roots@[i]@,
        0 <= i < base.allowed_roots_read_only@.len() ==> i < grants.allowed_roots_read_only@.len()
            && grants.allowed_roots_read_only@[i]@ == base.allowed_roots_read_only@[i]@,
        0 <= i < base.allowed_roots_write_only@.len() ==> i
            < grants.allowed_roots_write_only@.len() && grants.allowed_roots_write_only@[i]@
            == base.allowed_roots_write_only@[i]@,
{
    lemma_first(base.allowed_roots, grants.allowed_roots, i);
    lemma_first(base.allowed_roots_read_only, grants.allowed_roots_read_only, i);
    lemma_first(base.allowed_roots_write_only, grants.allowed_roots_write_only, i);
}

proof fn lemma_first(a: Vec<String>, b: Vec<String>, i: int)
    requires
        exists|more: Seq<Seq<char>>| #[trigger] (a.deep_view() + more) == b.deep_view(),
    ensures
        0 <= i < a@.len() ==> i < b@.len() && b@[i]@ == a@[i]@,
{
    let more = choose|more: Seq<Seq<char>>| #[trigger] (a.deep_view() + more) == b.deep_view();
    assert(a.deep_view().len() == a@.len() && b.deep_view().len() == b@.len());
    if 0 <= i < a@.len() {
        assert((a.deep_view() + more)[i] == a.deep_view()[i]);
        assert(b.deep_view()[i] == b@[i]@ && a.deep_view()[i] == a@[i]@);
    }
}

} // verus!
