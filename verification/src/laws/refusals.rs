//! Laws of what the guard says, and of what it is told.

use std::sync::Arc;

use vstd::prelude::*;

use crate::delegate::DelegateTool;
use crate::evidence::GuardSteps;
use crate::guard;
use crate::guard::GuardEvidence;
use crate::laws::policies::{comparable, confined_to, names_a_tool, runs_tools};
use crate::laws::texts;
use crate::paths;
use crate::policy::{DelegationMode, SecurityPolicy};
use crate::schema::Config;
use crate::table::AliasTable;
use crate::text;

verus! {

/// A refusal on account of tools names one that the target may use and the caller
/// may not; or says that it is every tool, where the caller keeps to a list and the
/// target does not.
pub proof fn wider_tool_is_named(caller: SecurityPolicy, target: SecurityPolicy, reason: String)
    requires
        call_ensures(
            DelegateTool::target_tools_within_caller,
            (&caller, &target),
            Err::<(), String>(reason),
        ),
    ensures
        caller.allowed_tools is Some && target.allowed_tools is None ==> text::occurs_in(
            "every tool"@,
            reason@,
        ),
        !(caller.allowed_tools is Some && target.allowed_tools is None) ==> exists|
            tool: Seq<char>,
        |
            {
                &&& #[trigger] target.may_use(tool)
                &&& !caller.may_use(tool)
                &&& text::occurs_in(text::debug_text(tool), reason@)
            },
{
    reveal_strlit("every tool");
    reveal_strlit(
        "every tool (the target has no allowed_tools allowlist while the caller restricts to one)",
    );
    let word = "every tool"@;
    let whole =
        "every tool (the target has no allowed_tools allowlist while the caller restricts to one)"@;
    assert(whole.subrange(0int, 0int + word.len()) =~= word);
    match (caller.allowed_tools, target.allowed_tools) {
        (Some(_), None) => {},
        (_, Some(allowed)) => {
            let bad = |tool: Seq<char>| target.may_use(tool) && !caller.may_use(tool);
            let tool = text::first_match(allowed.deep_view(), bad)->0;
            lemma_match(allowed.deep_view(), bad);
            texts::stands_within("tool "@, text::debug_text(tool), seq![]);
            assert(target.may_use(tool));
        },
        (None, None) => {
            let excluded = caller.excluded_tools->0;
            let bad = |tool: Seq<char>| target.may_use(tool);
            let tool = text::first_match(excluded.deep_view(), bad)->0;
            lemma_match(excluded.deep_view(), bad);
            texts::stands_within(
                "tool "@,
                text::debug_text(tool),
                " (which the caller excludes)"@,
            );
            assert(target.may_use(tool));
        },
    }
}

proof fn lemma_match(names: Seq<Seq<char>>, bad: spec_fn(Seq<char>) -> bool)
    requires
        text::first_match(names, bad) is Some,
    ensures
        bad(text::first_match(names, bad)->0),
        names.contains(text::first_match(names, bad)->0),
    decreases names.len(),
{
    if exists|n: int|
        0 <= n < names.len() && bad(names[n]) && forall|k: int|
            0 <= k < n ==> !bad(#[trigger] names[k]) {
        let n = choose|n: int|
            0 <= n < names.len() && bad(names[n]) && forall|k: int|
                0 <= k < n ==> !bad(#[trigger] names[k]);
        text::first_match_is(names, bad, n);
        assert(names.contains(names[n]));
    } else {
        lemma_none_before(names, bad, names.len() as int);
        text::first_match_is(names, bad, names.len() as int);
    }
}

proof fn lemma_none_before(names: Seq<Seq<char>>, bad: spec_fn(Seq<char>) -> bool, n: int)
    requires
        0 <= n <= names.len(),
        !exists|m: int|
            0 <= m < names.len() && bad(names[m]) && forall|k: int|
                0 <= k < m ==> !bad(#[trigger] names[k]),
    ensures
        forall|k: int| 0 <= k < n ==> !bad(#[trigger] names[k]),
    decreases n,
{
    if n > 0 {
        lemma_none_before(names, bad, n - 1);
    }
}

proof fn lemma_approved(caller: SecurityPolicy, target: SecurityPolicy)
    ensures
        (exists|tool: Seq<char>| #[trigger]
            target.auto_approves(tool) && !caller.auto_approves(tool)) <==> text::first_match(
            target.auto_approve.deep_view(),
            |tool: Seq<char>| !caller.auto_approves(tool),
        ) is Some,
{
    let free = |tool: Seq<char>| !caller.auto_approves(tool);
    let approved = target.auto_approve.deep_view();
    if text::first_match(approved, free) is Some {
        lemma_match(approved, free);
        assert(target.auto_approves(text::first_match(approved, free)->0));
    } else {
        text::first_match_none(approved, free);
        if exists|tool: Seq<char>| #[trigger]
            target.auto_approves(tool) && !caller.auto_approves(tool) {
            let tool = choose|tool: Seq<char>| #[trigger]
                target.auto_approves(tool) && !caller.auto_approves(tool);
            let held = if approved.contains("*"@) {
                "*"@
            } else {
                tool
            };
            assert(approved.contains(held));
            assert(!free(held));
        }
    }
}

proof fn lemma_dropped(caller: SecurityPolicy, target: SecurityPolicy)
    ensures
        (exists|tool: Seq<char>| #[trigger]
            caller.always_asks(tool) && !target.always_asks(tool)) <==> text::first_match(
            caller.always_ask.deep_view(),
            |tool: Seq<char>| !target.always_asks(tool),
        ) is Some,
{
    let lost = |tool: Seq<char>| !target.always_asks(tool);
    let asked = caller.always_ask.deep_view();
    if text::first_match(asked, lost) is Some {
        lemma_match(asked, lost);
        assert(caller.always_asks(text::first_match(asked, lost)->0));
    } else {
        text::first_match_none(asked, lost);
        if exists|tool: Seq<char>| #[trigger]
            caller.always_asks(tool) && !target.always_asks(tool) {
            let tool = choose|tool: Seq<char>| #[trigger]
                caller.always_asks(tool) && !target.always_asks(tool);
            let held = if asked.contains("*"@) {
                "*"@
            } else {
                tool
            };
            assert(asked.contains(held));
            assert(!lost(held));
        }
    }
}

/// Whether a text says how a target is laxer than the caller, and that it is.
pub open spec fn tells_what_is_relaxed(
    caller: SecurityPolicy,
    target: SecurityPolicy,
    reason: Seq<char>,
) -> bool {
    ||| exists|tool: Seq<char>|
        {
            &&& #[trigger] target.auto_approves(tool)
            &&& !caller.auto_approves(tool)
            &&& text::occurs_in(
                "auto-approves "@ + text::debug_text(tool),
                reason,
            )
        }
    ||| exists|tool: Seq<char>|
        {
            &&& #[trigger] caller.always_asks(tool)
            &&& !target.always_asks(tool)
            &&& text::occurs_in(
                "always-ask approval the caller requires for "@ + text::debug_text(tool),
                reason,
            )
        }
    ||| {
        &&& caller.sandboxed()
        &&& !target.sandboxed()
        &&& text::occurs_in("runs unsandboxed"@, reason)
    }
    ||| {
        &&& caller.sandboxed()
        &&& target.sandboxed()
        &&& caller.backend() != target.backend()
        &&& text::occurs_in(
            "uses sandbox backend "@ + text::debug_text(target.backend())
                + " where the caller uses "@ + text::debug_text(caller.backend()),
            reason,
        )
    }
}

/// A refusal on account of approvals or of the sandbox says which of the four it is:
/// a tool that is approved unasked, one that is no longer asked for, no sandbox, or
/// another sandbox.
pub proof fn relaxed_rule_is_named(caller: SecurityPolicy, target: SecurityPolicy, reason: String)
    requires
        call_ensures(
            DelegateTool::target_approval_sandbox_within_caller,
            (&caller, &target),
            Err::<(), String>(reason),
        ),
    ensures
        tells_what_is_relaxed(caller, target, reason@),
        (exists|tool: Seq<char>| #[trigger] target.auto_approves(tool) && !caller.auto_approves(tool))
            ==> "auto-approves "@.is_prefix_of(reason@),
        !(exists|tool: Seq<char>| #[trigger]
            target.auto_approves(tool) && !caller.auto_approves(tool)) && (exists|tool: Seq<char>|
         #[trigger] caller.always_asks(tool) && !target.always_asks(tool))
            ==> "drops the always-ask approval the caller requires for "@.is_prefix_of(reason@),
{
    lemma_approved(caller, target);
    lemma_dropped(caller, target);
    let free = |tool: Seq<char>| !caller.auto_approves(tool);
    let lost = |tool: Seq<char>| !target.always_asks(tool);
    let approved = target.auto_approve.deep_view();
    let asked = caller.always_ask.deep_view();
    if text::first_match(approved, free) is Some {
        lemma_match(approved, free);
        let tool = text::first_match(approved, free)->0;
        assert(target.auto_approves(tool));
        let a = "auto-approves "@ + text::debug_text(tool);
        texts::stands_within(
            seq![],
            a,
            ", bypassing an approval prompt the caller requires"@,
        );
        assert("auto-approves "@.is_prefix_of(reason@));
    } else if text::first_match(asked, lost) is Some {
        lemma_match(asked, lost);
        let tool = text::first_match(asked, lost)->0;
        assert(caller.always_asks(tool));
        reveal_strlit("drops the always-ask approval the caller requires for ");
        reveal_strlit("always-ask approval the caller requires for ");
        let d = text::debug_text(tool);
        let label = "always-ask approval the caller requires for "@ + d;
        let at = 10int;
        assert(reason@.subrange(at, at + label.len()) =~= label);
        assert("drops the always-ask approval the caller requires for "@.is_prefix_of(reason@));
    } else if !target.sandboxed() {
        reveal_strlit("runs unsandboxed");
        reveal_strlit(
            "runs unsandboxed where the caller runs sandboxed (sandbox_enabled / sandbox_backend)",
        );
        let word = "runs unsandboxed"@;
        assert(reason@.subrange(0int, 0int + word.len()) =~= word);
    } else {
        let a = "uses sandbox backend "@ + text::debug_text(target.backend())
            + " where the caller uses "@ + text::debug_text(caller.backend());
        texts::stands_within(seq![], a, " (a different backend is not provably narrower)"@);
    }
}

proof fn lemma_labels(
    p: Seq<char>,
    a: Seq<char>,
    x: Seq<char>,
    b: Seq<char>,
    y: Seq<char>,
    c: Seq<char>,
)
    ensures
        text::occurs_in(a + x, p + a + x + b + y + c),
        text::occurs_in(b + y, p + a + x + b + y + c),
{
    assert(p + a + x + b + y + c =~= p + (a + x) + (b + y + c));
    texts::stands_within(p, a + x, b + y + c);
    assert(p + a + x + b + y + c =~= (p + a + x) + (b + y) + c);
    texts::stands_within(p + a + x, b + y, c);
}

proof fn lemma_tail(w: Seq<char>, e: Seq<char>, d: Seq<char>, part: Seq<char>)
    requires
        text::occurs_in(part, w),
    ensures
        text::occurs_in(part, w + e + d),
        text::occurs_in(e, w + e + d),
{
    text::occurs_in_longer(part, w, seq![], e + d);
    assert(seq![] + w + (e + d) =~= w + e + d);
    texts::stands_within(w, e, d);
}

/// A target on another profile that cannot be compared is refused with its profile
/// and the one that it would need, which is the caller's.
pub proof fn both_profiles_are_named(
    tool: DelegateTool,
    config: Config,
    target: &str,
    evidence: Option<&GuardEvidence>,
    reason: String,
)
    requires
        call_ensures(
            DelegateTool::cross_profile_decision,
            (&tool, &config, target, evidence),
            Err::<(), String>(reason),
        ),
        config.agents.lookup(target@) is Some,
        evidence is None || tool.caller_alias@.len() == 0 || !comparable(
            config,
            tool.caller_alias@,
        ) || !comparable(config, target@),
    ensures
        text::occurs_in(
            " uses risk profile "@ + text::debug_text(
                text::trimmed(config.agents.lookup(target@)->0.risk_profile@),
            ),
            reason@,
        ),
        text::occurs_in(
            ", but delegation requires the same risk profile as the caller ("@ + text::debug_text(
                tool.security.risk_profile_name@,
            ),
            reason@,
        ),
{
    lemma_labels(
        "delegate target "@ + text::debug_text(target@),
        " uses risk profile "@,
        text::debug_text(text::trimmed(config.agents.lookup(target@)->0.risk_profile@)),
        ", but delegation requires the same risk profile as the caller ("@,
        text::debug_text(tool.security.risk_profile_name@),
        "), or a target whose profile is no broader"@,
    );
}

/// A target whose grants exceed the caller's is refused with both profiles and with
/// how it exceeds them.
pub proof fn escalation_is_named(
    tool: DelegateTool,
    config: Config,
    target: &str,
    e: GuardEvidence,
    reason: String,
)
    requires
        call_ensures(
            DelegateTool::cross_profile_decision,
            (&tool, &config, target, Some(&e)),
            Err::<(), String>(reason),
        ),
        tool.caller_alias@.len() > 0,
        comparable(config, tool.caller_alias@),
        comparable(config, target@),
        e.escalation is Some,
    ensures
        text::occurs_in(e.escalation->0@, reason@),
        text::occurs_in(
            " (risk profile "@ + text::debug_text(
                text::trimmed(config.agents.lookup(target@)->0.risk_profile@),
            ),
            reason@,
        ),
        text::occurs_in(
            ") would escalate beyond the caller's profile ("@ + text::debug_text(
                tool.security.risk_profile_name@,
            ),
            reason@,
        ),
{
    let p = "delegate target "@ + text::debug_text(target@);
    let a = " (risk profile "@;
    let x = text::debug_text(text::trimmed(config.agents.lookup(target@)->0.risk_profile@));
    let b = ") would escalate beyond the caller's profile ("@;
    let y = text::debug_text(tool.security.risk_profile_name@);
    let c = "): "@;
    let esc = e.escalation->0@;
    let d =
        ". Delegation is narrowing-only — the target's permissions must be no broader than the caller's."@;
    let w = p + a + x + b + y + c;
    lemma_labels(p, a, x, b, y, c);
    lemma_tail(w, esc, d, a + x);
    lemma_tail(w, esc, d, b + y);
    assert(reason@ == w + esc + d);
}

/// A target that runs tools is refused for the first of its faults: for its tools,
/// with what the comparison of tools says; for its approvals or its sandbox, with
/// what that comparison says; for its workspace, with both workspaces; for having no
/// tool of its own, with its profile.
pub proof fn fault_of_a_tool_runner_is_named(
    tool: DelegateTool,
    config: Config,
    target: &str,
    e: GuardEvidence,
    r: Result<(), String>,
    tools: Result<(), String>,
    rules: Result<(), String>,
)
    requires
        call_ensures(
            DelegateTool::cross_profile_decision,
            (&tool, &config, target, Some(&e)),
            r,
        ),
        call_ensures(
            DelegateTool::target_tools_within_caller,
            (&e.caller_grants, &e.target_grants),
            tools,
        ),
        call_ensures(
            DelegateTool::target_approval_sandbox_within_caller,
            (&e.caller_grants, &e.target_grants),
            rules,
        ),
        tool.caller_alias@.len() > 0,
        comparable(config, tool.caller_alias@),
        comparable(config, target@),
        tool.security.risk_profile_name@ != text::trimmed(
            config.agents.lookup(target@)->0.risk_profile@,
        ),
        e.escalation is None,
        runs_tools(config, target@),
    ensures
        tools is Err ==> r is Err && text::occurs_in(
            " would authorize "@ + tools->Err_0@,
            r->Err_0@,
        ),
        tools is Ok && rules is Err ==> r is Err && text::occurs_in(rules->Err_0@, r->Err_0@),
        tools is Err || rules is Err ==> text::occurs_in(
            ", which the caller's profile ("@ + text::debug_text(
                tool.security.risk_profile_name@,
            ),
            r->Err_0@,
        ),
        ({
            let own = confined_to(config, tool.caller_alias@, e.caller_canonical);
            let theirs = confined_to(config, target@, e.target_canonical);
            tools is Ok && rules is Ok && e.target_grants.workspace_only && paths::starts_with(
                own,
                theirs,
            ) && !paths::starts_with(theirs, own) ==> {
                &&& r is Err
                &&& text::occurs_in(
                    " is agentic and its own workspace "@ + text::debug_path_text(
                        config.workspace_of(target@),
                    ) + " (resolves to "@ + text::debug_path_text(theirs),
                    r->Err_0@,
                )
                &&& text::occurs_in(
                    ") contains (is broader than) the caller's workspace "@
                        + text::debug_path_text(config.workspace_of(tool.caller_alias@))
                        + " (resolves to "@ + text::debug_path_text(own),
                    r->Err_0@,
                )
            }
        }),
        tools is Ok && rules is Ok && r is Err && !e.target_grants.workspace_only
            ==> text::occurs_in(
            " is agentic on a different risk profile ("@ + text::debug_text(
                text::trimmed(config.agents.lookup(target@)->0.risk_profile@),
            ),
            r->Err_0@,
        ),
{
    let p = "delegate target "@ + text::debug_text(target@);
    let cp = text::debug_text(tool.security.risk_profile_name@);
    let b = ", which the caller's profile ("@;
    if tools is Err {
        let t = tools->Err_0@;
        lemma_labels(
            p,
            " would authorize "@,
            t,
            b,
            cp,
            ") does not permit — delegation is narrowing-only."@,
        );
    } else if rules is Err {
        let t = rules->Err_0@;
        let c = ") enforces — delegation is narrowing-only."@;
        lemma_labels(p, " "@, t, b, cp, c);
        let w = p + " "@ + t + b + cp + c;
        texts::stands_within(p + " "@, t, b + cp + c);
        assert(w =~= (p + " "@) + t + (b + cp + c));
    } else {
        let own = confined_to(config, tool.caller_alias@, e.caller_canonical);
        let theirs = confined_to(config, target@, e.target_canonical);
        let tp = text::debug_text(text::trimmed(config.agents.lookup(target@)->0.risk_profile@));
        lemma_profile(
            p,
            " is agentic on a different risk profile ("@,
            tp,
            ") but declares no explicit non-`delegate` allowed_tools; cross-profile agentic delegation requires an explicit tool allowlist so the sub-agent registry can be rebuilt minimally under the target's own policy."@,
        );
        let tw = text::debug_path_text(config.workspace_of(target@));
        let cw = text::debug_path_text(config.workspace_of(tool.caller_alias@));
        lemma_workspaces(
            p,
            " is agentic and its own workspace "@,
            tw,
            " (resolves to "@,
            text::debug_path_text(theirs),
            ") contains (is broader than) the caller's workspace "@,
            cw,
            text::debug_path_text(own),
            "); its filesystem-capable tools would reach a superset of the caller's region. Delegation is narrowing-only."@,
        );
    }
}

proof fn lemma_profile(p: Seq<char>, a: Seq<char>, x: Seq<char>, d: Seq<char>)
    ensures
        text::occurs_in(a + x, p + a + x + d),
{
    assert(p + a + x + d =~= p + (a + x) + d);
    texts::stands_within(p, a + x, d);
}

proof fn lemma_workspaces(
    p: Seq<char>,
    a: Seq<char>,
    tw: Seq<char>,
    m: Seq<char>,
    tj: Seq<char>,
    b: Seq<char>,
    cw: Seq<char>,
    cj: Seq<char>,
    d: Seq<char>,
)
    ensures
        text::occurs_in(a + tw + m + tj, p + a + tw + m + tj + b + cw + m + cj + d),
        text::occurs_in(b + cw + m + cj, p + a + tw + m + tj + b + cw + m + cj + d),
{
    let w = p + a + tw + m + tj;
    assert(w =~= p + (a + tw + m + tj));
    let whole = w + b + cw + m + cj + d;
    assert(whole =~= w + (b + cw + m + cj) + d);
    texts::stands_within(w, b + cw + m + cj, d);
    assert(whole =~= p + (a + tw + m + tj) + (b + cw + m + cj + d));
    texts::stands_within(p, a + tw + m + tj, b + cw + m + cj + d);
}

/// A caller that may not delegate is told on which profile to allow it.
pub proof fn forbidden_caller_is_told_where(
    tool: DelegateTool,
    target: &str,
    own: SecurityPolicy,
    evidence: Option<&GuardEvidence>,
    r: Result<Arc<SecurityPolicy>, String>,
)
    requires
        call_ensures(DelegateTool::policy_for_target, (&tool, target, Ok(own), evidence), r),
        tool.root_config is Some,
        tool.security.delegation_policy.mode == DelegationMode::Forbidden,
    ensures
        r is Err,
        text::occurs_in(
            "[risk_profiles."@ + tool.security.risk_profile_name@ + "].delegation_policy"@,
            r->Err_0@,
        ),
{
    reveal_strlit("[risk_profiles.");
    reveal_strlit("].delegation_policy");
    reveal_strlit(
        "delegation is forbidden by the caller's delegation_policy; set [risk_profiles.",
    );
    reveal_strlit("].delegation_policy mode = \"allow\"");
    let a = "delegation is forbidden by the caller's delegation_policy; set [risk_profiles."@;
    let n = tool.security.risk_profile_name@;
    let label = "[risk_profiles."@ + n + "].delegation_policy"@;
    let at = a.len() - 15int;
    assert(r->Err_0@.subrange(at, at + label.len()) =~= label);
}

/// A target whose policy cannot be resolved is named, with the reason.
pub proof fn unresolved_target_is_named(
    tool: DelegateTool,
    target: &str,
    e: String,
    evidence: Option<&GuardEvidence>,
    r: Result<Arc<SecurityPolicy>, String>,
)
    requires
        call_ensures(
            DelegateTool::policy_for_target,
            (&tool, target, Err::<SecurityPolicy, String>(e), evidence),
            r,
        ),
        tool.root_config is Some,
    ensures
        r is Err,
        text::occurs_in(text::debug_text(target@) + ": "@ + e@, r->Err_0@),
{
    lemma_behind(
        "could not resolve security policy for delegate target "@,
        text::debug_text(target@),
        ": "@,
        e@,
    );
}

proof fn lemma_behind(a: Seq<char>, b: Seq<char>, c: Seq<char>, d: Seq<char>)
    ensures
        text::occurs_in(b + c + d, a + b + c + d),
{
    let part = b + c + d;
    let whole = a + b + c + d;
    let at = a.len() as int;
    assert(whole =~= a + part);
    assert((a + part).subrange(at, at + part.len()) =~= part);
}

/// The grants of an agent are worked out from its risk profile and its runtime
/// profile, in this order and without the whitespace round their names, on a
/// workspace that is the same for every agent; nothing that these say of tools,
/// approvals or the sandbox is changed before the agent's equipment is added. An
/// agent that is not configured, or whose risk profile is not, has none.
pub proof fn grants_come_from_the_profiles<R, B, P, X, C>(
    steps: GuardSteps<R, B, P, X, C>,
    config: Config,
    alias: &str,
    r: Option<SecurityPolicy>,
) where
    R: Fn(&Config, &str) -> Result<SecurityPolicy, String>,
    B: Fn(&Config, &str, &str, &str) -> SecurityPolicy,
    P: Fn(&Config, &str, SecurityPolicy) -> SecurityPolicy,
    X: Fn(&SecurityPolicy, &SecurityPolicy) -> Option<String>,
    C: Fn(&str) -> Option<String>,

    requires
        call_ensures(
            GuardSteps::<R, B, P, X, C>::agent_grants,
            (&steps, &config, alias),
            r,
        ),
    ensures
        r is Some <==> comparable(config, alias@),
        r matches Some(grants) ==> worked_out(steps, config, alias@, grants),
{
    if let Some(grants) = r {
        lemma_worked_out(steps, config, alias@, grants);
    }
}

/// Whether grants are those that an agent's profiles give, with its siblings and its
/// equipment.
pub open spec fn worked_out<R, B, P, X, C>(
    steps: GuardSteps<R, B, P, X, C>,
    config: Config,
    alias: Seq<char>,
    grants: SecurityPolicy,
) -> bool where
    R: Fn(&Config, &str) -> Result<SecurityPolicy, String>,
    B: Fn(&Config, &str, &str, &str) -> SecurityPolicy,
    P: Fn(&Config, &str, SecurityPolicy) -> SecurityPolicy,
    X: Fn(&SecurityPolicy, &SecurityPolicy) -> Option<String>,
    C: Fn(&str) -> Option<String>,
 {
    exists|
        risk: &str,
        runtime: &str,
        workspace: &str,
        start: SecurityPolicy,
        name: &str,
        merged: SecurityPolicy,
    |
        {
            &&& risk@ == text::trimmed(config.agents.lookup(alias)->0.risk_profile@)
            &&& runtime@ == text::trimmed(config.agents.lookup(alias)->0.runtime_profile@)
            &&& workspace@ == "/__zc_delegate_grant_cmp__"@
            &&& #[trigger] call_ensures(steps.base, (&config, risk, runtime, workspace), start)
            &&& merged == (SecurityPolicy {
                risk_profile_name: merged.risk_profile_name,
                allowed_roots: merged.allowed_roots,
                allowed_roots_read_only: merged.allowed_roots_read_only,
                allowed_roots_write_only: merged.allowed_roots_write_only,
                workspace_only: merged.workspace_only,
                ..start
            })
            &&& merged.risk_profile_name@ == risk@
            &&& merged.workspace_only ==> start.workspace_only
            &&& name@ == alias
            &&& #[trigger] call_ensures(steps.equip, (&config, name, merged), grants)
        }
}

proof fn lemma_worked_out<R, B, P, X, C>(
    steps: GuardSteps<R, B, P, X, C>,
    config: Config,
    alias: Seq<char>,
    grants: SecurityPolicy,
) where
    R: Fn(&Config, &str) -> Result<SecurityPolicy, String>,
    B: Fn(&Config, &str, &str, &str) -> SecurityPolicy,
    P: Fn(&Config, &str, SecurityPolicy) -> SecurityPolicy,
    X: Fn(&SecurityPolicy, &SecurityPolicy) -> Option<String>,
    C: Fn(&str) -> Option<String>,

    requires
        steps.are_grants(config, alias, grants),
    ensures
        worked_out(steps, config, alias, grants),
{
    let (start, merged) = choose|start: SecurityPolicy, merged: SecurityPolicy|
        {
            &&& steps.is_base(config, alias, start)
            &&& #[trigger] guard::grants_from(
                config,
                config.agents.lookup(alias)->0,
                start,
                merged,
            )
            &&& steps.is_equipped(config, alias, merged, grants)
        };
    let agent = config.agents.lookup(alias)->0;
    let (risk, runtime, workspace) = choose|risk: &str, runtime: &str, workspace: &str|
        {
            &&& risk@ == text::trimmed(agent.risk_profile@)
            &&& runtime@ == text::trimmed(agent.runtime_profile@)
            &&& workspace@ == guard::GRANT_CMP_WORKSPACE@
            &&& #[trigger] call_ensures(steps.base, (&config, risk, runtime, workspace), start)
        };
    let name = choose|name: &str|
        name@ == alias && #[trigger] call_ensures(steps.equip, (&config, name, merged), grants);
    assert(call_ensures(steps.base, (&config, risk, runtime, workspace), start));
    assert(call_ensures(steps.equip, (&config, name, merged), grants));
}

/// There is evidence about a target exactly when the caller and the target can be
/// compared; it holds the grants of each, and how the target's exceed the caller's.
pub proof fn evidence_is_of_caller_and_target<R, B, P, X, C>(
    steps: GuardSteps<R, B, P, X, C>,
    tool: DelegateTool,
    config: Config,
    target: &str,
    r: Option<GuardEvidence>,
) where
    R: Fn(&Config, &str) -> Result<SecurityPolicy, String>,
    B: Fn(&Config, &str, &str, &str) -> SecurityPolicy,
    P: Fn(&Config, &str, SecurityPolicy) -> SecurityPolicy,
    X: Fn(&SecurityPolicy, &SecurityPolicy) -> Option<String>,
    C: Fn(&str) -> Option<String>,

    requires
        call_ensures(
            GuardSteps::<R, B, P, X, C>::gather_evidence,
            (&steps, &tool, &config, target),
            r,
        ),
    ensures
        r is Some <==> comparable(config, tool.caller_alias@) && comparable(config, target@),
        r matches Some(e) ==> {
            &&& worked_out(steps, config, tool.caller_alias@, e.caller_grants)
            &&& worked_out(steps, config, target@, e.target_grants)
            &&& call_ensures(
                steps.compare,
                (&e.target_grants, &e.caller_grants),
                e.escalation,
            )
            &&& exists|dir: &str|
                dir@ == config.workspace_of(tool.caller_alias@) && #[trigger] call_ensures(
                    steps.canonical,
                    (dir,),
                    e.caller_canonical,
                )
            &&& exists|dir: &str|
                dir@ == config.workspace_of(target@) && #[trigger] call_ensures(
                    steps.canonical,
                    (dir,),
                    e.target_canonical,
                )
        },
{
    if let Some(e) = r {
        lemma_worked_out(steps, config, tool.caller_alias@, e.caller_grants);
        lemma_worked_out(steps, config, target@, e.target_grants);
    }
}

/// Evidence is gathered about every agent that can be compared with the caller, and
/// about no other.
pub proof fn evidence_covers_every_agent<R, B, P, X, C>(
    steps: GuardSteps<R, B, P, X, C>,
    tool: DelegateTool,
    config: Config,
    r: AliasTable<GuardEvidence>,
    name: Seq<char>,
) where
    R: Fn(&Config, &str) -> Result<SecurityPolicy, String>,
    B: Fn(&Config, &str, &str, &str) -> SecurityPolicy,
    P: Fn(&Config, &str, SecurityPolicy) -> SecurityPolicy,
    X: Fn(&SecurityPolicy, &SecurityPolicy) -> Option<String>,
    C: Fn(&str) -> Option<String>,

    requires
        call_ensures(
            GuardSteps::<R, B, P, X, C>::gather_all_evidence,
            (&steps, &tool, &config),
            r,
        ),
    ensures
        r.lookup(name) is Some <==> {
            &&& tool.agents.lookup(name) is Some
            &&& comparable(config, tool.caller_alias@)
            &&& comparable(config, name)
        },
        r.lookup(name) matches Some(e) ==> {
            &&& worked_out(steps, config, tool.caller_alias@, e.caller_grants)
            &&& worked_out(steps, config, name, e.target_grants)
            &&& call_ensures(
                steps.compare,
                (&e.target_grants, &e.caller_grants),
                e.escalation,
            )
        },
{
    let found = r.lookup(name);
    if tool.agents.keys().contains(name) {
        assert(steps.is_evidence(config, tool.caller_alias@, name, found));
        if let Some(e) = found {
            lemma_worked_out(steps, config, tool.caller_alias@, e.caller_grants);
            lemma_worked_out(steps, config, name, e.target_grants);
        }
    } else {
        assert(r.lookup(name) is None);
    }
}

/// Without a configuration a target is run under the caller's policy. With one it
/// gets what the tool decides on the policy that the target's name resolves to and
/// on the evidence about the two.
pub proof fn judgement_is_that_of_the_tool<R, B, P, X, C>(
    steps: GuardSteps<R, B, P, X, C>,
    tool: DelegateTool,
    target: &str,
    r: Result<Arc<SecurityPolicy>, String>,
) where
    R: Fn(&Config, &str) -> Result<SecurityPolicy, String>,
    B: Fn(&Config, &str, &str, &str) -> SecurityPolicy,
    P: Fn(&Config, &str, SecurityPolicy) -> SecurityPolicy,
    X: Fn(&SecurityPolicy, &SecurityPolicy) -> Option<String>,
    C: Fn(&str) -> Option<String>,

    requires
        call_ensures(GuardSteps::<R, B, P, X, C>::judge_target, (&steps, &tool, target), r),
    ensures
        tool.root_config is None ==> r == Ok::<Arc<SecurityPolicy>, String>(tool.security),
        tool.root_config is Some && tool.security.delegation_policy.mode
            == DelegationMode::Forbidden ==> r is Err,
        tool.root_config matches Some(config) ==> (r is Ok ==> {
            &&& config.agents.lookup(target@) is Some
            &&& tool.security.risk_profile_name@ != text::trimmed(
                config.agents.lookup(target@)->0.risk_profile@,
            ) ==> {
                &&& tool.caller_alias@.len() > 0
                &&& comparable(*config, tool.caller_alias@)
                &&& comparable(*config, target@)
                &&& runs_tools(*config, target@) ==> names_a_tool(
                    config.risk_profiles.lookup(
                        text::trimmed(config.agents.lookup(target@)->0.risk_profile@),
                    )->0.allowed_tools,
                )
            }
        }),
{
    if let Some(config) = tool.root_config {
        let (resolved, evidence) = choose|
            resolved: Result<SecurityPolicy, String>,
            evidence: Option<GuardEvidence>,
        |
            {
                &&& steps.is_resolved(*config, target@, resolved)
                &&& steps.is_evidence(*config, tool.caller_alias@, target@, evidence)
                &&& #[trigger] guard::policy_outcome(
                    tool,
                    target@,
                    resolved,
                    crate::evidence::borrowed(&evidence),
                    r,
                )
            };
        if r is Ok && config.agents.lookup(target@) is Some {
            let profile = text::trimmed(config.agents.lookup(target@)->0.risk_profile@);
            if let Some(risk) = config.risk_profiles.lookup(profile) {
                crate::laws::policies::lemma_names_a_tool(risk.allowed_tools);
            }
        }
    }
}

} // verus!
