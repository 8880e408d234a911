//! The narrowing-only guard: an agent may delegate to an agent on its own risk
//! profile, or to one whose grants are no broader than its own.

use std::sync::Arc;

use vstd::prelude::*;

use crate::delegate::DelegateTool;
use crate::paths;
use crate::policy::SecurityPolicy;
use crate::schema::{AccessMode, AliasedAgentConfig, Config};
use crate::table::AliasTable;
use crate::text;

verus! {

/// The workspace on which the profiles of both agents are resolved before their
/// grants are compared. With one base for both, that each agent has a workspace
/// of its own never reads as a difference.
pub const GRANT_CMP_WORKSPACE: &'static str = "/__zc_delegate_grant_cmp__";

/// What the guard has to know about a target on another risk profile.
pub struct GuardEvidence {
    /// Grants of the calling agent, on the shared base workspace.
    pub caller_grants: SecurityPolicy,
    /// Grants of the target, on the shared base workspace.
    pub target_grants: SecurityPolicy,
    /// How the target's grants exceed the caller's, if they do.
    pub escalation: Option<String>,
    /// Canonical form of the caller's workspace, where it exists on disk.
    pub caller_canonical: Option<String>,
    /// Canonical form of the target's workspace, where it exists on disk.
    pub target_canonical: Option<String>,
}

/// The workspace directories of the siblings that the first `n` access entries
/// open in a mode.
pub open spec fn opened_dirs(
    config: Config,
    access: AliasTable<AccessMode>,
    n: int,
    mode: AccessMode,
) -> Seq<Seq<char>>
    decreases n,
{
    if n <= 0 {
        seq![]
    } else {
        let before = opened_dirs(config, access, n - 1, mode);
        if access.value_at(n - 1) == mode {
            before.push(config.workspace_of(access.keys()[n - 1]))
        } else {
            before
        }
    }
}

/// Whether the grants of an agent can be worked out: the agent and its risk
/// profile are configured.
pub open spec fn has_grants(config: Config, alias: Seq<char>) -> bool {
    match config.agents.lookup(alias) {
        Some(agent) => config.risk_profiles.lookup(text::trimmed(agent.risk_profile@)) is Some,
        None => false,
    }
}

/// Whether `grants` is `base` with the name of the agent's risk profile, the
/// sibling workspaces that the agent may use added to the roots, and file
/// access set free where the agent is unrestricted.
pub open spec fn grants_from(
    config: Config,
    agent: AliasedAgentConfig,
    base: SecurityPolicy,
    grants: SecurityPolicy,
) -> bool {
    let access = agent.workspace.access;
    let n = access.keys().len() as int;
    &&& grants.risk_profile_name@ == text::trimmed(agent.risk_profile@)
    &&& grants.allowed_roots.deep_view() == base.allowed_roots.deep_view() + opened_dirs(
        config,
        access,
        n,
        AccessMode::ReadWrite,
    )
    &&& grants.allowed_roots_read_only.deep_view() == base.allowed_roots_read_only.deep_view()
        + opened_dirs(config, access, n, AccessMode::Read)
    &&& grants.allowed_roots_write_only.deep_view() == base.allowed_roots_write_only.deep_view()
        + opened_dirs(config, access, n, AccessMode::Write)
    &&& grants.workspace_only == (base.workspace_only && !agent.workspace.unrestricted_filesystem)
    &&& grants == (SecurityPolicy {
        risk_profile_name: grants.risk_profile_name,
        allowed_roots: grants.allowed_roots,
        allowed_roots_read_only: grants.allowed_roots_read_only,
        allowed_roots_write_only: grants.allowed_roots_write_only,
        workspace_only: grants.workspace_only,
        ..base
    })
}

/// The directory that file tools are confined to: the canonical form of a
/// workspace where it exists on disk, else its literal path.
pub open spec fn jail_of(workspace: Seq<char>, canonical: Option<Seq<char>>) -> Seq<char> {
    match canonical {
        Some(path) => path,
        None => workspace,
    }
}

/// The tools of a list that a rebuilt registry may hold: trimmed, without blank
/// entries and without `delegate`.
pub open spec fn rebuild_list(tools: Seq<Seq<char>>) -> Seq<Seq<char>>
    decreases tools.len(),
{
    if tools.len() == 0 {
        seq![]
    } else {
        let before = rebuild_list(tools.drop_last());
        let name = text::trimmed(tools.last());
        if name.len() == 0 || name == "delegate"@ {
            before
        } else {
            before.push(name)
        }
    }
}

/// How the target may use a tool that the caller may not, if it may.
pub open spec fn tool_overreach(caller: SecurityPolicy, target: SecurityPolicy) -> Option<
    Seq<char>,
> {
    match (caller.allowed_tools, target.allowed_tools) {
        (Some(_), None) => Some(
            "every tool (the target has no allowed_tools allowlist while the caller restricts to one)"@,
        ),
        (_, Some(allowed)) => match text::first_match(
            allowed.deep_view(),
            |tool: Seq<char>| target.may_use(tool) && !caller.may_use(tool),
        ) {
            Some(tool) => Some("tool "@ + text::debug_text(tool)),
            None => None,
        },
        (None, None) => match caller.excluded_tools {
            Some(excluded) => match text::first_match(
                excluded.deep_view(),
                |tool: Seq<char>| target.may_use(tool),
            ) {
                Some(tool) => Some(
                    "tool "@ + text::debug_text(tool) + " (which the caller excludes)"@,
                ),
                None => None,
            },
            None => None,
        },
    }
}

/// How the target skips an approval or a sandbox that the caller has, if it
/// does.
pub open spec fn relaxation(caller: SecurityPolicy, target: SecurityPolicy) -> Option<Seq<char>> {
    let approved = text::first_match(
        target.auto_approve.deep_view(),
        |tool: Seq<char>| !caller.auto_approves(tool),
    );
    let dropped = text::first_match(
        caller.always_ask.deep_view(),
        |tool: Seq<char>| !target.always_asks(tool),
    );
    if approved is Some {
        Some(
            "auto-approves "@ + text::debug_text(approved->0)
                + ", bypassing an approval prompt the caller requires"@,
        )
    } else if dropped is Some {
        Some(
            "drops the always-ask approval the caller requires for "@ + text::debug_text(
                dropped->0,
            ),
        )
    } else if caller.sandboxed() && !target.sandboxed() {
        Some(
            "runs unsandboxed where the caller runs sandboxed (sandbox_enabled / sandbox_backend)"@,
        )
    } else if caller.sandboxed() && caller.backend() != target.backend() {
        Some(
            "uses sandbox backend "@ + text::debug_text(target.backend())
                + " where the caller uses "@ + text::debug_text(caller.backend())
                + " (a different backend is not provably narrower)"@,
        )
    } else {
        None
    }
}

impl DelegateTool {
    /// The grants of an agent for the comparison with another agent's, from the
    /// policy `base` that its profiles give on the shared base workspace. None
    /// when the agent or its risk profile is not configured.
    pub fn profile_grants(config: &Config, alias: &str, base: SecurityPolicy) -> (r: Option<
        SecurityPolicy,
    >)
        ensures
            match r {
                Some(grants) => has_grants(*config, alias@) && grants_from(
                    *config,
                    config.agents.lookup(alias@)->0,
                    base,
                    grants,
                ),
                None => !has_grants(*config, alias@),
            },
    {
        let agent = match config.agents.get(alias) {
            Some(agent) => agent,
            None => {
                return None;
            },
        };
        let profile = text::trim(&agent.risk_profile);
        if config.risk_profiles.get(profile).is_none() {
            return None;
        }
        let mut policy = base;
        policy.risk_profile_name = profile.to_owned();
        let access = &agent.workspace.access;
        let n: usize = access.len();
        let mut roots = policy.allowed_roots;
        let mut read_only = policy.allowed_roots_read_only;
        let mut write_only = policy.allowed_roots_write_only;
        let mut i: usize = 0;
        assert(roots.deep_view() =~= base.allowed_roots.deep_view() + opened_dirs(
            *config,
            *access,
            0,
            AccessMode::ReadWrite,
        ));
        assert(read_only.deep_view() =~= base.allowed_roots_read_only.deep_view() + opened_dirs(
            *config,
            *access,
            0,
            AccessMode::Read,
        ));
        assert(write_only.deep_view() =~= base.allowed_roots_write_only.deep_view() + opened_dirs(
            *config,
            *access,
            0,
            AccessMode::Write,
        ));
        while i < n
            invariant
                i <= n,
                n == access.contents().len(),
                n == access.keys().len(),
                roots.deep_view() == base.allowed_roots.deep_view() + opened_dirs(
                    *config,
                    *access,
                    i as int,
                    AccessMode::ReadWrite,
                ),
                read_only.deep_view() == base.allowed_roots_read_only.deep_view() + opened_dirs(
                    *config,
                    *access,
                    i as int,
                    AccessMode::Read,
                ),
                write_only.deep_view() == base.allowed_roots_write_only.deep_view() + opened_dirs(
                    *config,
                    *access,
                    i as int,
                    AccessMode::Write,
                ),
            decreases n - i,
        {
            let sibling = config.agent_workspace_dir(access.key_at(i));
            let ghost dir = sibling@;
            let ghost (r0, o0, w0) = (
                roots.deep_view(),
                read_only.deep_view(),
                write_only.deep_view(),
            );
            match *access.at(i) {
                AccessMode::Read => {
                    read_only.push(sibling);
                    assert(read_only.deep_view() =~= o0.push(dir));
                    assert(read_only.deep_view() =~= base.allowed_roots_read_only.deep_view()
                        + opened_dirs(*config, *access, i + 1, AccessMode::Read));
                },
                AccessMode::Write => {
                    write_only.push(sibling);
                    assert(write_only.deep_view() =~= w0.push(dir));
                    assert(write_only.deep_view() =~= base.allowed_roots_write_only.deep_view()
                        + opened_dirs(*config, *access, i + 1, AccessMode::Write));
                },
                AccessMode::ReadWrite => {
                    roots.push(sibling);
                    assert(roots.deep_view() =~= r0.push(dir));
                    assert(roots.deep_view() =~= base.allowed_roots.deep_view() + opened_dirs(
                        *config,
                        *access,
                        i + 1,
                        AccessMode::ReadWrite,
                    ));
                },
            }
            i += 1;
        }
        policy.allowed_roots = roots;
        policy.allowed_roots_read_only = read_only;
        policy.allowed_roots_write_only = write_only;
        if agent.workspace.unrestricted_filesystem {
            policy.workspace_only = false;
        }
        Some(policy)
    }

    /// The directory that file tools are confined to.
    pub fn workspace_jail(workspace: &str, canonical: &Option<String>) -> (r: String)
        ensures
            r@ == jail_of(workspace@, text::optional(*canonical)),
    {
        match canonical {
            Some(path) => path.clone(),
            None => workspace.to_owned(),
        }
    }

    /// The tools of a list that a rebuilt registry may hold.
    pub fn agentic_rebuild_allowlist(allowed_tools: &Vec<String>) -> (r: Vec<String>)
        ensures
            r.deep_view() == rebuild_list(allowed_tools.deep_view()),
    {
        let ghost all = allowed_tools.deep_view();
        let mut out: Vec<String> = Vec::new();
        let mut i: usize = 0;
        assert(out.deep_view() =~= rebuild_list(all.take(0)));
        while i < allowed_tools.len()
            invariant
                i <= allowed_tools.len(),
                all == allowed_tools.deep_view(),
                out.deep_view() == rebuild_list(all.take(i as int)),
            decreases allowed_tools.len() - i,
        {
            let name = text::trim(&allowed_tools[i]);
            let ghost next = all.take(i + 1);
            let ghost before = out.deep_view();
            assert(next.drop_last() =~= all.take(i as int));
            assert(next.last() == allowed_tools[i as int]@);
            if name.unicode_len() == 0 || text::same_text(name, "delegate") {
            } else {
                out.push(name.to_owned());
                assert(out.deep_view() =~= before.push(name@));
            }
            i += 1;
        }
        assert(all.take(all.len() as int) =~= all);
        out
    }

    /// Refuses a target that may use a tool that the caller may not, saying
    /// which.
    pub fn target_tools_within_caller(caller: &SecurityPolicy, target: &SecurityPolicy) -> (r:
        Result<(), String>)
        ensures
            match r {
                Ok(()) => tool_overreach(*caller, *target) is None,
                Err(tool) => tool_overreach(*caller, *target) == Some(tool@),
            },
    {
        match (&caller.allowed_tools, &target.allowed_tools) {
            (Some(_), None) => Err(
                "every tool (the target has no allowed_tools allowlist while the caller restricts to one)".to_owned(),
            ),
            (_, Some(allowed)) => {
                let ghost all = allowed.deep_view();
                let ghost bad = |tool: Seq<char>| target.may_use(tool) && !caller.may_use(tool);
                let mut i: usize = 0;
                while i < allowed.len()
                    invariant
                        i <= allowed.len(),
                        all == allowed.deep_view(),
                        target.allowed_tools == Some(*allowed),
                        bad == (|tool: Seq<char>| target.may_use(tool) && !caller.may_use(tool)),
                        forall|k: int| 0 <= k < i ==> !bad(#[trigger] all[k]),
                    decreases allowed.len() - i,
                {
                    let name = &allowed[i];
                    assert(all[i as int] == name@);
                    if target.is_tool_allowed(name) && !caller.is_tool_allowed(name) {
                        proof {
                            text::first_match_is(all, bad, i as int);
                        }
                        let mut out = "tool ".to_owned();
                        let shown = text::quoted(name);
                        out.append(&shown);
                        return Err(out);
                    }
                    i += 1;
                }
                proof {
                    text::first_match_is(all, bad, all.len() as int);
                }
                Ok(())
            },
            (None, None) => {
                if let Some(excluded) = &caller.excluded_tools {
                    let ghost all = excluded.deep_view();
                    let ghost bad = |tool: Seq<char>| target.may_use(tool);
                    let mut i: usize = 0;
                    while i < excluded.len()
                        invariant
                            i <= excluded.len(),
                            all == excluded.deep_view(),
                            caller.allowed_tools is None,
                            target.allowed_tools is None,
                            caller.excluded_tools == Some(*excluded),
                            bad == (|tool: Seq<char>| target.may_use(tool)),
                            forall|k: int| 0 <= k < i ==> !bad(#[trigger] all[k]),
                        decreases excluded.len() - i,
                    {
                        let name = &excluded[i];
                        assert(all[i as int] == name@);
                        if target.is_tool_allowed(name) {
                            proof {
                                text::first_match_is(all, bad, i as int);
                            }
                            let mut out = "tool ".to_owned();
                            let shown = text::quoted(name);
                            out.append(&shown);
                            out.append(" (which the caller excludes)");
                            return Err(out);
                        }
                        i += 1;
                    }
                    proof {
                        text::first_match_is(all, bad, all.len() as int);
                    }
                }
                Ok(())
            },
        }
    }

    /// The normalised sandbox backend of a policy.
    pub fn resolved_sandbox_backend(policy: &SecurityPolicy) -> (r: &'static str)
        ensures
            r@ == policy.backend(),
    {
        match &policy.sandbox_backend {
            None => "auto",
            Some(raw) => {
                let name = text::to_lower(text::trim(raw));
                if text::same_text(&name, "landlock") {
                    "landlock"
                } else if text::same_text(&name, "firejail") {
                    "firejail"
                } else if text::same_text(&name, "bubblewrap") {
                    "bubblewrap"
                } else if text::same_text(&name, "docker") {
                    "docker"
                } else if text::same_text(&name, "sandbox-exec") || text::same_text(
                    &name,
                    "sandboxexec",
                ) || text::same_text(&name, "seatbelt") {
                    "sandbox-exec"
                } else if text::same_text(&name, "none") {
                    "none"
                } else {
                    "auto"
                }
            },
        }
    }

    /// Whether commands under a policy run in a real sandbox.
    pub fn effectively_sandboxed(policy: &SecurityPolicy) -> (r: bool)
        ensures
            r == policy.sandboxed(),
    {
        let disabled = match policy.sandbox_enabled {
            Some(enabled) => !enabled,
            None => false,
        };
        !text::same_text(Self::resolved_sandbox_backend(policy), "none") && !disabled
    }

    /// Refuses a target that skips an approval or a sandbox that the caller
    /// has, saying how.
    pub fn target_approval_sandbox_within_caller(
        caller: &SecurityPolicy,
        target: &SecurityPolicy,
    ) -> (r: Result<(), String>)
        ensures
            match r {
                Ok(()) => relaxation(*caller, *target) is None,
                Err(reason) => relaxation(*caller, *target) == Some(reason@),
            },
    {
        let ghost approved = target.auto_approve.deep_view();
        let ghost too_free = |tool: Seq<char>| !caller.auto_approves(tool);
        let caller_auto_all = text::listed(&caller.auto_approve, "*");
        let mut i: usize = 0;
        while i < target.auto_approve.len()
            invariant
                i <= target.auto_approve.len(),
                approved == target.auto_approve.deep_view(),
                too_free == (|tool: Seq<char>| !caller.auto_approves(tool)),
                caller_auto_all == caller.auto_approve.deep_view().contains("*"@),
                forall|k: int| 0 <= k < i ==> !too_free(#[trigger] approved[k]),
            decreases target.auto_approve.len() - i,
        {
            let tool = &target.auto_approve[i];
            assert(approved[i as int] == tool@);
            if !caller_auto_all && !text::listed(&caller.auto_approve, tool) {
                proof {
                    text::first_match_is(approved, too_free, i as int);
                }
                let mut out = "auto-approves ".to_owned();
                let shown = text::quoted(tool);
                out.append(&shown);
                out.append(", bypassing an approval prompt the caller requires");
                return Err(out);
            }
            i += 1;
        }
        proof {
            text::first_match_is(approved, too_free, approved.len() as int);
        }
        let ghost asked = caller.always_ask.deep_view();
        let ghost dropped = |tool: Seq<char>| !target.always_asks(tool);
        let target_ask_all = text::listed(&target.always_ask, "*");
        let mut j: usize = 0;
        while j < caller.always_ask.len()
            invariant
                j <= caller.always_ask.len(),
                asked == caller.always_ask.deep_view(),
                dropped == (|tool: Seq<char>| !target.always_asks(tool)),
                target_ask_all == target.always_ask.deep_view().contains("*"@),
                forall|k: int| 0 <= k < j ==> !dropped(#[trigger] asked[k]),
                text::first_match(
                    target.auto_approve.deep_view(),
                    |tool: Seq<char>| !caller.auto_approves(tool),
                ) is None,
            decreases caller.always_ask.len() - j,
        {
            let tool = &caller.always_ask[j];
            assert(asked[j as int] == tool@);
            if !target_ask_all && !text::listed(&target.always_ask, tool) {
                proof {
                    text::first_match_is(asked, dropped, j as int);
                }
                let mut out = "drops the always-ask approval the caller requires for ".to_owned();
                let shown = text::quoted(tool);
                out.append(&shown);
                return Err(out);
            }
            j += 1;
        }
        proof {
            text::first_match_is(asked, dropped, asked.len() as int);
        }
        if Self::effectively_sandboxed(caller) {
            if !Self::effectively_sandboxed(target) {
                return Err(
                    "runs unsandboxed where the caller runs sandboxed (sandbox_enabled / sandbox_backend)".to_owned(),
                );
            }
            let caller_backend = Self::resolved_sandbox_backend(caller);
            let target_backend = Self::resolved_sandbox_backend(target);
            if !text::same_text(caller_backend, target_backend) {
                let mut out = "uses sandbox backend ".to_owned();
                let shown = text::quoted(target_backend);
                out.append(&shown);
                out.append(" where the caller uses ");
                let other = text::quoted(caller_backend);
                out.append(&other);
                out.append(" (a different backend is not provably narrower)");
                return Err(out);
            }
        }
        Ok(())
    }
}

/// Whether the target's runtime profile, as the configuration has it, runs a
/// tool-call loop.
pub open spec fn target_is_agentic(config: Config, target: AliasedAgentConfig) -> bool {
    match config.runtime_profiles.lookup(text::trimmed(target.runtime_profile@)) {
        Some(profile) => profile.agentic,
        None => false,
    }
}

/// The tools that a risk profile of the configuration lists.
pub open spec fn configured_tools(config: Config, profile: Seq<char>) -> Seq<Seq<char>> {
    match config.risk_profiles.lookup(profile) {
        Some(risk) => risk.allowed_tools.deep_view(),
        None => seq![],
    }
}

/// Whether a directory lies above another: it holds the other, and the other
/// does not hold it.
pub open spec fn strictly_above(dir: Seq<char>, other: Seq<char>) -> bool {
    paths::starts_with(other, dir) && !paths::starts_with(dir, other)
}

/// The answer for a target that is not configured.
pub open spec fn unknown_target_text(target: Seq<char>) -> Seq<char> {
    "unknown delegate target "@ + text::debug_text(target)
}

/// The answer for a target on another profile that cannot be compared.
pub open spec fn same_profile_text(
    target: Seq<char>,
    target_profile: Seq<char>,
    caller_profile: Seq<char>,
) -> Seq<char> {
    "delegate target "@ + text::debug_text(target) + " uses risk profile "@ + text::debug_text(
        target_profile,
    ) + ", but delegation requires the same risk profile as the caller ("@ + text::debug_text(
        caller_profile,
    ) + "), or a target whose profile is no broader"@
}

/// The answer for a target whose grants exceed the caller's.
pub open spec fn escalation_text(
    target: Seq<char>,
    target_profile: Seq<char>,
    caller_profile: Seq<char>,
    escalation: Seq<char>,
) -> Seq<char> {
    "delegate target "@ + text::debug_text(target) + " (risk profile "@ + text::debug_text(
        target_profile,
    ) + ") would escalate beyond the caller's profile ("@ + text::debug_text(caller_profile)
        + "): "@ + escalation
        + ". Delegation is narrowing-only — the target's permissions must be no broader than the caller's."@
}

/// The answer for a target that may use a tool that the caller may not.
pub open spec fn tool_text(
    target: Seq<char>,
    tool: Seq<char>,
    caller_profile: Seq<char>,
) -> Seq<char> {
    "delegate target "@ + text::debug_text(target) + " would authorize "@ + tool
        + ", which the caller's profile ("@ + text::debug_text(caller_profile)
        + ") does not permit — delegation is narrowing-only."@
}

/// The answer for a target that skips an approval or a sandbox.
pub open spec fn relaxation_text(
    target: Seq<char>,
    reason: Seq<char>,
    caller_profile: Seq<char>,
) -> Seq<char> {
    "delegate target "@ + text::debug_text(target) + " "@ + reason
        + ", which the caller's profile ("@ + text::debug_text(caller_profile)
        + ") enforces — delegation is narrowing-only."@
}

/// The answer for a target whose workspace holds the caller's.
pub open spec fn workspace_text(
    target: Seq<char>,
    target_ws: Seq<char>,
    target_jail: Seq<char>,
    caller_ws: Seq<char>,
    caller_jail: Seq<char>,
) -> Seq<char> {
    "delegate target "@ + text::debug_text(target) + " is agentic and its own workspace "@
        + text::debug_path_text(target_ws) + " (resolves to "@ + text::debug_path_text(target_jail)
        + ") contains (is broader than) the caller's workspace "@ + text::debug_path_text(caller_ws)
        + " (resolves to "@ + text::debug_path_text(caller_jail)
        + "); its filesystem-capable tools would reach a superset of the caller's region. Delegation is narrowing-only."@
}

/// The answer for a target without tools to rebuild a registry from.
pub open spec fn no_tools_text(target: Seq<char>, target_profile: Seq<char>) -> Seq<char> {
    "delegate target "@ + text::debug_text(target) + " is agentic on a different risk profile ("@
        + text::debug_text(target_profile)
        + ") but declares no explicit non-`delegate` allowed_tools; cross-profile agentic delegation requires an explicit tool allowlist so the sub-agent registry can be rebuilt minimally under the target's own policy."@
}

/// The answer when the caller's policy forbids delegation.
pub open spec fn forbidden_text(caller_profile: Seq<char>) -> Seq<char> {
    "delegation is forbidden by the caller's delegation_policy; set [risk_profiles."@
        + caller_profile + "].delegation_policy mode = \"allow\""@
}

/// The answer when the target's policy cannot be resolved.
pub open spec fn unresolved_text(target: Seq<char>, error: Seq<char>) -> Seq<char> {
    "could not resolve security policy for delegate target "@ + text::debug_text(target) + ": "@
        + error
}

/// Why a target that runs a tool-call loop on another profile is refused, if
/// it is.
pub open spec fn agentic_refusal(
    config: Config,
    caller_alias: Seq<char>,
    caller_profile: Seq<char>,
    target: Seq<char>,
    target_profile: Seq<char>,
    evidence: GuardEvidence,
) -> Option<Seq<char>> {
    let overreach = tool_overreach(evidence.caller_grants, evidence.target_grants);
    let relaxed = relaxation(evidence.caller_grants, evidence.target_grants);
    let caller_ws = config.workspace_of(caller_alias);
    let target_ws = config.workspace_of(target);
    let caller_jail = jail_of(caller_ws, text::optional(evidence.caller_canonical));
    let target_jail = jail_of(target_ws, text::optional(evidence.target_canonical));
    if overreach is Some {
        Some(tool_text(target, overreach->0, caller_profile))
    } else if relaxed is Some {
        Some(relaxation_text(target, relaxed->0, caller_profile))
    } else if evidence.target_grants.workspace_only && strictly_above(target_jail, caller_jail) {
        Some(workspace_text(target, target_ws, target_jail, caller_ws, caller_jail))
    } else if rebuild_list(configured_tools(config, target_profile)).len() == 0 {
        Some(no_tools_text(target, target_profile))
    } else {
        None
    }
}

/// Why a target is refused, if it is.
pub open spec fn refusal(
    config: Config,
    caller_alias: Seq<char>,
    caller_profile: Seq<char>,
    target: Seq<char>,
    evidence: Option<&GuardEvidence>,
) -> Option<Seq<char>> {
    match config.agents.lookup(target) {
        None => Some(unknown_target_text(target)),
        Some(agent) => {
            let target_profile = text::trimmed(agent.risk_profile@);
            if caller_profile == target_profile {
                None
            } else if caller_alias.len() == 0 || !has_grants(config, caller_alias) || !has_grants(
                config,
                target,
            ) || evidence is None {
                Some(same_profile_text(target, target_profile, caller_profile))
            } else if evidence->0.escalation is Some {
                Some(
                    escalation_text(
                        target,
                        target_profile,
                        caller_profile,
                        evidence->0.escalation->0@,
                    ),
                )
            } else if target_is_agentic(config, agent) {
                agentic_refusal(
                    config,
                    caller_alias,
                    caller_profile,
                    target,
                    target_profile,
                    *evidence->0,
                )
            } else {
                None
            }
        },
    }
}

/// Whether the grants of an agent can be worked out.
fn grants_exist(config: &Config, alias: &str) -> (r: bool)
    ensures
        r == has_grants(*config, alias@),
{
    match config.agents.get(alias) {
        Some(agent) => {
            let profile = text::trim(&agent.risk_profile);
            config.risk_profiles.get(profile).is_some()
        },
        None => false,
    }
}

/// The beginning of most answers of the guard.
fn refused_target(target: &str) -> (r: String)
    ensures
        r@ == "delegate target "@ + text::debug_text(target@),
{
    let mut out = "delegate target ".to_owned();
    let shown = text::quoted(target);
    out.append(&shown);
    out
}

/// A text quoted between a prefix and a suffix.
fn with_quoted(prefix: String, quoted: &str, suffix: &str) -> (r: String)
    ensures
        r@ == prefix@ + text::debug_text(quoted@) + suffix@,
{
    let mut out = prefix;
    let shown = text::quoted(quoted);
    out.append(&shown);
    out.append(suffix);
    out
}

impl DelegateTool {
    /// Why the guard refuses a target, if it does.
    pub open spec fn refuses(
        self,
        config: Config,
        target: Seq<char>,
        evidence: Option<&GuardEvidence>,
    ) -> Option<Seq<char>> {
        refusal(
            config,
            self.caller_alias@,
            self.security.risk_profile_name@,
            target,
            evidence,
        )
    }

    /// The part of the guard for a target that runs a tool-call loop on another
    /// profile.
    fn agentic_decision(
        &self,
        config: &Config,
        target_alias: &str,
        target_profile: &str,
        evidence: &GuardEvidence,
    ) -> (r: Result<(), String>)
        ensures
            match r {
                Ok(()) => agentic_refusal(
                    *config,
                    self.caller_alias@,
                    self.security.risk_profile_name@,
                    target_alias@,
                    target_profile@,
                    *evidence,
                ) is None,
                Err(reason) => agentic_refusal(
                    *config,
                    self.caller_alias@,
                    self.security.risk_profile_name@,
                    target_alias@,
                    target_profile@,
                    *evidence,
                ) == Some(reason@),
            },
    {
        let caller_profile = &self.security.risk_profile_name;
        if let Err(tool) = Self::target_tools_within_caller(
            &evidence.caller_grants,
            &evidence.target_grants,
        ) {
            let mut out = refused_target(target_alias);
            out.append(" would authorize ");
            out.append(&tool);
            out.append(", which the caller's profile (");
            return Err(
                with_quoted(
                    out,
                    caller_profile,
                    ") does not permit — delegation is narrowing-only.",
                ),
            );
        }
        if let Err(reason) = Self::target_approval_sandbox_within_caller(
            &evidence.caller_grants,
            &evidence.target_grants,
        ) {
            let mut out = refused_target(target_alias);
            out.append(" ");
            out.append(&reason);
            out.append(", which the caller's profile (");
            return Err(
                with_quoted(out, caller_profile, ") enforces — delegation is narrowing-only."),
            );
        }
        let caller_ws = config.agent_workspace_dir(&self.caller_alias);
        let target_ws = config.agent_workspace_dir(target_alias);
        let caller_jail = Self::workspace_jail(&caller_ws, &evidence.caller_canonical);
        let target_jail = Self::workspace_jail(&target_ws, &evidence.target_canonical);
        if evidence.target_grants.workspace_only && paths::path_starts_with(
            &caller_jail,
            &target_jail,
        ) && !paths::path_starts_with(&target_jail, &caller_jail) {
            let mut out = refused_target(target_alias);
            out.append(" is agentic and its own workspace ");
            let shown_target_ws = text::quoted_path(&target_ws);
            out.append(&shown_target_ws);
            out.append(" (resolves to ");
            let shown_target_jail = text::quoted_path(&target_jail);
            out.append(&shown_target_jail);
            out.append(") contains (is broader than) the caller's workspace ");
            let shown_caller_ws = text::quoted_path(&caller_ws);
            out.append(&shown_caller_ws);
            out.append(" (resolves to ");
            let shown_caller_jail = text::quoted_path(&caller_jail);
            out.append(&shown_caller_jail);
            out.append(
                "); its filesystem-capable tools would reach a superset of the caller's region. Delegation is narrowing-only.",
            );
            return Err(out);
        }
        let rebuilt = match config.risk_profiles.get(target_profile) {
            Some(risk) => Self::agentic_rebuild_allowlist(&risk.allowed_tools),
            None => {
                let none: Vec<String> = Vec::new();
                assert(none.deep_view() =~= rebuild_list(seq![]));
                none
            },
        };
        assert(rebuilt.deep_view().len() == rebuilt.len());
        if rebuilt.len() == 0 {
            let mut out = refused_target(target_alias);
            out.append(" is agentic on a different risk profile (");
            return Err(
                with_quoted(
                    out,
                    target_profile,
                    ") but declares no explicit non-`delegate` allowed_tools; cross-profile agentic delegation requires an explicit tool allowlist so the sub-agent registry can be rebuilt minimally under the target's own policy.",
                ),
            );
        }
        Ok(())
    }

    /// Decides whether the caller may delegate to a target: one on its own risk
    /// profile, or one whose grants are no broader. `evidence` is needed for a
    /// target on another profile.
    pub fn cross_profile_decision(
        &self,
        config: &Config,
        target_alias: &str,
        evidence: Option<&GuardEvidence>,
    ) -> (r: Result<(), String>)
        ensures
            match r {
                Ok(()) => self.refuses(*config, target_alias@, evidence) is None,
                Err(reason) => self.refuses(*config, target_alias@, evidence) == Some(reason@),
            },
    {
        let target_agent = match config.agents.get(target_alias) {
            Some(agent) => agent,
            None => {
                let mut out = "unknown delegate target ".to_owned();
                let shown = text::quoted(target_alias);
                out.append(&shown);
                return Err(out);
            },
        };
        let target_profile = text::trim(&target_agent.risk_profile);
        let caller_profile = &self.security.risk_profile_name;
        if text::same_text(caller_profile, target_profile) {
            return Ok(());
        }
        let comparable = self.caller_alias.unicode_len() > 0 && grants_exist(
            config,
            &self.caller_alias,
        ) && grants_exist(config, target_alias);
        let found = if comparable {
            evidence
        } else {
            None
        };
        let evidence = match found {
            Some(evidence) => evidence,
            None => {
                let mut out = refused_target(target_alias);
                out.append(" uses risk profile ");
                let named = with_quoted(
                    out,
                    target_profile,
                    ", but delegation requires the same risk profile as the caller (",
                );
                return Err(
                    with_quoted(
                        named,
                        caller_profile,
                        "), or a target whose profile is no broader",
                    ),
                );
            },
        };
        if let Some(escalation) = &evidence.escalation {
            let mut out = refused_target(target_alias);
            out.append(" (risk profile ");
            let named = with_quoted(
                out,
                target_profile,
                ") would escalate beyond the caller's profile (",
            );
            let mut full = with_quoted(named, caller_profile, "): ");
            full.append(escalation);
            full.append(
                ". Delegation is narrowing-only — the target's permissions must be no broader than the caller's.",
            );
            return Err(full);
        }
        let target_agentic = match config.runtime_profiles.get(
            text::trim(&target_agent.runtime_profile),
        ) {
            Some(profile) => profile.agentic,
            None => false,
        };
        if target_agentic {
            return self.agentic_decision(config, target_alias, target_profile, evidence);
        }
        Ok(())
    }

    /// The policy that a target runs under, from the policy that its own
    /// configuration resolves to. Without a configuration it is the caller's
    /// policy. Actions of the target count against the caller's budget.
    pub fn policy_for_target(
        &self,
        target_alias: &str,
        resolved: Result<SecurityPolicy, String>,
        evidence: Option<&GuardEvidence>,
    ) -> (r: Result<Arc<SecurityPolicy>, String>)
        ensures
            policy_outcome(*self, target_alias@, resolved, evidence, r),
    {
        let config = match &self.root_config {
            Some(config) => config,
            None => {
                return Ok(Arc::clone(&self.security));
            },
        };
        let mut target_policy = match resolved {
            Ok(policy) => policy,
            Err(e) => {
                let prefix = "could not resolve security policy for delegate target ".to_owned();
                let mut out = with_quoted(prefix, target_alias, ": ");
                out.append(&e);
                return Err(out);
            },
        };
        if !self.security.delegation_policy.permits() {
            let mut out =
                "delegation is forbidden by the caller's delegation_policy; set [risk_profiles.".to_owned();
            out.append(&self.security.risk_profile_name);
            out.append("].delegation_policy mode = \"allow\"");
            return Err(out);
        }
        match self.cross_profile_decision(config, target_alias, evidence) {
            Ok(()) => {},
            Err(reason) => {
                return Err(reason);
            },
        }
        target_policy.tracker = self.security.tracker;
        Ok(Arc::new(target_policy))
    }
}

/// Why a delegation to a target is refused, if it is: its policy cannot be
/// resolved, the caller may not delegate, or the guard refuses it.
pub open spec fn policy_refusal(
    tool: DelegateTool,
    target: Seq<char>,
    resolved: Result<SecurityPolicy, String>,
    evidence: Option<&GuardEvidence>,
) -> Option<Seq<char>> {
    match tool.root_config {
        None => None,
        Some(config) => match resolved {
            Err(e) => Some(unresolved_text(target, e@)),
            Ok(_) => if !tool.security.delegation_policy.permits_spec() {
                Some(forbidden_text(tool.security.risk_profile_name@))
            } else {
                tool.refuses(*config, target, evidence)
            },
        },
    }
}

/// Whether `r` is what a delegation to a target is answered: the reason of a
/// refusal, or the policy that the target runs under.
pub open spec fn policy_outcome(
    tool: DelegateTool,
    target: Seq<char>,
    resolved: Result<SecurityPolicy, String>,
    evidence: Option<&GuardEvidence>,
    r: Result<Arc<SecurityPolicy>, String>,
) -> bool {
    match (policy_refusal(tool, target, resolved, evidence), r) {
        (Some(reason), Err(e)) => e@ == reason,
        (None, Ok(policy)) => match tool.root_config {
            None => policy == tool.security,
            Some(_) => *policy == (SecurityPolicy {
                tracker: tool.security.tracker,
                ..resolved->Ok_0
            }),
        },
        _ => false,
    }
}

} // verus!
