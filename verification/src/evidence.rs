//! Gathering what the guard has to know about a target, and asking it.
//!
//! Five steps lie outside this library: resolving an agent's policy, resolving a
//! pair of profiles to a policy, adding the equipment of an agent's persona
//! bundles, comparing two policies, and finding the canonical form of a
//! directory. They are handed in as functions; which agents, profiles and
//! directories they are asked about is decided here, and so is what becomes of
//! their answers.

use std::sync::Arc;

use vstd::prelude::*;

use crate::delegate::DelegateTool;
use crate::guard;
use crate::guard::{GuardEvidence, GRANT_CMP_WORKSPACE};
use crate::policy::SecurityPolicy;
use crate::schema::Config;
use crate::table::AliasTable;
use crate::text;

verus! {

/// The steps outside this library that a decision of the guard goes through.
pub struct GuardSteps<R, B, P, X, C> {
    /// The policy that the configuration gives to an agent.
    pub resolve: R,
    /// The policy of a risk profile and a runtime profile of the configuration,
    /// by their names, on a workspace.
    pub base: B,
    /// A policy with the equipment of an agent's persona bundles added.
    pub equip: P,
    /// How a policy, the target's, exceeds another, the caller's, if it does.
    pub compare: X,
    /// The canonical form of a directory that exists.
    pub canonical: C,
}

/// Evidence by reference.
pub open spec fn borrowed<'a>(evidence: &'a Option<GuardEvidence>) -> Option<&'a GuardEvidence> {
    match evidence {
        Some(e) => Some(e),
        None => None,
    }
}

impl<R, B, P, X, C> GuardSteps<R, B, P, X, C> where
    R: Fn(&Config, &str) -> Result<SecurityPolicy, String>,
    B: Fn(&Config, &str, &str, &str) -> SecurityPolicy,
    P: Fn(&Config, &str, SecurityPolicy) -> SecurityPolicy,
    X: Fn(&SecurityPolicy, &SecurityPolicy) -> Option<String>,
    C: Fn(&str) -> Option<String>,
 {
    /// Whether the steps can be asked about anything.
    pub open spec fn callable(self) -> bool {
        &&& forall|config: &Config, name: &str| #[trigger]
            call_requires(self.resolve, (config, name))
        &&& forall|config: &Config, risk_profile: &str, runtime_profile: &str, workspace: &str|
            #[trigger]
            call_requires(self.base, (config, risk_profile, runtime_profile, workspace))
        &&& forall|config: &Config, name: &str, policy: SecurityPolicy| #[trigger]
            call_requires(self.equip, (config, name, policy))
        &&& forall|target: &SecurityPolicy, caller: &SecurityPolicy| #[trigger]
            call_requires(self.compare, (target, caller))
        &&& forall|dir: &str| #[trigger] call_requires(self.canonical, (dir,))
    }

    /// Whether `resolved` is the policy that the configuration gives to an
    /// agent.
    pub open spec fn is_resolved(
        self,
        config: Config,
        alias: Seq<char>,
        resolved: Result<SecurityPolicy, String>,
    ) -> bool {
        exists|name: &str|
            name@ == alias && #[trigger] call_ensures(self.resolve, (&config, name), resolved)
    }

    /// Whether `start` is what the profiles of an agent give on the shared base
    /// workspace. Whitespace round the names of the profiles does not count.
    pub open spec fn is_base(self, config: Config, alias: Seq<char>, start: SecurityPolicy) -> bool {
        config.agents.lookup(alias) matches Some(agent) && exists|
            risk_profile: &str,
            runtime_profile: &str,
            workspace: &str,
        |
            {
                &&& risk_profile@ == text::trimmed(agent.risk_profile@)
                &&& runtime_profile@ == text::trimmed(agent.runtime_profile@)
                &&& workspace@ == GRANT_CMP_WORKSPACE@
                &&& #[trigger] call_ensures(
                    self.base,
                    (&config, risk_profile, runtime_profile, workspace),
                    start,
                )
            }
    }

    /// Whether `grants` is a policy with the equipment of an agent added.
    pub open spec fn is_equipped(
        self,
        config: Config,
        alias: Seq<char>,
        policy: SecurityPolicy,
        grants: SecurityPolicy,
    ) -> bool {
        exists|name: &str|
            name@ == alias && #[trigger] call_ensures(self.equip, (&config, name, policy), grants)
    }

    /// Whether `grants` are the grants of an agent: its profiles on the shared
    /// base workspace, the siblings that it may use, and the equipment of its
    /// persona bundles.
    pub open spec fn are_grants(
        self,
        config: Config,
        alias: Seq<char>,
        grants: SecurityPolicy,
    ) -> bool {
        guard::has_grants(config, alias) && exists|start: SecurityPolicy, merged: SecurityPolicy|
            {
                &&& self.is_base(config, alias, start)
                &&& #[trigger] guard::grants_from(
                    config,
                    config.agents.lookup(alias)->0,
                    start,
                    merged,
                )
                &&& self.is_equipped(config, alias, merged, grants)
            }
    }

    /// Whether `found` is the canonical form of the workspace of an agent.
    pub open spec fn is_canonical(
        self,
        config: Config,
        alias: Seq<char>,
        found: Option<String>,
    ) -> bool {
        exists|workspace: &str|
            workspace@ == config.workspace_of(alias) && #[trigger] call_ensures(
                self.canonical,
                (workspace,),
                found,
            )
    }

    /// Whether `r` is the evidence about a target of a calling agent. There is
    /// none exactly when the grants of either cannot be worked out.
    pub open spec fn is_evidence(
        self,
        config: Config,
        caller: Seq<char>,
        target: Seq<char>,
        r: Option<GuardEvidence>,
    ) -> bool {
        match r {
            None => !guard::has_grants(config, caller) || !guard::has_grants(config, target),
            Some(evidence) => {
                &&& self.are_grants(config, caller, evidence.caller_grants)
                &&& self.are_grants(config, target, evidence.target_grants)
                &&& call_ensures(
                    self.compare,
                    (&evidence.target_grants, &evidence.caller_grants),
                    evidence.escalation,
                )
                &&& self.is_canonical(config, caller, evidence.caller_canonical)
                &&& self.is_canonical(config, target, evidence.target_canonical)
            },
        }
    }

    /// Whether `r` is what the guard says to a delegation to a target, on the
    /// policy that the configuration gives to the target and on the evidence
    /// about the two agents. Without a configuration the target runs under the
    /// caller's policy.
    pub open spec fn judged(
        self,
        tool: DelegateTool,
        target: Seq<char>,
        r: Result<Arc<SecurityPolicy>, String>,
    ) -> bool {
        match tool.root_config {
            None => r == Ok::<Arc<SecurityPolicy>, String>(tool.security),
            Some(config) => exists|
                resolved: Result<SecurityPolicy, String>,
                evidence: Option<GuardEvidence>,
            |
                {
                    &&& self.is_resolved(*config, target, resolved)
                    &&& self.is_evidence(*config, tool.caller_alias@, target, evidence)
                    &&& #[trigger] guard::policy_outcome(
                        tool,
                        target,
                        resolved,
                        borrowed(&evidence),
                        r,
                    )
                },
        }
    }

    /// The grants of an agent for the comparison with another agent's. None when
    /// the agent or its risk profile is not configured.
    pub fn agent_grants(&self, config: &Config, alias: &str) -> (r: Option<SecurityPolicy>)
        requires
            self.callable(),
        ensures
            match r {
                Some(grants) => self.are_grants(*config, alias@, grants),
                None => !guard::has_grants(*config, alias@),
            },
    {
        let agent = match config.agents.get(alias) {
            Some(agent) => agent,
            None => {
                return None;
            },
        };
        let risk_profile = text::trim(&agent.risk_profile);
        if config.risk_profiles.get(risk_profile).is_none() {
            return None;
        }
        let runtime_profile = text::trim(&agent.runtime_profile);
        let workspace: &str = GRANT_CMP_WORKSPACE;
        let start = (self.base)(config, risk_profile, runtime_profile, workspace);
        assert(self.is_base(*config, alias@, start));
        let merged = match DelegateTool::profile_grants(config, alias, start) {
            Some(merged) => merged,
            None => {
                return None;
            },
        };
        assert(guard::grants_from(*config, *agent, start, merged));
        let ghost given = merged;
        let grants = (self.equip)(config, alias, merged);
        assert(call_ensures(self.equip, (config, alias, given), grants));
        assert(self.is_equipped(*config, alias@, given, grants));
        Some(grants)
    }

    /// What the guard has to know about a target of a tool's calling agent.
    pub fn gather_evidence(&self, tool: &DelegateTool, config: &Config, target_alias: &str) -> (r:
        Option<GuardEvidence>)
        requires
            self.callable(),
        ensures
            self.is_evidence(*config, tool.caller_alias@, target_alias@, r),
    {
        let caller_grants = match self.agent_grants(config, &tool.caller_alias) {
            Some(grants) => grants,
            None => {
                return None;
            },
        };
        let target_grants = match self.agent_grants(config, target_alias) {
            Some(grants) => grants,
            None => {
                return None;
            },
        };
        let escalation = (self.compare)(&target_grants, &caller_grants);
        let caller_dir = config.agent_workspace_dir(&tool.caller_alias);
        let caller_canonical = (self.canonical)(&caller_dir);
        assert(self.is_canonical(*config, tool.caller_alias@, caller_canonical));
        let target_dir = config.agent_workspace_dir(target_alias);
        let target_canonical = (self.canonical)(&target_dir);
        assert(self.is_canonical(*config, target_alias@, target_canonical));
        Some(
            GuardEvidence {
                caller_grants,
                target_grants,
                escalation,
                caller_canonical,
                target_canonical,
            },
        )
    }

    /// What the guard has to know about every agent that a tool can name.
    pub fn gather_all_evidence(&self, tool: &DelegateTool, config: &Config) -> (r: AliasTable<
        GuardEvidence,
    >)
        requires
            self.callable(),
        ensures
            forall|name: Seq<char>| #[trigger]
                tool.agents.keys().contains(name) ==> self.is_evidence(
                    *config,
                    tool.caller_alias@,
                    name,
                    r.lookup(name),
                ),
            forall|name: Seq<char>|
                !tool.agents.keys().contains(name) ==> #[trigger] r.lookup(name) is None,
    {
        tool.agents.distinct();
        let ghost keys = tool.agents.keys();
        let n: usize = tool.agents.len();
        let mut all: AliasTable<GuardEvidence> = AliasTable::new();
        let mut i: usize = 0;
        while i < n
            invariant
                i <= n,
                n == keys.len(),
                n == tool.agents.contents().len(),
                keys == tool.agents.keys(),
                keys.no_duplicates(),
                self.callable(),
                forall|j: int|
                    0 <= j < i ==> self.is_evidence(
                        *config,
                        tool.caller_alias@,
                        #[trigger] keys[j],
                        all.lookup(keys[j]),
                    ),
                forall|name: Seq<char>|
                    (forall|j: int| 0 <= j < i ==> #[trigger] keys[j] != name)
                        ==> #[trigger] all.lookup(name) is None,
            decreases n - i,
        {
            let ghost before = all;
            let name = tool.agents.key_at(i);
            assert(before.lookup(keys[i as int]) is None);
            let found = self.gather_evidence(tool, config, name);
            if let Some(evidence) = found {
                all.insert(name.clone(), evidence);
            }
            assert(all.lookup(keys[i as int]) == found);
            assert forall|other: Seq<char>|
                (forall|j: int| 0 <= j < i + 1 ==> #[trigger] keys[j] != other)
                implies #[trigger] all.lookup(other) is None by {
                assert(keys[i as int] != other);
                assert(before.lookup(other) is None);
            }
            i += 1;
        }
        assert forall|name: Seq<char>| #[trigger] keys.contains(name) implies self.is_evidence(
            *config,
            tool.caller_alias@,
            name,
            all.lookup(name),
        ) by {
            let j = keys.index_of(name);
            assert(keys[j] == name);
        }
        all
    }

    /// Asks the guard about a delegation to a target: the policy that the target
    /// runs under, or why it is refused.
    pub fn judge_target(&self, tool: &DelegateTool, target_alias: &str) -> (r: Result<
        Arc<SecurityPolicy>,
        String,
    >)
        requires
            self.callable(),
        ensures
            self.judged(*tool, target_alias@, r),
    {
        match &tool.root_config {
            None => Ok(Arc::clone(&tool.security)),
            Some(config) => {
                let resolved = (self.resolve)(config, target_alias);
                let ghost given = resolved;
                assert(call_ensures(self.resolve, (&**config, target_alias), given));
                assert(self.is_resolved(**config, target_alias@, given));
                let evidence = self.gather_evidence(tool, config, target_alias);
                let r = tool.policy_for_target(target_alias, resolved, evidence.as_ref());
                assert(guard::policy_outcome(
                    *tool,
                    target_alias@,
                    given,
                    borrowed(&evidence),
                    r,
                ));
                r
            },
        }
    }
}

/// Gathered evidence is missing exactly where the guard asks for none: where the
/// grants of the caller or of the target cannot be worked out.
pub proof fn evidence_is_missing_exactly<R, B, P, X, C>(
    steps: GuardSteps<R, B, P, X, C>,
    config: Config,
    caller: Seq<char>,
    target: Seq<char>,
    r: Option<GuardEvidence>,
) where
    R: Fn(&Config, &str) -> Result<SecurityPolicy, String>,
    B: Fn(&Config, &str, &str, &str) -> SecurityPolicy,
    P: Fn(&Config, &str, SecurityPolicy) -> SecurityPolicy,
    X: Fn(&SecurityPolicy, &SecurityPolicy) -> Option<String>,
    C: Fn(&str) -> Option<String>,

    requires
        steps.is_evidence(config, caller, target, r),
    ensures
        r is None <==> !guard::has_grants(config, caller) || !guard::has_grants(config, target),
{
}

} // verus!
