//! What the delegate tool offers to a model: its parameters, and the agents
//! that can be named.

use vstd::prelude::*;

use crate::delegate::DelegateTool;
use crate::dispatch;
use crate::guard::GuardEvidence;
use crate::table::AliasTable;
use crate::text;

verus! {

/// The evidence about a target, where there is any.
pub open spec fn evidence_for<'a>(
    evidence: &'a AliasTable<GuardEvidence>,
    name: Seq<char>,
) -> Option<&'a GuardEvidence> {
    match evidence.lookup(name) {
        Some(e) => Some(&e),
        None => None,
    }
}

/// Whether an agent is offered: delegation is permitted, it is not the calling
/// agent, and the guard lets it pass. Without a configuration the guard is the
/// caller's own risk profile.
pub open spec fn offered(
    tool: DelegateTool,
    evidence: &AliasTable<GuardEvidence>,
    name: Seq<char>,
) -> bool {
    &&& tool.security.delegation_policy.permits_spec()
    &&& tool.agents.lookup(name) matches Some(agent)
    &&& name != tool.caller_alias@
    &&& match tool.root_config {
        Some(config) => tool.refuses(*config, name, evidence_for(evidence, name)) is None,
        None => text::trimmed(agent.risk_profile@) == tool.security.risk_profile_name@,
    }
}

/// Whether a list holds the agents that are offered, each once and in order.
pub open spec fn is_roster(
    tool: DelegateTool,
    evidence: &AliasTable<GuardEvidence>,
    names: Seq<Seq<char>>,
) -> bool {
    &&& text::in_order(names)
    &&& names.no_duplicates()
    &&& forall|name: Seq<char>| names.contains(name) <==> #[trigger] offered(tool, evidence, name)
}

proof fn lemma_same_members(a: Seq<Seq<char>>, b: Seq<Seq<char>>)
    requires
        a.to_multiset() == b.to_multiset(),
        a.no_duplicates(),
    ensures
        b.no_duplicates(),
        forall|x: Seq<char>| #[trigger] a.contains(x) <==> b.contains(x),
{
    a.to_multiset_ensures();
    b.to_multiset_ensures();
    a.lemma_multiset_has_no_duplicates();
    b.lemma_multiset_has_no_duplicates_conv();
    assert forall|x: Seq<char>| #[trigger] a.contains(x) <==> b.contains(x) by {
        assert(a.contains(x) <==> a.to_multiset().count(x) > 0);
        assert(b.contains(x) <==> b.to_multiset().count(x) > 0);
    }
}

impl DelegateTool {
    /// Whether an agent at a position of the table is offered.
    fn offers(&self, evidence: &AliasTable<GuardEvidence>, i: usize) -> (r: bool)
        requires
            i < self.agents.contents().len(),
            self.agents.wf(),
        ensures
            r == offered(*self, evidence, self.agents.keys()[i as int]),
    {
        let name = self.agents.key_at(i);
        let agent = self.agents.at(i);
        assert(self.agents.keys().contains(name@)) by {
            assert(self.agents.keys()[i as int] == name@);
        }
        assert(self.agents.keys().index_of(name@) == i);
        if !self.security.delegation_policy.permits() {
            return false;
        }
        if text::same_text(name, &self.caller_alias) {
            return false;
        }
        match &self.root_config {
            Some(config) => self.cross_profile_decision(config, name, evidence.get(name)).is_ok(),
            None => text::same_text(
                text::trim(&agent.risk_profile),
                &self.security.risk_profile_name,
            ),
        }
    }

    /// The agents that are offered, in order.
    pub fn roster(&self, evidence: &AliasTable<GuardEvidence>) -> (r: Vec<String>)
        ensures
            is_roster(*self, evidence, r.deep_view()),
    {
        self.agents.distinct();
        let ghost keys = self.agents.keys();
        let n: usize = self.agents.len();
        let mut names: Vec<String> = Vec::new();
        let mut i: usize = 0;
        while i < n
            invariant
                i <= n,
                n == self.agents.contents().len(),
                n == keys.len(),
                keys == self.agents.keys(),
                self.agents.wf(),
                names.deep_view().no_duplicates(),
                forall|x: Seq<char>| #[trigger]
                    names.deep_view().contains(x) ==> offered(*self, evidence, x) && exists|j: int|
                        0 <= j < i && #[trigger] keys[j] == x,
                forall|j: int|
                    0 <= j < i && offered(*self, evidence, #[trigger] keys[j])
                        ==> names.deep_view().contains(keys[j]),
            decreases n - i,
        {
            let ghost before = names.deep_view();
            if self.offers(evidence, i) {
                names.push(self.agents.key_at(i).clone());
                proof {
                    let after = names.deep_view();
                    assert(after =~= before.push(keys[i as int]));
                    assert(!before.contains(keys[i as int]));
                    assert forall|x: Seq<char>| #[trigger] after.contains(x) implies offered(
                        *self,
                        evidence,
                        x,
                    ) && exists|j: int| 0 <= j < i + 1 && #[trigger] keys[j] == x by {
                        let k = after.index_of(x);
                        if k < before.len() {
                            assert(before[k] == x);
                            assert(before.contains(x));
                        } else {
                            assert(keys[i as int] == x);
                        }
                    }
                    assert forall|j: int|
                        0 <= j < i + 1 && offered(*self, evidence, #[trigger] keys[j]) implies after.contains(
                        keys[j],
                    ) by {
                        if j < i {
                            let k = before.index_of(keys[j]);
                            assert(after[k] == keys[j]);
                        } else {
                            assert(after[after.len() - 1] == keys[j]);
                        }
                    }
                }
            }
            i += 1;
        }
        let ghost found = names.deep_view();
        let out = text::sorted(names);
        proof {
            lemma_same_members(found, out.deep_view());
            assert forall|name: Seq<char>| out.deep_view().contains(name) <==> #[trigger] offered(
                *self,
                evidence,
                name,
            ) by {
                if offered(*self, evidence, name) {
                    assert(keys.contains(name));
                    let j = keys.index_of(name);
                    assert(keys[j] == name);
                    assert(found.contains(name));
                }
                if out.deep_view().contains(name) {
                    assert(found.contains(name));
                }
            }
        }
        out
    }
}

/// The type of a parameter.
#[derive(Debug, Clone, Copy, PartialEq, Eq, Structural)]
pub enum ParameterType {
    /// A string.
    Text,
    /// A boolean.
    Flag,
    /// A list of strings.
    TextList,
}

/// A parameter of the tool.
#[derive(Debug)]
pub struct Parameter {
    /// Name.
    pub name: &'static str,
    /// Type.
    pub kind: ParameterType,
    /// Least number of characters.
    pub min_length: Option<u64>,
    /// Values that are taken; empty means every one.
    pub choices: Vec<&'static str>,
    /// What the parameter is for, in the words that a model reads.
    pub description: String,
    /// Value of a string that is not given.
    pub default_text: Option<&'static str>,
    /// Value of a boolean that is not given.
    pub default_flag: Option<bool>,
}

/// A parameter as texts.
#[verifier::ext_equal]
pub struct ParameterText {
    pub name: Seq<char>,
    pub kind: ParameterType,
    pub min_length: Option<u64>,
    pub choices: Seq<Seq<char>>,
    pub description: Seq<char>,
    pub default_text: Option<Seq<char>>,
    pub default_flag: Option<bool>,
}

impl View for Parameter {
    type V = ParameterText;

    open spec fn view(&self) -> ParameterText {
        ParameterText {
            name: self.name@,
            kind: self.kind,
            min_length: self.min_length,
            choices: self.choices@.map_values(|c: &'static str| c@),
            description: self.description@,
            default_text: match self.default_text {
                Some(t) => Some(t@),
                None => None,
            },
            default_flag: self.default_flag,
        }
    }
}

/// The parameters of the tool.
#[derive(Debug)]
pub struct ParametersSchema {
    /// The parameters, in order.
    pub properties: Vec<Parameter>,
    /// Names of parameters that every call has to give.
    pub required: Vec<String>,
    /// Whether a call may give other parameters.
    pub additional_properties: bool,
}

/// The parameters of the tool as texts.
#[verifier::ext_equal]
pub struct SchemaText {
    pub properties: Seq<ParameterText>,
    pub required: Seq<Seq<char>>,
    pub additional_properties: bool,
}

impl View for ParametersSchema {
    type V = SchemaText;

    open spec fn view(&self) -> SchemaText {
        SchemaText {
            properties: self.properties@.map_values(|p: Parameter| p@),
            required: self.required.deep_view(),
            additional_properties: self.additional_properties,
        }
    }
}

/// A parameter that is a string.
pub open spec fn text_parameter(
    name: Seq<char>,
    min_length: Option<u64>,
    description: Seq<char>,
) -> ParameterText {
    ParameterText {
        name,
        kind: ParameterType::Text,
        min_length,
        choices: seq![],
        description,
        default_text: None,
        default_flag: None,
    }
}

/// What the `agent` parameter is for.
pub open spec fn agent_description(names: Seq<Seq<char>>) -> Seq<char> {
    "Name of the agent to delegate to. Available: "@ + dispatch::roster_text(names)
}

/// What the `action` parameter is for.
pub const ACTION_DESCRIPTION: &'static str = "Action to perform. Default: 'delegate'. Use 'check_result' to retrieve a background task result, 'list_results' to list all background tasks, 'cancel_task' to cancel a running background task.";

/// What the `prompt` parameter is for.
pub const PROMPT_DESCRIPTION: &'static str = "The task/prompt to send to the sub-agent";

/// What the `context` parameter is for.
pub const CONTEXT_DESCRIPTION: &'static str =
    "Optional context to prepend (e.g. relevant code, prior findings)";

/// What the `background` parameter is for.
pub const BACKGROUND_DESCRIPTION: &'static str = "When true, the sub-agent runs in a background tokio task and returns a task_id immediately. Results are stored to workspace/delegate_results/{task_id}.json.";

/// What the `parallel` parameter is for.
pub const PARALLEL_DESCRIPTION: &'static str = "Array of agent names to run concurrently with the same prompt. Returns all results when all agents complete. Cannot be combined with 'background'.";

/// What the `task_id` parameter is for.
pub const TASK_ID_DESCRIPTION: &'static str =
    "Task ID for check_result/cancel_task actions (returned by background delegation).";

/// The parameters of a tool that offers these agents.
pub open spec fn parameters_for(names: Seq<Seq<char>>) -> Seq<ParameterText> {
    seq![
        ParameterText {
            name: "action"@,
            kind: ParameterType::Text,
            min_length: None,
            choices: seq!["delegate"@, "check_result"@, "list_results"@, "cancel_task"@],
            description: ACTION_DESCRIPTION@,
            default_text: Some("delegate"@),
            default_flag: None,
        },
        text_parameter("agent"@, Some(1), agent_description(names)),
        text_parameter("prompt"@, Some(1), PROMPT_DESCRIPTION@),
        text_parameter("context"@, None, CONTEXT_DESCRIPTION@),
        ParameterText {
            name: "background"@,
            kind: ParameterType::Flag,
            min_length: None,
            choices: seq![],
            description: BACKGROUND_DESCRIPTION@,
            default_text: None,
            default_flag: Some(false),
        },
        ParameterText {
            name: "parallel"@,
            kind: ParameterType::TextList,
            min_length: None,
            choices: seq![],
            description: PARALLEL_DESCRIPTION@,
            default_text: None,
            default_flag: None,
        },
        text_parameter("task_id"@, None, TASK_ID_DESCRIPTION@),
    ]
}

/// The parameters of a tool that offers these agents. No parameter has to be
/// given by every call, and no other may be given.
pub open spec fn schema_for(names: Seq<Seq<char>>) -> SchemaText {
    SchemaText {
        properties: parameters_for(names),
        required: seq![],
        additional_properties: false,
    }
}

/// A parameter without choices and defaults.
fn plain_parameter(
    name: &'static str,
    kind: ParameterType,
    min_length: Option<u64>,
    description: String,
) -> (r: Parameter)
    ensures
        r@ == (ParameterText {
            name: name@,
            kind,
            min_length,
            choices: seq![],
            description: description@,
            default_text: None,
            default_flag: None,
        }),
{
    let r = Parameter {
        name,
        kind,
        min_length,
        choices: Vec::new(),
        description,
        default_text: None,
        default_flag: None,
    };
    assert(r@.choices =~= seq![]);
    r
}

/// The `action` parameter.
fn action_parameter() -> (r: Parameter)
    ensures
        r@ == parameters_for(seq![])[0],
{
    let mut choices: Vec<&'static str> = Vec::new();
    choices.push("delegate");
    choices.push("check_result");
    choices.push("list_results");
    choices.push("cancel_task");
    let r = Parameter {
        name: "action",
        kind: ParameterType::Text,
        min_length: None,
        choices,
        description: ACTION_DESCRIPTION.to_owned(),
        default_text: Some("delegate"),
        default_flag: None,
    };
    assert(r@.choices =~= parameters_for(seq![])[0].choices);
    r
}

/// Whether one of a list of parameters has a name.
pub open spec fn has_parameter(parameters: Seq<ParameterText>, name: Seq<char>) -> bool {
    exists|i: int| 0 <= i < parameters.len() && (#[trigger] parameters[i]).name == name
}

impl ParametersSchema {
    /// The first parameter of a name, if there is one.
    pub fn property(&self, name: &str) -> (r: Option<&Parameter>)
        ensures
            match r {
                Some(p) => exists|i: int|
                    {
                        &&& 0 <= i < self@.properties.len()
                        &&& #[trigger] self@.properties[i] == p@
                        &&& p@.name == name@
                        &&& forall|k: int|
                            0 <= k < i ==> (#[trigger] self@.properties[k]).name != name@
                    },
                None => forall|i: int|
                    0 <= i < self@.properties.len() ==> (#[trigger] self@.properties[i]).name
                        != name@,
            },
            r is Some <==> has_parameter(self@.properties, name@),
    {
        let mut i: usize = 0;
        while i < self.properties.len()
            invariant
                i <= self.properties.len(),
                forall|k: int| 0 <= k < i ==> (#[trigger] self@.properties[k]).name != name@,
            decreases self.properties.len() - i,
        {
            assert(self@.properties[i as int] == self.properties[i as int]@);
            if text::same_text(self.properties[i].name, name) {
                return Some(&self.properties[i]);
            }
            i += 1;
        }
        None
    }
}

impl DelegateTool {
    /// The parameters of the tool. Only the agents that the caller can reach
    /// are named.
    pub fn parameters_schema(&self, evidence: &AliasTable<GuardEvidence>) -> (r: ParametersSchema)
        ensures
            exists|names: Seq<Seq<char>>|
                #[trigger] is_roster(*self, evidence, names) && r@ == schema_for(names),
    {
        let names = self.roster(evidence);
        let mut agents = "Name of the agent to delegate to. Available: ".to_owned();
        let listed = dispatch::list_agents(&names);
        agents.append(&listed);
        let mut properties: Vec<Parameter> = Vec::new();
        properties.push(action_parameter());
        properties.push(plain_parameter("agent", ParameterType::Text, Some(1), agents));
        properties.push(
            plain_parameter(
                "prompt",
                ParameterType::Text,
                Some(1),
                PROMPT_DESCRIPTION.to_owned(),
            ),
        );
        properties.push(
            plain_parameter("context", ParameterType::Text, None, CONTEXT_DESCRIPTION.to_owned()),
        );
        let mut background = plain_parameter(
            "background",
            ParameterType::Flag,
            None,
            BACKGROUND_DESCRIPTION.to_owned(),
        );
        background.default_flag = Some(false);
        properties.push(background);
        properties.push(
            plain_parameter(
                "parallel",
                ParameterType::TextList,
                None,
                PARALLEL_DESCRIPTION.to_owned(),
            ),
        );
        properties.push(
            plain_parameter("task_id", ParameterType::Text, None, TASK_ID_DESCRIPTION.to_owned()),
        );
        let r = ParametersSchema {
            properties,
            required: Vec::new(),
            additional_properties: false,
        };
        assert(r@ =~= schema_for(names.deep_view()));
        r
    }
}

/// The agents that are offered and their order are determined.
pub proof fn roster_is_unique(
    tool: DelegateTool,
    evidence: &AliasTable<GuardEvidence>,
    a: Seq<Seq<char>>,
    b: Seq<Seq<char>>,
)
    requires
        is_roster(tool, evidence, a),
        is_roster(tool, evidence, b),
    ensures
        a == b,
    decreases a.len(),
{
    lemma_sorted_unique(a, b, |name: Seq<char>| offered(tool, evidence, name));
}

proof fn lemma_sorted_unique(
    a: Seq<Seq<char>>,
    b: Seq<Seq<char>>,
    member: spec_fn(Seq<char>) -> bool,
)
    requires
        text::in_order(a),
        text::in_order(b),
        a.no_duplicates(),
        b.no_duplicates(),
        forall|x: Seq<char>| a.contains(x) <==> #[trigger] member(x),
        forall|x: Seq<char>| b.contains(x) <==> #[trigger] member(x),
    ensures
        a == b,
    decreases a.len(),
{
    if a.len() == 0 {
        if b.len() > 0 {
            assert(b.contains(b[0]));
            assert(member(b[0]));
            assert(a.contains(b[0]));
        }
        assert(a =~= b);
    } else {
        let x = a.last();
        assert(a.contains(a[a.len() - 1]));
        assert(member(x));
        assert(b.contains(x));
        let j = b.index_of(x);
        let y = b.last();
        assert(b.contains(b[b.len() - 1]));
        assert(member(y));
        assert(a.contains(y));
        let i = a.index_of(y);
        assert(text::text_le(a[i], a[a.len() - 1]));
        assert(text::text_le(b[j], b[b.len() - 1]));
        text::text_le_antisymmetric(x, y);
        let a0 = a.drop_last();
        let b0 = b.drop_last();
        let rest = |n: Seq<char>| member(n) && n != x;
        assert forall|n: Seq<char>| a0.contains(n) <==> #[trigger] rest(n) by {
            lemma_drop_last_members(a, n);
        }
        assert forall|n: Seq<char>| b0.contains(n) <==> #[trigger] rest(n) by {
            lemma_drop_last_members(b, n);
        }
        assert(text::in_order(a0)) by {
            assert forall|p: int, q: int| 0 <= p <= q < a0.len() implies text::text_le(
                #[trigger] a0[p],
                #[trigger] a0[q],
            ) by {
                assert(a0[p] == a[p] && a0[q] == a[q]);
            }
        }
        assert(text::in_order(b0)) by {
            assert forall|p: int, q: int| 0 <= p <= q < b0.len() implies text::text_le(
                #[trigger] b0[p],
                #[trigger] b0[q],
            ) by {
                assert(b0[p] == b[p] && b0[q] == b[q]);
            }
        }
        lemma_sorted_unique(a0, b0, rest);
        assert(a =~= a0.push(x));
        assert(b =~= b0.push(x));
    }
}

proof fn lemma_drop_last_members(s: Seq<Seq<char>>, n: Seq<char>)
    requires
        s.len() > 0,
        s.no_duplicates(),
    ensures
        s.drop_last().contains(n) <==> s.contains(n) && n != s.last(),
{
    let front = s.drop_last();
    if front.contains(n) {
        let k = front.index_of(n);
        assert(s[k] == n);
        assert(s[k] != s[s.len() - 1]);
    }
    if s.contains(n) && n != s.last() {
        let k = s.index_of(n);
        assert(front[k] == n);
    }
}

/// Where delegation is forbidden no agent is offered.
pub proof fn forbidden_offers_nobody(
    tool: DelegateTool,
    evidence: &AliasTable<GuardEvidence>,
    names: Seq<Seq<char>>,
)
    requires
        is_roster(tool, evidence, names),
        !tool.security.delegation_policy.permits_spec(),
    ensures
        names.len() == 0,
        agent_description(names) == "Name of the agent to delegate to. Available: "@
            + "(none configured)"@,
{
    if names.len() > 0 {
        assert(names.contains(names[0]));
        assert(offered(tool, evidence, names[0]));
    }
}

/// An agent is never offered itself.
pub proof fn caller_is_not_offered(
    tool: DelegateTool,
    evidence: &AliasTable<GuardEvidence>,
    names: Seq<Seq<char>>,
)
    requires
        is_roster(tool, evidence, names),
    ensures
        !names.contains(tool.caller_alias@),
{
    if names.contains(tool.caller_alias@) {
        assert(offered(tool, evidence, tool.caller_alias@));
    }
}

/// An agent that is offered passes the guard when it is named, and a known agent
/// other than the caller that would pass is offered.
pub proof fn offer_agrees_with_guard(
    tool: DelegateTool,
    evidence: &AliasTable<GuardEvidence>,
    name: Seq<char>,
    policy: crate::policy::SecurityPolicy,
)
    requires
        tool.root_config is Some,
        tool.agents.lookup(name) is Some,
        name != tool.caller_alias@,
    ensures
        offered(tool, evidence, name) <==> crate::guard::policy_refusal(
            tool,
            name,
            Ok(policy),
            evidence_for(evidence, name),
        ) is None,
{
}

} // verus!
