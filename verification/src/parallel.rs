//! Running several agents at once on one prompt.

use std::sync::Arc;

use vstd::prelude::*;

use crate::arguments;
use crate::arguments::{CallArguments, CallTexts};
use crate::delegate::DelegateTool;
use crate::dispatch;
use crate::evidence::GuardSteps;
use crate::policy::SecurityPolicy;
use crate::reply;
use crate::reply::{Step, ToolResult};
use crate::schema::Config;
use crate::text;

verus! {

/// The names in a list of agents: trimmed, without blank ones and without items
/// that are no strings.
pub open spec fn agent_names(items: Seq<Option<Seq<char>>>) -> Seq<Seq<char>>
    decreases items.len(),
{
    if items.len() == 0 {
        seq![]
    } else {
        let before = agent_names(items.drop_last());
        match items.last() {
            Some(item) => if text::trimmed(item).len() == 0 {
                before
            } else {
                before.push(text::trimmed(item))
            },
            None => before,
        }
    }
}

/// The answer for an agent of the list that is not configured.
pub open spec fn unknown_in_list_text(name: Seq<char>, names: Seq<Seq<char>>) -> Seq<char> {
    "Unknown agent '"@ + name + "' in parallel list. Available: "@ + dispatch::roster_text(names)
}

/// Why a list of agents is not run, if it is not.
pub open spec fn list_refusal(
    tool: DelegateTool,
    items: Seq<Option<Seq<char>>>,
    prompt: Seq<char>,
) -> Option<Seq<char>> {
    let names = agent_names(items);
    if prompt.len() == 0 {
        Some("'prompt' parameter must not be empty"@)
    } else if names.len() == 0 {
        Some("'parallel' array must contain at least one agent name"@)
    } else {
        match text::first_match(
            names,
            |name: Seq<char>| !tool.agents.keys().contains(name),
        ) {
            Some(name) => Some(unknown_in_list_text(name, tool.agents.keys())),
            None => None,
        }
    }
}

/// A list of known agents that has not gone through the guard yet.
pub struct ParallelPlan<'a> {
    tool: &'a DelegateTool,
    names: Vec<String>,
    prompt: String,
}

impl<'a> ParallelPlan<'a> {
    /// The tool that the request came to.
    pub closed spec fn tool(self) -> DelegateTool {
        *self.tool
    }

    /// The agents, in order.
    pub closed spec fn names(self) -> Seq<Seq<char>> {
        self.names.deep_view()
    }

    /// The prompt that every agent is given.
    pub closed spec fn prompt(self) -> Seq<char> {
        self.prompt@
    }

    /// Takes every agent through the guard, in order. The first refusal ends the
    /// whole request: then no agent can be run.
    pub fn clear_all<R, B, P, X, C>(self, steps: &GuardSteps<R, B, P, X, C>) -> (r: Result<
        ClearedPlan<'a>,
        ToolResult,
    >) where
        R: Fn(&Config, &str) -> Result<SecurityPolicy, String>,
        B: Fn(&Config, &str, &str, &str) -> SecurityPolicy,
        P: Fn(&Config, &str, SecurityPolicy) -> SecurityPolicy,
        X: Fn(&SecurityPolicy, &SecurityPolicy) -> Option<String>,
        C: Fn(&str) -> Option<String>,

        requires
            steps.callable(),
        ensures
            match r {
                Ok(plan) => {
                    &&& plan.tool() == self.tool()
                    &&& plan.names() == self.names()
                    &&& plan.prompt() == self.prompt()
                    &&& all_judged(*steps, self.tool(), self.names(), plan.policies())
                },
                Err(answer) => exists|passed: Seq<Arc<SecurityPolicy>>, reason: String|
                    {
                        &&& passed.len() < self.names().len()
                        &&& #[trigger] all_judged(
                            *steps,
                            self.tool(),
                            self.names().take(passed.len() as int),
                            passed,
                        )
                        &&& #[trigger] steps.judged(
                            self.tool(),
                            self.names()[passed.len() as int],
                            Err(reason),
                        )
                        &&& answer@ == reply::refused(reason@)
                    },
            },
    {
        let ghost all = self.names.deep_view();
        let mut policies: Vec<Arc<SecurityPolicy>> = Vec::new();
        let mut i: usize = 0;
        while i < self.names.len()
            invariant
                i <= self.names.len(),
                i == policies.len(),
                all == self.names.deep_view(),
                all == self.names(),
                *self.tool == self.tool(),
                steps.callable(),
                all_judged(*steps, self.tool(), all.take(i as int), policies@),
            decreases self.names.len() - i,
        {
            assert(all[i as int] == self.names[i as int]@);
            let ghost before = policies@;
            match steps.judge_target(self.tool, &self.names[i]) {
                Ok(policy) => {
                    policies.push(policy);
                    assert(all_judged(*steps, self.tool(), all.take(i + 1), policies@)) by {
                        assert forall|k: int| 0 <= k < policies@.len() implies steps.judged(
                            self.tool(),
                            #[trigger] all.take(i + 1)[k],
                            Ok(policies@[k]),
                        ) by {
                            if k < i {
                                assert(all.take(i as int)[k] == all[k]);
                                assert(policies@[k] == before[k]);
                            }
                        }
                    }
                },
                Err(reason) => {
                    assert(all_judged(*steps, self.tool(), all.take(before.len() as int), before));
                    assert(steps.judged(self.tool(), all[before.len() as int], Err(reason)));
                    return Err(ToolResult::refusal(reason));
                },
            }
            i += 1;
        }
        assert(all.take(all.len() as int) =~= all);
        let ParallelPlan { tool, names, prompt } = self;
        Ok(ClearedPlan { tool, names, prompt, policies })
    }
}

/// Whether the guard let every agent of a list pass, and these are the policies
/// that they run under, in order.
pub open spec fn all_judged<R, B, P, X, C>(
    steps: GuardSteps<R, B, P, X, C>,
    tool: DelegateTool,
    names: Seq<Seq<char>>,
    policies: Seq<Arc<SecurityPolicy>>,
) -> bool where
    R: Fn(&Config, &str) -> Result<SecurityPolicy, String>,
    B: Fn(&Config, &str, &str, &str) -> SecurityPolicy,
    P: Fn(&Config, &str, SecurityPolicy) -> SecurityPolicy,
    X: Fn(&SecurityPolicy, &SecurityPolicy) -> Option<String>,
    C: Fn(&str) -> Option<String>,
 {
    &&& policies.len() == names.len()
    &&& forall|i: int|
        0 <= i < names.len() ==> steps.judged(tool, #[trigger] names[i], Ok(policies[i]))
}

/// A list of agents all of which the guard let pass. Only such a list can be run.
pub struct ClearedPlan<'a> {
    tool: &'a DelegateTool,
    names: Vec<String>,
    prompt: String,
    policies: Vec<Arc<SecurityPolicy>>,
}

impl<'a> ClearedPlan<'a> {
    /// The tool that the request came to.
    pub closed spec fn tool(self) -> DelegateTool {
        *self.tool
    }

    /// The agents, in order.
    pub closed spec fn names(self) -> Seq<Seq<char>> {
        self.names.deep_view()
    }

    /// The prompt that every agent is given.
    pub closed spec fn prompt(self) -> Seq<char> {
        self.prompt@
    }

    /// The policies of the agents, in order.
    pub closed spec fn policies(self) -> Seq<Arc<SecurityPolicy>> {
        self.policies@
    }

    #[verifier::type_invariant]
    spec fn inv(self) -> bool {
        self.policies@.len() == self.names@.len()
    }

    /// The agents, in order.
    pub fn agents(&self) -> (r: &Vec<String>)
        ensures
            r.deep_view() == self.names(),
            self.policies().len() == self.names().len(),
    {
        proof {
            use_type_invariant(self);
        }
        &self.names
    }

    /// The prompt that every agent is given.
    pub fn shared_prompt(&self) -> (r: &String)
        ensures
            r@ == self.prompt(),
    {
        &self.prompt
    }

    /// The tool under which the run of an agent goes on: that of the request
    /// with the agent's policy.
    pub fn worker(&self, i: usize) -> (r: DelegateTool)
        requires
            i < self.names().len(),
        ensures
            crate::tasks::is_worker(r, self.tool(), self.policies()[i as int]),
    {
        proof {
            use_type_invariant(self);
        }
        self.tool.worker(Arc::clone(&self.policies[i]))
    }

    /// The answer to the request, given what became of each agent, in the order
    /// of the list.
    pub fn finish(&self, outcomes: &Vec<AgentOutcome>) -> (r: ToolResult)
        requires
            outcomes.len() == self.names().len(),
        ensures
            r@ == parallel_reply(self.names(), outcomes@),
    {
        finish_parallel(&self.names, outcomes)
    }
}

/// What became of one agent of a list.
pub enum AgentOutcome {
    /// It gave an answer.
    Answered(ToolResult),
    /// It broke off.
    Broken(String),
    /// Its run was lost.
    Lost(String),
}

/// Whether an agent did what was asked.
pub open spec fn succeeded(outcome: AgentOutcome) -> bool {
    outcome matches AgentOutcome::Answered(result) && result.success
}

/// `true` or `false`.
pub open spec fn bool_text(b: bool) -> Seq<char> {
    if b {
        "true"@
    } else {
        "false"@
    }
}

/// What the answer says of one agent.
pub open spec fn outcome_text(agent: Seq<char>, outcome: AgentOutcome) -> Seq<char> {
    match outcome {
        AgentOutcome::Answered(result) => "--- "@ + agent + " (success="@ + bool_text(
            result.success,
        ) + ") ---\n"@ + result.output@ + (match result.error {
            Some(e) => "\nError: "@ + e@,
            None => seq![],
        }),
        AgentOutcome::Broken(error) => "--- "@ + agent + " (success=false) ---\nError: "@ + error@,
        AgentOutcome::Lost(error) => "--- [join error] ---\n"@ + error@,
    }
}

/// What the answer says of a list of agents: one section for each, in order.
pub open spec fn outcome_texts(agents: Seq<Seq<char>>, outcomes: Seq<AgentOutcome>) -> Seq<
    Seq<char>,
> {
    Seq::new(agents.len(), |i: int| outcome_text(agents[i], outcomes[i]))
}

/// Whether every agent did what was asked.
pub open spec fn all_succeeded(outcomes: Seq<AgentOutcome>) -> bool {
    forall|i: int| 0 <= i < outcomes.len() ==> succeeded(#[trigger] outcomes[i])
}

/// The answer to a list of agents.
pub open spec fn parallel_reply(
    agents: Seq<Seq<char>>,
    outcomes: Seq<AgentOutcome>,
) -> reply::Reply {
    reply::Reply {
        success: all_succeeded(outcomes),
        output: "[Parallel delegation: "@ + text::decimal(agents.len()) + " agents]\n\n"@
            + text::joined(outcome_texts(agents, outcomes), "\n\n"@),
        error: if all_succeeded(outcomes) {
            None
        } else {
            Some("One or more parallel agents failed"@)
        },
    }
}

/// What the answer says of one agent.
fn describe(agent: &str, outcome: &AgentOutcome) -> (r: String)
    ensures
        r@ == outcome_text(agent@, *outcome),
{
    match outcome {
        AgentOutcome::Answered(result) => {
            let mut out = "--- ".to_owned();
            out.append(agent);
            out.append(" (success=");
            if result.success {
                out.append("true");
            } else {
                out.append("false");
            }
            out.append(") ---\n");
            out.append(&result.output);
            let mut tail = String::new();
            if let Some(e) = &result.error {
                tail = "\nError: ".to_owned();
                tail.append(e);
            }
            assert(tail@ =~= (match result.error {
                Some(e) => "\nError: "@ + e@,
                None => seq![],
            }));
            out.append(&tail);
            out
        },
        AgentOutcome::Broken(error) => {
            let mut out = "--- ".to_owned();
            out.append(agent);
            out.append(" (success=false) ---\nError: ");
            out.append(error);
            out
        },
        AgentOutcome::Lost(error) => {
            let mut out = "--- [join error] ---\n".to_owned();
            out.append(error);
            out
        },
    }
}

/// The answer to a list of agents, given what became of each, in order.
fn finish_parallel(agents: &Vec<String>, outcomes: &Vec<AgentOutcome>) -> (r: ToolResult)
    requires
        outcomes.len() == agents.len(),
    ensures
        r@ == parallel_reply(agents.deep_view(), outcomes@),
{
    let ghost names = agents.deep_view();
    let ghost all = outcome_texts(names, outcomes@);
    let mut texts: Vec<String> = Vec::new();
    let mut all_success = true;
    let mut i: usize = 0;
    while i < outcomes.len()
        invariant
            i <= outcomes.len(),
            outcomes.len() == agents.len(),
            names == agents.deep_view(),
            all == outcome_texts(names, outcomes@),
            texts.deep_view() == all.take(i as int),
            all_success == forall|k: int| 0 <= k < i ==> succeeded(#[trigger] outcomes[k]),
        decreases outcomes.len() - i,
    {
        let ghost before = texts.deep_view();
        let outcome = &outcomes[i];
        let ok = match outcome {
            AgentOutcome::Answered(result) => result.success,
            _ => false,
        };
        assert(ok == succeeded(outcomes[i as int]));
        if !ok {
            all_success = false;
        }
        assert(names[i as int] == agents[i as int]@);
        texts.push(describe(&agents[i], outcome));
        assert(texts.deep_view() =~= before.push(all[i as int]));
        assert(all.take(i + 1) =~= all.take(i as int).push(all[i as int]));
        i += 1;
    }
    assert(all.take(outcomes.len() as int) =~= all);
    let mut output = "[Parallel delegation: ".to_owned();
    let shown = text::to_decimal(agents.len() as u64);
    output.append(&shown);
    output.append(" agents]\n\n");
    let body = text::join(&texts, "\n\n");
    output.append(&body);
    ToolResult {
        success: all_success,
        output,
        error: if all_success {
            None
        } else {
            Some("One or more parallel agents failed".to_owned())
        },
    }
}

/// The names in a list of agents.
fn read_agent_names(items: &Vec<Option<String>>) -> (r: Vec<String>)
    ensures
        r.deep_view() == agent_names(arguments::item_texts(items@)),
{
    let ghost all = arguments::item_texts(items@);
    let mut names: Vec<String> = Vec::new();
    let mut i: usize = 0;
    assert(names.deep_view() =~= agent_names(all.take(0)));
    while i < items.len()
        invariant
            i <= items.len(),
            all == arguments::item_texts(items@),
            names.deep_view() == agent_names(all.take(i as int)),
        decreases items.len() - i,
    {
        let ghost next = all.take(i + 1);
        let ghost before = names.deep_view();
        assert(next.drop_last() =~= all.take(i as int));
        assert(next.last() == text::optional(items[i as int]));
        if let Some(item) = &items[i] {
            let name = text::trim(item);
            if name.unicode_len() > 0 {
                names.push(name.to_owned());
                assert(names.deep_view() =~= before.push(name@));
            }
        }
        i += 1;
    }
    assert(all.take(all.len() as int) =~= all);
    names
}

/// Whether `r` is the plan for a list of agents; a complaint where the call has
/// no prompt; or the refusal of the list.
pub open spec fn plans_list(
    tool: DelegateTool,
    items: Seq<Option<Seq<char>>>,
    call: CallTexts,
    r: Result<Step<ParallelPlan>, String>,
) -> bool {
    match call.prompt {
        None => r matches Err(e) && e@ == "Missing 'prompt' parameter for parallel execution"@,
        Some(prompt) => match (list_refusal(tool, items, text::trimmed(prompt)), r) {
            (None, Ok(Step::Go(plan))) => {
                &&& plan.tool() == tool
                &&& plan.names() == agent_names(items)
                &&& plan.prompt() == text::trimmed(prompt)
            },
            (Some(reason), Ok(Step::Answer(answer))) => answer@ == reply::refused(reason),
            _ => false,
        },
    }
}

impl DelegateTool {
    /// Plans the run of a list of agents. Nothing is run unless every agent of
    /// the list is known.
    pub fn execute_parallel<'a>(&'a self, items: &Vec<Option<String>>, call: &CallArguments) -> (r:
        Result<Step<ParallelPlan<'a>>, String>)
        ensures
            plans_list(*self, arguments::item_texts(items@), call@, r),
    {
        let prompt = match &call.prompt {
            Some(prompt) => text::trim(prompt),
            None => {
                return Err("Missing 'prompt' parameter for parallel execution".to_owned());
            },
        };
        if prompt.unicode_len() == 0 {
            return Ok(
                Step::Answer(
                    ToolResult::refusal("'prompt' parameter must not be empty".to_owned()),
                ),
            );
        }
        let names = read_agent_names(items);
        let ghost all = names.deep_view();
        assert(all.len() == names.len());
        if names.len() == 0 {
            return Ok(
                Step::Answer(
                    ToolResult::refusal(
                        "'parallel' array must contain at least one agent name".to_owned(),
                    ),
                ),
            );
        }
        let ghost unknown = |name: Seq<char>| !self.agents.keys().contains(name);
        let mut i: usize = 0;
        while i < names.len()
            invariant
                i <= names.len(),
                names.len() > 0,
                all == names.deep_view(),
                all == agent_names(arguments::item_texts(items@)),
                call@.prompt is Some,
                prompt@ == text::trimmed(call@.prompt->0),
                prompt@.len() > 0,
                unknown == (|name: Seq<char>| !self.agents.keys().contains(name)),
                forall|k: int| 0 <= k < i ==> !unknown(#[trigger] all[k]),
            decreases names.len() - i,
        {
            assert(all[i as int] == names[i as int]@);
            if !self.agents.contains_key(&names[i]) {
                proof {
                    text::first_match_is(all, unknown, i as int);
                }
                let known = self.agents.names();
                let mut out = "Unknown agent '".to_owned();
                out.append(&names[i]);
                out.append("' in parallel list. Available: ");
                let listed = dispatch::list_agents(&known);
                out.append(&listed);
                return Ok(Step::Answer(ToolResult::refusal(out)));
            }
            i += 1;
        }
        proof {
            text::first_match_is(all, unknown, all.len() as int);
        }
        Ok(Step::Go(ParallelPlan { tool: self, names, prompt: prompt.to_owned() }))
    }
}

/// Every agent of a list that is run is known, and there is at least one.
pub proof fn planned_agents_are_known(
    tool: DelegateTool,
    items: Seq<Option<Seq<char>>>,
    prompt: Seq<char>,
)
    requires
        list_refusal(tool, items, prompt) is None,
    ensures
        agent_names(items).len() > 0,
        forall|i: int|
            0 <= i < agent_names(items).len() ==> tool.agents.keys().contains(
                #[trigger] agent_names(items)[i],
            ),
{
    let names = agent_names(items);
    let unknown = |name: Seq<char>| !tool.agents.keys().contains(name);
    text::first_match_none(names, unknown);
    assert forall|i: int| 0 <= i < names.len() implies tool.agents.keys().contains(
        #[trigger] names[i],
    ) by {
        assert(names.contains(names[i]));
        assert(!unknown(names[i]));
    }
}

/// The answer is a success exactly when every agent succeeded, and says why
/// exactly when one did not.
pub proof fn parallel_succeeds_together(agents: Seq<Seq<char>>, outcomes: Seq<AgentOutcome>)
    ensures
        parallel_reply(agents, outcomes).success <==> all_succeeded(outcomes),
        parallel_reply(agents, outcomes).error is None <==> all_succeeded(outcomes),
        forall|i: int|
            0 <= i < outcomes.len() && !succeeded(#[trigger] outcomes[i])
                ==> !parallel_reply(agents, outcomes).success,
{
}

/// The answer has one section for each agent of the list, in its order.
pub proof fn every_agent_has_its_section(agents: Seq<Seq<char>>, outcomes: Seq<AgentOutcome>, i: int)
    requires
        outcomes.len() == agents.len(),
        0 <= i < agents.len(),
    ensures
        outcome_texts(agents, outcomes).len() == agents.len(),
        outcome_texts(agents, outcomes)[i] == outcome_text(agents[i], outcomes[i]),
        text::occurs_in(
            outcome_text(agents[i], outcomes[i]),
            parallel_reply(agents, outcomes).output,
        ),
{
    let texts = outcome_texts(agents, outcomes);
    let head = "[Parallel delegation: "@ + text::decimal(agents.len()) + " agents]\n\n"@;
    let body = text::joined(texts, "\n\n"@);
    text::part_occurs_in_joined(texts, "\n\n"@, i);
    text::occurs_in_longer(texts[i], body, head, seq![]);
    assert(head + body + seq![] =~= parallel_reply(agents, outcomes).output);
}

} // verus!
