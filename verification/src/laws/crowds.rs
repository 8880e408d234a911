//! Laws of running several agents at once.

use std::sync::Arc;

use vstd::prelude::*;

use crate::arguments;
use crate::arguments::CallArguments;
use crate::delegate::DelegateTool;
use crate::dispatch;
use crate::evidence::GuardSteps;
use crate::laws::policies;
use crate::laws::prompts::says_something;
use crate::laws::tasks::runs_for;
use crate::laws::texts;
use crate::parallel;
use crate::parallel::{AgentOutcome, ClearedPlan, ParallelPlan};
use crate::policy::SecurityPolicy;
use crate::reply::{Step, ToolResult};
use crate::schema::Config;
use crate::text;

verus! {

/// Whether an item of a list names an agent: it is a text that is not blank.
pub open spec fn names_an_agent(item: Option<String>) -> bool {
    item is Some && says_something(item->0@)
}

/// How many of the first `n` items name an agent.
pub open spec fn named_before(items: Seq<Option<String>>, n: int) -> int
    decreases n,
{
    if n <= 0 {
        0
    } else if names_an_agent(items[n - 1]) {
        named_before(items, n - 1) + 1
    } else {
        named_before(items, n - 1)
    }
}

spec fn names_to(items: Seq<Option<String>>, n: int) -> Seq<Seq<char>> {
    parallel::agent_names(arguments::item_texts(items).take(n))
}

proof fn lemma_names_next(items: Seq<Option<String>>, n: int)
    requires
        0 <= n <= items.len(),
    ensures
        names_to(items, n).len() == named_before(items, n),
        n > 0 ==> names_to(items, n) == if names_an_agent(items[n - 1]) {
            names_to(items, n - 1).push(text::trimmed(items[n - 1]->0@))
        } else {
            names_to(items, n - 1)
        },
    decreases n,
{
    let all = arguments::item_texts(items);
    if n > 0 {
        lemma_names_next(items, n - 1);
        assert(all.take(n).drop_last() =~= all.take(n - 1));
        assert(all.take(n).last() == text::optional(items[n - 1]));
        if let Some(item) = items[n - 1] {
            texts::blank_exactly(item@);
        }
    }
}

proof fn lemma_name_at(items: Seq<Option<String>>, n: int, k: int)
    requires
        0 <= k < n <= items.len(),
        names_an_agent(items[k]),
    ensures
        0 <= named_before(items, k) < names_to(items, n).len(),
        names_to(items, n)[named_before(items, k)] == text::trimmed(items[k]->0@),
    decreases n,
{
    lemma_names_next(items, n);
    lemma_names_next(items, k);
    lemma_names_next(items, n - 1);
    if k < n - 1 {
        lemma_name_at(items, n - 1, k);
    }
}

proof fn lemma_name_from(items: Seq<Option<String>>, n: int, j: int) -> (k: int)
    requires
        0 <= n <= items.len(),
        0 <= j < names_to(items, n).len(),
    ensures
        0 <= k < n,
        names_an_agent(items[k]),
        named_before(items, k) == j,
        names_to(items, n)[j] == text::trimmed(items[k]->0@),
    decreases n,
{
    lemma_names_next(items, n);
    if n == 0 {
        assert(names_to(items, 0).len() == 0);
        0
    } else {
        lemma_names_next(items, n - 1);
        if j < names_to(items, n - 1).len() {
            lemma_name_from(items, n - 1, j)
        } else {
            n - 1
        }
    }
}

/// Whether an item names an agent that is known.
pub open spec fn names_a_known_agent(tool: DelegateTool, item: Option<String>) -> bool {
    names_an_agent(item) && tool.agents.lookup(text::trimmed(item->0@)) is Some
}

/// A list of agents is planned exactly when the call gives a prompt that is not
/// blank and the list names at least one agent, and only known ones. The plan has
/// the agents of the list, in order, and the prompt without the whitespace round
/// it. A call without a prompt is an error that names it; anything else is refused.
pub proof fn list_is_planned_whole<'a>(
    tool: &'a DelegateTool,
    items: Vec<Option<String>>,
    call: CallArguments,
    r: Result<Step<ParallelPlan<'a>>, String>,
)
    requires
        call_ensures(DelegateTool::execute_parallel, (tool, &items, &call), r),
    ensures
        r is Err <==> call.prompt is None,
        r is Err ==> text::occurs_in("'prompt'"@, r->Err_0@),
        r is Ok && r->Ok_0 is Go <==> {
            &&& call.prompt is Some
            &&& says_something(call.prompt->0@)
            &&& exists|k: int| 0 <= k < items@.len() && names_an_agent(#[trigger] items@[k])
            &&& forall|k: int|
                0 <= k < items@.len() && names_an_agent(#[trigger] items@[k])
                    ==> names_a_known_agent(*tool, items@[k])
        },
        r is Ok && r->Ok_0 is Go ==> {
            let plan = r->Ok_0->Go_0;
            &&& plan.tool() == *tool
            &&& plan.prompt() == text::trimmed(call.prompt->0@)
            &&& plan.names().len() == named_before(items@, items@.len() as int)
            &&& forall|k: int|
                0 <= k < items@.len() && names_an_agent(#[trigger] items@[k]) ==> {
                    &&& 0 <= named_before(items@, k) < plan.names().len()
                    &&& plan.names()[named_before(items@, k)] == text::trimmed(items@[k]->0@)
                }
        },
        r is Ok && r->Ok_0 is Answer ==> !r->Ok_0->Answer_0.success
            && r->Ok_0->Answer_0.error is Some,
{
    reveal_strlit("Missing 'prompt' parameter for parallel execution");
    reveal_strlit("'prompt'");
    let word = "'prompt'"@;
    assert("Missing 'prompt' parameter for parallel execution"@.subrange(8int, 8int + word.len())
        =~= word);
    let n = items@.len() as int;
    let all = arguments::item_texts(items@);
    assert(all.take(n) =~= all);
    let names = parallel::agent_names(all);
    assert(names == names_to(items@, n));
    lemma_names_next(items@, n);
    let keys = tool.agents.keys();
    let unknown = |name: Seq<char>| !tool.agents.keys().contains(name);
    assert(call@.prompt == text::optional(call.prompt));
    if let Some(prompt) = call.prompt {
        texts::blank_exactly(prompt@);
        let wanted = text::trimmed(prompt@);
        if let Ok(Step::Answer(answer)) = r {
            assert(answer@.success == answer.success);
            assert(answer@.error == text::optional(answer.error));
        }
        if parallel::list_refusal(*tool, all, wanted) is None {
            parallel::planned_agents_are_known(*tool, all, wanted);
            let first = lemma_name_from(items@, n, 0);
            assert(names_an_agent(items@[first]));
        }
        assert forall|k: int| 0 <= k < n && names_an_agent(#[trigger] items@[k]) implies {
            &&& 0 <= named_before(items@, k) < names.len()
            &&& names[named_before(items@, k)] == text::trimmed(items@[k]->0@)
        } by {
            lemma_name_at(items@, n, k);
        }
        if parallel::list_refusal(*tool, all, wanted) is Some && wanted.len() > 0 && names.len()
            > 0 {
            lemma_first_unknown(names, unknown);
            let j = choose|j: int| 0 <= j < names.len() && unknown(#[trigger] names[j]);
            let k = lemma_name_from(items@, n, j);
            assert(!names_a_known_agent(*tool, items@[k]));
        }
        if exists|k: int| 0 <= k < n && names_an_agent(#[trigger] items@[k]) {
            let k = choose|k: int| 0 <= k < n && names_an_agent(#[trigger] items@[k]);
            lemma_name_at(items@, n, k);
        }
    }
}

proof fn lemma_first_unknown(names: Seq<Seq<char>>, bad: spec_fn(Seq<char>) -> bool)
    requires
        text::first_match(names, bad) is Some,
    ensures
        exists|j: int| 0 <= j < names.len() && bad(#[trigger] names[j]),
{
    if forall|j: int| 0 <= j < names.len() ==> !bad(#[trigger] names[j]) {
        text::first_match_is(names, bad, names.len() as int);
    }
}

/// An agent of a list that is not known is named in the answer.
pub proof fn first_unknown_agent_is_named<'a>(
    tool: &'a DelegateTool,
    items: Vec<Option<String>>,
    call: CallArguments,
    answer: ToolResult,
    k: int,
)
    requires
        call_ensures(
            DelegateTool::execute_parallel,
            (tool, &items, &call),
            Ok::<Step<ParallelPlan<'a>>, String>(Step::Answer(answer)),
        ),
        call.prompt is Some,
        says_something(call.prompt->0@),
        0 <= k < items@.len(),
        names_an_agent(items@[k]),
        !names_a_known_agent(*tool, items@[k]),
        forall|j: int|
            0 <= j < k && names_an_agent(#[trigger] items@[j]) ==> names_a_known_agent(
                *tool,
                items@[j],
            ),
    ensures
        answer.error is Some,
        text::occurs_in(text::trimmed(items@[k]->0@), answer.error->0@),
{
    let n = items@.len() as int;
    let all = arguments::item_texts(items@);
    assert(all.take(n) =~= all);
    let names = parallel::agent_names(all);
    assert(names == names_to(items@, n));
    assert(call@.prompt == text::optional(call.prompt));
    texts::blank_exactly(call.prompt->0@);
    let unknown = |name: Seq<char>| !tool.agents.keys().contains(name);
    lemma_name_at(items@, n, k);
    lemma_names_next(items@, n);
    let at = named_before(items@, k);
    assert forall|j: int| 0 <= j < at implies !unknown(#[trigger] names[j]) by {
        let i = lemma_name_from(items@, n, j);
        lemma_monotone(items@, k, i);
        assert(names_a_known_agent(*tool, items@[i]));
    }
    text::first_match_is(names, unknown, at);
    assert(answer@.error == text::optional(answer.error));
    let name = names[at];
    let a = "Unknown agent '"@;
    let b = "' in parallel list. Available: "@;
    let c = dispatch::roster_text(tool.agents.keys());
    texts::stands_within(a, name, b + c);
    assert(a + name + b + c =~= a + name + (b + c));
}

proof fn lemma_monotone(items: Seq<Option<String>>, k: int, i: int)
    requires
        0 <= k < items.len(),
        0 <= i < items.len(),
        names_an_agent(items[i]),
        named_before(items, i) < named_before(items, k),
    ensures
        i < k,
    decreases i - k,
{
    if i >= k {
        lemma_grows(items, k, i);
    }
}

proof fn lemma_grows(items: Seq<Option<String>>, a: int, b: int)
    requires
        0 <= a <= b,
    ensures
        named_before(items, a) <= named_before(items, b),
    decreases b - a,
{
    if a < b {
        lemma_grows(items, a, b - 1);
    }
}

/// A list is cleared only as a whole: each of its agents, in order, then runs, with
/// a configuration, under the policy that its own name resolves to, on the caller's
/// budget. Neither the list nor the prompt changes.
pub proof fn list_is_cleared_whole<'a, R, B, P, X, C>(
    plan: ParallelPlan<'a>,
    steps: GuardSteps<R, B, P, X, C>,
    config: Arc<Config>,
    r: ClearedPlan<'a>,
    i: int,
) where
    R: Fn(&Config, &str) -> Result<SecurityPolicy, String>,
    B: Fn(&Config, &str, &str, &str) -> SecurityPolicy,
    P: Fn(&Config, &str, SecurityPolicy) -> SecurityPolicy,
    X: Fn(&SecurityPolicy, &SecurityPolicy) -> Option<String>,
    C: Fn(&str) -> Option<String>,

    requires
        call_ensures(
            ParallelPlan::clear_all::<R, B, P, X, C>,
            (plan, &steps),
            Ok::<ClearedPlan<'a>, ToolResult>(r),
        ),
        plan.tool().root_config == Some(config),
        0 <= i < plan.names().len(),
    ensures
        r.tool() == plan.tool(),
        r.names() == plan.names(),
        r.prompt() == plan.prompt(),
        r.policies().len() == r.names().len(),
        plan.tool().security.delegation_policy.mode == crate::policy::DelegationMode::Allow,
        exists|name: &str, own: SecurityPolicy|
            {
                &&& name@ == plan.names()[i]
                &&& #[trigger] call_ensures(steps.resolve, (&*config, name), Ok(own))
                &&& *r.policies()[i] == (SecurityPolicy {
                    tracker: plan.tool().security.tracker,
                    ..own
                })
            },
{
    let name = plan.names()[i];
    assert(steps.judged(plan.tool(), name, Ok(r.policies()[i])));
    policies::judged_target_keeps_its_own_policy(
        steps,
        plan.tool(),
        config,
        name,
        r.policies()[i],
    );
}

/// Each agent of a list runs under its own policy, with the tool of the request
/// otherwise; all have the same prompt.
pub proof fn agents_run_under_their_policies<'a>(
    plan: ClearedPlan<'a>,
    agents: &Vec<String>,
    prompt: &String,
    i: usize,
    worker: DelegateTool,
)
    requires
        call_ensures(ClearedPlan::agents, (&plan,), agents),
        call_ensures(ClearedPlan::shared_prompt, (&plan,), prompt),
        call_ensures(ClearedPlan::worker, (&plan, i), worker),
        i < agents@.len(),
    ensures
        agents@.len() == plan.names().len(),
        agents@[i as int]@ == plan.names()[i as int],
        prompt@ == plan.prompt(),
        runs_for(worker, plan.tool(), plan.policies()[i as int]),
{
    assert(agents.deep_view().len() == agents@.len());
    assert(agents.deep_view()[i as int] == agents@[i as int]@);
}

/// Whether an agent gave an answer that is a success.
pub open spec fn did_succeed(outcome: AgentOutcome) -> bool {
    outcome is Answered && outcome->Answered_0.success
}

/// A list is answered with a success exactly when each of its agents succeeded.
pub proof fn list_succeeds_together<'a>(
    plan: ClearedPlan<'a>,
    outcomes: Vec<AgentOutcome>,
    r: ToolResult,
)
    requires
        call_ensures(ClearedPlan::finish, (&plan, &outcomes), r),
        outcomes@.len() == plan.names().len(),
    ensures
        r.success <==> forall|i: int|
            0 <= i < outcomes@.len() ==> did_succeed(#[trigger] outcomes@[i]),
        r.error is None <==> r.success,
{
    assert(r@.success == r.success && r@.error == text::optional(r.error));
    let all = outcomes@;
    if parallel::all_succeeded(all) {
        assert forall|i: int| 0 <= i < all.len() implies did_succeed(#[trigger] all[i]) by {
            assert(parallel::succeeded(all[i]));
        }
    }
    if forall|i: int| 0 <= i < all.len() ==> did_succeed(#[trigger] all[i]) {
        assert forall|i: int| 0 <= i < all.len() implies parallel::succeeded(#[trigger] all[i]) by {
            assert(did_succeed(all[i]));
        }
    }
}

/// What the answer says of an agent: its name, whether it succeeded, what it put out
/// and what went wrong.
pub open spec fn tells_of(output: Seq<char>, agent: Seq<char>, outcome: AgentOutcome) -> bool {
    match outcome {
        AgentOutcome::Answered(answer) => {
            let head = "--- "@ + agent + " (success="@ + (if answer.success {
                "true"@
            } else {
                "false"@
            }) + ") ---\n"@ + answer.output@;
            if answer.error is Some {
                text::occurs_in(head + ("\nError: "@ + answer.error->0@), output)
            } else {
                text::occurs_in(head, output)
            }
        },
        AgentOutcome::Broken(error) => text::occurs_in(
            "--- "@ + agent + " (success=false) ---\nError: "@ + error@,
            output,
        ),
        AgentOutcome::Lost(error) => text::occurs_in("--- [join error] ---\n"@ + error@, output),
    }
}

/// The answer to a list tells of each of its agents.
pub proof fn list_tells_of_every_agent<'a>(
    plan: ClearedPlan<'a>,
    outcomes: Vec<AgentOutcome>,
    r: ToolResult,
    i: int,
)
    requires
        call_ensures(ClearedPlan::finish, (&plan, &outcomes), r),
        outcomes@.len() == plan.names().len(),
        0 <= i < outcomes@.len(),
    ensures
        tells_of(r.output@, plan.names()[i], outcomes@[i]),
        ("[Parallel delegation: "@ + text::decimal(plan.names().len()) + " agents]\n\n"@).is_prefix_of(
            r.output@,
        ),
{
    assert(r@.output == r.output@);
    parallel::every_agent_has_its_section(plan.names(), outcomes@, i);
    let head = "[Parallel delegation: "@ + text::decimal(plan.names().len()) + " agents]\n\n"@;
    let body = text::joined(parallel::outcome_texts(plan.names(), outcomes@), "\n\n"@);
    assert(r.output@ == head + body);
    assert(head.is_prefix_of(head + body));
    let agent = plan.names()[i];
    if let AgentOutcome::Answered(answer) = outcomes@[i] {
        let shown = "--- "@ + agent + " (success="@ + parallel::bool_text(answer.success)
            + ") ---\n"@ + answer.output@;
        if answer.error is None {
            assert(shown + seq![] =~= shown);
        }
    }
}

/// The agents of a list are told of in its order: one more agent at the end adds its
/// part behind the others.
pub proof fn parts_follow_the_list(
    agents: Seq<Seq<char>>,
    outcomes: Seq<AgentOutcome>,
    agent: Seq<char>,
    outcome: AgentOutcome,
)
    requires
        agents.len() == outcomes.len(),
    ensures
        parallel::outcome_texts(agents.push(agent), outcomes.push(outcome))
            == parallel::outcome_texts(agents, outcomes).push(
            parallel::outcome_text(agent, outcome),
        ),
{
    assert(parallel::outcome_texts(agents.push(agent), outcomes.push(outcome))
        =~= parallel::outcome_texts(agents, outcomes).push(parallel::outcome_text(agent, outcome)));
}

/// A list of which one agent is refused is refused as a whole, with the reason that
/// the guard gives for that agent.
pub proof fn one_refusal_ends_the_list<'a, R, B, P, X, C>(
    plan: ParallelPlan<'a>,
    steps: GuardSteps<R, B, P, X, C>,
    answer: ToolResult,
) where
    R: Fn(&Config, &str) -> Result<SecurityPolicy, String>,
    B: Fn(&Config, &str, &str, &str) -> SecurityPolicy,
    P: Fn(&Config, &str, SecurityPolicy) -> SecurityPolicy,
    X: Fn(&SecurityPolicy, &SecurityPolicy) -> Option<String>,
    C: Fn(&str) -> Option<String>,

    requires
        call_ensures(
            ParallelPlan::clear_all::<R, B, P, X, C>,
            (plan, &steps),
            Err::<ClearedPlan<'a>, ToolResult>(answer),
        ),
    ensures
        !answer.success,
        exists|i: int, reason: String|
            {
                &&& 0 <= i < plan.names().len()
                &&& #[trigger] steps.judged(plan.tool(), plan.names()[i], Err(reason))
                &&& text::optional(answer.error) == Some(reason@)
            },
{
    assert(answer@.success == answer.success && answer@.error == text::optional(answer.error));
    let (passed, reason) = choose|passed: Seq<Arc<SecurityPolicy>>, reason: String|
        {
            &&& passed.len() < plan.names().len()
            &&& #[trigger] parallel::all_judged(
                steps,
                plan.tool(),
                plan.names().take(passed.len() as int),
                passed,
            )
            &&& #[trigger] steps.judged(
                plan.tool(),
                plan.names()[passed.len() as int],
                Err(reason),
            )
            &&& answer@ == crate::reply::refused(reason@)
        };
    let i = passed.len() as int;
    assert(steps.judged(plan.tool(), plan.names()[i], Err(reason)));
}

/// Without a configuration every list is cleared, and each agent runs under the
/// caller's policy.
pub proof fn without_configuration_every_list_is_cleared<'a, R, B, P, X, C>(
    plan: ParallelPlan<'a>,
    steps: GuardSteps<R, B, P, X, C>,
    r: Result<ClearedPlan<'a>, ToolResult>,
    i: int,
) where
    R: Fn(&Config, &str) -> Result<SecurityPolicy, String>,
    B: Fn(&Config, &str, &str, &str) -> SecurityPolicy,
    P: Fn(&Config, &str, SecurityPolicy) -> SecurityPolicy,
    X: Fn(&SecurityPolicy, &SecurityPolicy) -> Option<String>,
    C: Fn(&str) -> Option<String>,

    requires
        call_ensures(ParallelPlan::clear_all::<R, B, P, X, C>, (plan, &steps), r),
        plan.tool().root_config is None,
    ensures
        r is Ok,
        r->Ok_0.tool() == plan.tool(),
        r->Ok_0.names() == plan.names(),
        r->Ok_0.prompt() == plan.prompt(),
        0 <= i < plan.names().len() ==> r->Ok_0.policies()[i] == plan.tool().security,
{
    if r is Ok && 0 <= i < plan.names().len() {
        assert(steps.judged(plan.tool(), plan.names()[i], Ok(r->Ok_0.policies()[i])));
    }
}

} // verus!
