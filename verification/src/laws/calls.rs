//! Laws of tool calls: what is read from them, what they ask for, and what is
//! offered to those who make them.

use std::sync::Arc;

use vstd::prelude::*;

use crate::arguments;
use crate::arguments::{CallArguments, Request};
use crate::delegate::DelegateTool;
use crate::dispatch;
use crate::guard::GuardEvidence;
use crate::laws::policies::{lemma_lists, lists};
use crate::laws::prompts::says_something;
use crate::laws::texts;
use crate::policy::DelegationMode;
use crate::reply::ToolResult;
use crate::roster;
use crate::roster::{Parameter, ParameterType, ParametersSchema};
use crate::schema::Config;
use crate::table::AliasTable;
use crate::text;

verus! {

/// Whether a text is what a member of an object gives, if it is a string.
pub open spec fn is_text_member(
    args: serde_json::Value,
    key: Seq<char>,
    r: Option<String>,
) -> bool {
    match r {
        Some(s) => arguments::text_members(args).contains_pair(key, s@),
        None => !arguments::text_members(args).contains_key(key),
    }
}

/// Every argument is read from the member of its name.
pub proof fn arguments_are_read_by_name(args: serde_json::Value, r: CallArguments)
    requires
        call_ensures(arguments::read_arguments, (&args,), r),
    ensures
        is_text_member(args, "action"@, r.action),
        is_text_member(args, "agent"@, r.agent),
        is_text_member(args, "prompt"@, r.prompt),
        is_text_member(args, "context"@, r.context),
        is_text_member(args, "task_id"@, r.task_id),
        match r.background {
            Some(b) => arguments::flag_members(args).contains_pair("background"@, b),
            None => !arguments::flag_members(args).contains_key("background"@),
        },
        match r.parallel {
            Some(items) => arguments::list_members(args).contains_pair(
                "parallel"@,
                arguments::item_texts(items@),
            ),
            None => !arguments::list_members(args).contains_key("parallel"@),
        },
{
    assert(r@.action == text::optional(r.action) && r@.agent == text::optional(r.agent));
    assert(r@.prompt == text::optional(r.prompt) && r@.context == text::optional(r.context));
    assert(r@.task_id == text::optional(r.task_id));
}

/// The items of a list are the texts of those that have one.
pub proof fn items_are_their_texts(items: Seq<Option<String>>, i: int)
    requires
        0 <= i < items.len(),
    ensures
        arguments::item_texts(items).len() == items.len(),
        items[i] matches Some(s) ==> arguments::item_texts(items)[i] == Some(s@),
        items[i] is None ==> arguments::item_texts(items)[i] is None,
{
}

/// The context of a call is what it gives, without the whitespace round it.
pub proof fn context_is_trimmed(call: CallArguments, r: String)
    requires
        call_ensures(arguments::read_context, (&call,), r),
    ensures
        call.context matches Some(context) ==> r@ == text::trimmed(context@),
        call.context is None ==> r@.len() == 0,
{
    assert(call@.context == text::optional(call.context));
}

/// Whether a request is refused for a reason.
pub open spec fn is_refused(r: Result<Request, String>, reason: Seq<char>) -> bool {
    &&& r is Ok
    &&& r->Ok_0 is Answer
    &&& !r->Ok_0->Answer_0.success
    &&& text::optional(r->Ok_0->Answer_0.error) == Some(reason)
}

/// The actions that a call can name.
pub open spec fn actions() -> Seq<Seq<char>> {
    seq!["delegate"@, "check_result"@, "list_results"@, "cancel_task"@]
}

proof fn lemma_actions()
    ensures
        actions().no_duplicates(),
        actions().len() == 4,
{
    reveal_strlit("delegate");
    reveal_strlit("check_result");
    reveal_strlit("list_results");
    reveal_strlit("cancel_task");
    assert("delegate"@.len() == 8);
    assert("check_result"@.len() == 12 && "check_result"@[0] == 'c');
    assert("list_results"@.len() == 12 && "list_results"@[0] == 'l');
    assert("cancel_task"@.len() == 11);
    let a = actions();
    assert(a[0] == "delegate"@ && a[1] == "check_result"@);
    assert(a[2] == "list_results"@ && a[3] == "cancel_task"@);
    assert forall|i: int, j: int| 0 <= i < a.len() && 0 <= j < a.len() && i != j implies a[i]
        != a[j] by {}
}

/// A call does what the action says that it names; one that names none delegates.
/// An action that there is not is refused, by name.
pub proof fn action_says_what_is_asked(call: CallArguments, r: Result<Request, String>)
    requires
        call_ensures(arguments::route, (&call,), r),
    ensures
        call.action matches Some(action) ==> {
            &&& action@ == "check_result"@ <==> r is Ok && r->Ok_0 is CheckResult
            &&& action@ == "list_results"@ <==> r is Ok && r->Ok_0 is ListResults
            &&& action@ == "cancel_task"@ <==> r is Ok && r->Ok_0 is CancelTask
            &&& !actions().contains(action@) ==> {
                &&& r is Ok
                &&& r->Ok_0 is Answer
                &&& !r->Ok_0->Answer_0.success
                &&& r->Ok_0->Answer_0.error is Some
                &&& text::occurs_in(action@, r->Ok_0->Answer_0.error->0@)
            }
        },
        call.action is None ==> r is Err || r->Ok_0 is Parallel || r->Ok_0 is Background
            || r->Ok_0 is Sync || r->Ok_0 is Answer,
{
    lemma_actions();
    lemma_call(call);
    let a = actions();
    assert(a[0] == "delegate"@ && a[1] == "check_result"@);
    assert(a[2] == "list_results"@ && a[3] == "cancel_task"@);
    if let Ok(request) = r {
        lemma_request(request);
    }
    if let Some(action) = call.action {
        texts::stands_within(
            "Unknown action '"@,
            action@,
            "'. Use delegate/check_result/list_results/cancel_task."@,
        );
        if a.contains(action@) {
            let i = a.index_of(action@);
            assert(a[i] == action@);
        } else {
            assert(a.contains(a[0]) && a.contains(a[1]) && a.contains(a[2]) && a.contains(a[3]));
        }
    } else {
        assert(a[0] != a[1] && a[0] != a[2] && a[0] != a[3]);
    }
}

proof fn lemma_call(call: CallArguments)
    ensures
        call@.action == text::optional(call.action),
        call@.agent == text::optional(call.agent),
        call@.prompt == text::optional(call.prompt),
        call@.context == text::optional(call.context),
        call@.task_id == text::optional(call.task_id),
        call@.background == call.background,
        call@.parallel is Some <==> call.parallel is Some,
        call.parallel matches Some(items) ==> call@.parallel == Some(
            arguments::item_texts(items@),
        ),
{
}

proof fn lemma_request(request: Request)
    ensures
        request is Answer ==> request@ == arguments::Asked::Answer(request->Answer_0@)
            && request->Answer_0@.success == request->Answer_0.success
            && request->Answer_0@.error == text::optional(request->Answer_0.error),
        request is Answer <==> request@ is Answer,
        request is CheckResult <==> request@ is CheckResult,
        request is ListResults <==> request@ is ListResults,
        request is CancelTask <==> request@ is CancelTask,
        request is Parallel <==> request@ is Parallel,
        request is Background <==> request@ is Background,
        request is Sync <==> request@ is Sync,
{
}

/// A call that delegates runs the agents of its list, where it gives one. Else it
/// runs the agent that it names on the prompt that it gives, in the background
/// exactly where it says so, both without the whitespace round them. One that
/// lacks either is an error that names it; one in which either is blank is
/// refused.
pub proof fn delegation_runs_what_is_named(call: CallArguments, r: Result<Request, String>)
    requires
        call_ensures(arguments::route, (&call,), r),
        call.action matches Some(action) ==> action@ == "delegate"@,
    ensures
        call.parallel matches Some(items) ==> {
            &&& r is Ok
            &&& r->Ok_0 is Parallel
            &&& arguments::item_texts(r->Ok_0->agents@) == arguments::item_texts(items@)
        },
        call.parallel is None ==> {
            &&& call.agent is None ==> r is Err && text::occurs_in("'agent'"@, r->Err_0@)
            &&& call.agent matches Some(agent) ==> {
                &&& !says_something(agent@) ==> is_refused(
                    r,
                    "'agent' parameter must not be empty"@,
                )
                &&& says_something(agent@) && call.prompt is None ==> r is Err && text::occurs_in(
                    "'prompt'"@,
                    r->Err_0@,
                )
                &&& says_something(agent@) ==> (call.prompt matches Some(prompt) ==> {
                    &&& !says_something(prompt@) ==> is_refused(
                        r,
                        "'prompt' parameter must not be empty"@,
                    )
                    &&& says_something(prompt@) && call.background == Some(true) ==> {
                        &&& r is Ok
                        &&& r->Ok_0 is Background
                        &&& r->Ok_0->Background_agent@ == text::trimmed(agent@)
                        &&& r->Ok_0->Background_prompt@ == text::trimmed(prompt@)
                    }
                    &&& says_something(prompt@) && call.background != Some(true) ==> {
                        &&& r is Ok
                        &&& r->Ok_0 is Sync
                        &&& r->Ok_0->Sync_agent@ == text::trimmed(agent@)
                        &&& r->Ok_0->Sync_prompt@ == text::trimmed(prompt@)
                    }
                })
            }
        },
{
    lemma_actions();
    lemma_call(call);
    let a = actions();
    assert(a[0] == "delegate"@ && a[1] == "check_result"@);
    assert(a[2] == "list_results"@ && a[3] == "cancel_task"@);
    assert(a[0] != a[1] && a[0] != a[2] && a[0] != a[3]);
    if let Ok(request) = r {
        lemma_request(request);
    }
    if let Some(agent) = call.agent {
        texts::blank_exactly(agent@);
    }
    if let Some(prompt) = call.prompt {
        texts::blank_exactly(prompt@);
    }
    reveal_strlit("Missing 'agent' parameter");
    reveal_strlit("Missing 'prompt' parameter");
    reveal_strlit("'agent'");
    reveal_strlit("'prompt'");
    assert("Missing 'agent' parameter"@.subrange(8int, 8int + "'agent'"@.len()) =~= "'agent'"@);
    assert("Missing 'prompt' parameter"@.subrange(8int, 8int + "'prompt'"@.len())
        =~= "'prompt'"@);
}

/// A tool call asks for what its arguments ask for.
pub proof fn call_asks_what_its_arguments_ask(
    tool: DelegateTool,
    args: serde_json::Value,
    call: CallArguments,
    r: Result<Request, String>,
    routed: Result<Request, String>,
)
    requires
        call_ensures(DelegateTool::execute, (&tool, &args), r),
        call_ensures(arguments::read_arguments, (&args,), call),
        call_ensures(arguments::route, (&call,), routed),
    ensures
        r is Ok <==> routed is Ok,
        r is Ok ==> r->Ok_0@ == routed->Ok_0@,
        r is Err ==> r->Err_0@ == routed->Err_0@,
{
}

/// What a refusal and a result are answered.
pub proof fn answers_succeed_or_say_why(
    reason: String,
    output: String,
    refusal: ToolResult,
    product: ToolResult,
)
    requires
        call_ensures(ToolResult::refusal, (reason,), refusal),
        call_ensures(ToolResult::product, (output,), product),
    ensures
        !refusal.success,
        refusal.output@.len() == 0,
        text::optional(refusal.error) == Some(reason@),
        product.success,
        product.output@ == output@,
        product.error is None,
{
    assert(refusal@.success == refusal.success && refusal@.output == refusal.output@);
    assert(refusal@.error == text::optional(refusal.error));
    assert(product@.success == product.success && product@.output == product.output@);
    assert(product@.error == text::optional(product.error));
}

/// Agents are offered in order, each once.
pub proof fn offers_are_in_order(
    tool: DelegateTool,
    evidence: AliasTable<GuardEvidence>,
    r: Vec<String>,
    i: int,
    j: int,
)
    requires
        call_ensures(DelegateTool::roster, (&tool, &evidence), r),
        0 <= i < j < r@.len(),
    ensures
        text::text_le(r@[i]@, r@[j]@),
        r@[i]@ != r@[j]@,
{
    let names = r.deep_view();
    assert(names.len() == r@.len());
    assert(names[i] == r@[i]@ && names[j] == r@[j]@);
}

/// With a configuration, an agent is offered exactly when the caller may delegate,
/// the agent is known and another than the caller, and the guard lets it pass.
pub proof fn offered_exactly_if_the_guard_agrees(
    tool: DelegateTool,
    evidence: AliasTable<GuardEvidence>,
    r: Vec<String>,
    config: Arc<Config>,
    name: &str,
    found: Option<&GuardEvidence>,
    decided: Result<(), String>,
)
    requires
        call_ensures(DelegateTool::roster, (&tool, &evidence), r),
        tool.root_config == Some(config),
        call_ensures(AliasTable::<GuardEvidence>::get, (&evidence, name), found),
        call_ensures(
            DelegateTool::cross_profile_decision,
            (&tool, &*config, name, found),
            decided,
        ),
    ensures
        lists(r, name@) <==> {
            &&& tool.security.delegation_policy.mode == DelegationMode::Allow
            &&& tool.agents.lookup(name@) is Some
            &&& name@ != tool.caller_alias@
            &&& decided is Ok
        },
{
    lemma_lists(r, name@);
    assert(roster::offered(tool, &evidence, name@) == r.deep_view().contains(name@));
    assert(roster::evidence_for(&evidence, name@) == found);
}

/// Without a configuration, an agent is offered exactly when the caller may
/// delegate, and the agent is another than the caller and on its risk profile.
pub proof fn offered_on_the_same_profile(
    tool: DelegateTool,
    evidence: AliasTable<GuardEvidence>,
    r: Vec<String>,
    name: Seq<char>,
)
    requires
        call_ensures(DelegateTool::roster, (&tool, &evidence), r),
        tool.root_config is None,
    ensures
        lists(r, name) <==> {
            &&& tool.security.delegation_policy.mode == DelegationMode::Allow
            &&& tool.agents.lookup(name) is Some
            &&& name != tool.caller_alias@
            &&& text::trimmed(tool.agents.lookup(name)->0.risk_profile@)
                == tool.security.risk_profile_name@
        },
{
    lemma_lists(r, name);
    assert(roster::offered(tool, &evidence, name) == r.deep_view().contains(name));
}

/// Whether a parameter is a text without choices or defaults.
pub open spec fn is_plain_text(p: Parameter, name: Seq<char>, min_length: Option<u64>) -> bool {
    &&& p.name@ == name
    &&& p.kind == ParameterType::Text
    &&& p.min_length == min_length
    &&& p.choices@.len() == 0
    &&& p.default_text is None
    &&& p.default_flag is None
}

/// The tool takes seven parameters, none of which every call has to give, and no
/// others. An action is one of the actions that there are, `delegate` where none is
/// given; agent and prompt are not empty; a call runs in the foreground unless it
/// says otherwise.
pub proof fn parameters_are_those_that_are_read(
    tool: DelegateTool,
    evidence: AliasTable<GuardEvidence>,
    r: ParametersSchema,
)
    requires
        call_ensures(DelegateTool::parameters_schema, (&tool, &evidence), r),
    ensures
        r.required@.len() == 0,
        !r.additional_properties,
        r.properties@.len() == 7,
        r.properties@[0].name@ == "action"@,
        r.properties@[0].kind == ParameterType::Text,
        r.properties@[0].min_length is None,
        r.properties@[0].choices@.len() == 4,
        forall|i: int|
            0 <= i < 4 ==> (#[trigger] r.properties@[0].choices@[i])@ == actions()[i],
        r.properties@[0].default_text is Some,
        r.properties@[0].default_text->0@ == actions()[0],
        r.properties@[0].default_flag is None,
        is_plain_text(r.properties@[1], "agent"@, Some(1)),
        is_plain_text(r.properties@[2], "prompt"@, Some(1)),
        is_plain_text(r.properties@[3], "context"@, None),
        r.properties@[4].name@ == "background"@,
        r.properties@[4].kind == ParameterType::Flag,
        r.properties@[4].default_flag == Some(false),
        r.properties@[5].name@ == "parallel"@,
        r.properties@[5].kind == ParameterType::TextList,
        is_plain_text(r.properties@[6], "task_id"@, None),
{
    let names = choose|names: Seq<Seq<char>>|
        #[trigger] roster::is_roster(tool, &evidence, names) && r@ == roster::schema_for(names);
    let shown = r@.properties;
    assert(shown == roster::parameters_for(names));
    assert(shown.len() == r.properties@.len());
    assert(r@.required.len() == r.required@.len());
    lemma_parameter(r.properties@[0]);
    lemma_parameter(r.properties@[1]);
    lemma_parameter(r.properties@[2]);
    lemma_parameter(r.properties@[3]);
    lemma_parameter(r.properties@[4]);
    lemma_parameter(r.properties@[5]);
    lemma_parameter(r.properties@[6]);
    assert(shown[0] == r.properties@[0]@ && shown[1] == r.properties@[1]@);
    assert(shown[2] == r.properties@[2]@ && shown[3] == r.properties@[3]@);
    assert(shown[4] == r.properties@[4]@ && shown[5] == r.properties@[5]@);
    assert(shown[6] == r.properties@[6]@);
    let choices = r.properties@[0].choices@;
    assert forall|i: int| 0 <= i < 4 implies (#[trigger] choices[i])@ == actions()[i] by {
        assert(shown[0].choices[i] == choices[i]@);
    }
}

proof fn lemma_parameter(p: Parameter)
    ensures
        p@.name == p.name@,
        p@.kind == p.kind,
        p@.min_length == p.min_length,
        p@.choices.len() == p.choices@.len(),
        forall|i: int|
            0 <= i < p.choices@.len() ==> p@.choices[i] == (#[trigger] p.choices@[i])@,
        p@.description == p.description@,
        p@.default_text is Some <==> p.default_text is Some,
        p.default_text is Some ==> p@.default_text == Some(p.default_text->0@),
        p@.default_flag == p.default_flag,
{
}

/// A model is told the agents that are offered, and that there is none where none
/// is.
pub proof fn offered_agents_are_named(
    tool: DelegateTool,
    evidence: AliasTable<GuardEvidence>,
    r: ParametersSchema,
    names: Vec<String>,
    i: int,
)
    requires
        call_ensures(DelegateTool::parameters_schema, (&tool, &evidence), r),
        call_ensures(DelegateTool::roster, (&tool, &evidence), names),
    ensures
        0 <= i < names@.len() ==> text::occurs_in(
            names@[i]@,
            r.properties@[1].description@,
        ),
        r.properties@[1].description@ == "Name of the agent to delegate to. Available: "@ + if names@.len()
            == 0 {
            "(none configured)"@
        } else {
            text::joined(names.deep_view(), ", "@)
        },
{
    let all = choose|all: Seq<Seq<char>>|
        #[trigger] roster::is_roster(tool, &evidence, all) && r@ == roster::schema_for(all);
    let texts = names.deep_view();
    roster::roster_is_unique(tool, &evidence, all, texts);
    assert(r@.properties.len() == r.properties@.len());
    assert(r@.properties[1] == r.properties@[1]@);
    lemma_parameter(r.properties@[1]);
    let head = "Name of the agent to delegate to. Available: "@;
    let shown = r.properties@[1].description@;
    assert(texts.len() == names@.len());
    assert(shown == head + dispatch::roster_text(texts));
    if 0 <= i < names@.len() {
        assert(texts[i] == names@[i]@);
        let list = text::joined(texts, ", "@);
        text::part_occurs_in_joined(texts, ", "@, i);
        text::occurs_in_longer(texts[i], list, head, seq![]);
        assert(head + list + seq![] =~= shown);
    }
}

/// A parameter is found by its name.
pub proof fn parameters_are_found_by_name(
    schema: ParametersSchema,
    name: &str,
    r: Option<&Parameter>,
)
    requires
        call_ensures(ParametersSchema::property, (&schema, name), r),
    ensures
        r matches Some(p) ==> p.name@ == name@ && exists|i: int|
            0 <= i < schema.properties@.len() && (#[trigger] schema.properties@[i])@ == p@,
        r is None <==> forall|i: int|
            0 <= i < schema.properties@.len() ==> (#[trigger] schema.properties@[i]).name@
                != name@,
{
    let shown = schema@.properties;
    let own = schema.properties@;
    assert(shown.len() == own.len());
    assert forall|i: int| 0 <= i < own.len() implies shown[i] == (#[trigger] own[i])@ && shown[i].name
        == own[i].name@ by {}
    match r {
        Some(p) => {
            let i = choose|i: int|
                {
                    &&& 0 <= i < shown.len()
                    &&& #[trigger] shown[i] == p@
                    &&& p@.name == name@
                    &&& forall|k: int| 0 <= k < i ==> (#[trigger] shown[k]).name != name@
                };
            lemma_parameter(*p);
            assert(own[i]@ == p@);
            assert(own[i].name@ == name@);
        },
        None => {
            assert forall|i: int| 0 <= i < own.len() implies (#[trigger] own[i]).name@ != name@ by {
                if own[i].name@ == name@ {
                    assert(shown[i].name == name@);
                    assert(roster::has_parameter(shown, name@));
                }
            }
        },
    }
}

/// A model reads of every parameter what it is for.
pub proof fn parameters_are_described(
    tool: DelegateTool,
    evidence: AliasTable<GuardEvidence>,
    r: ParametersSchema,
)
    requires
        call_ensures(DelegateTool::parameters_schema, (&tool, &evidence), r),
    ensures
        r.properties@[0].description@ == "Action to perform. Default: 'delegate'. Use 'check_result' to retrieve a background task result, 'list_results' to list all background tasks, 'cancel_task' to cancel a running background task."@,
        "Name of the agent to delegate to. Available: "@.is_prefix_of(
            r.properties@[1].description@,
        ),
        r.properties@[2].description@ == "The task/prompt to send to the sub-agent"@,
        r.properties@[3].description@
            == "Optional context to prepend (e.g. relevant code, prior findings)"@,
        r.properties@[4].description@ == "When true, the sub-agent runs in a background tokio task and returns a task_id immediately. Results are stored to workspace/delegate_results/{task_id}.json."@,
        r.properties@[5].description@ == "Array of agent names to run concurrently with the same prompt. Returns all results when all agents complete. Cannot be combined with 'background'."@,
        r.properties@[6].description@
            == "Task ID for check_result/cancel_task actions (returned by background delegation)."@,
{
    let names = choose|names: Seq<Seq<char>>|
        #[trigger] roster::is_roster(tool, &evidence, names) && r@ == roster::schema_for(names);
    let shown = r@.properties;
    assert(shown == roster::parameters_for(names));
    assert(shown.len() == r.properties@.len());
    lemma_parameter(r.properties@[0]);
    lemma_parameter(r.properties@[1]);
    lemma_parameter(r.properties@[2]);
    lemma_parameter(r.properties@[3]);
    lemma_parameter(r.properties@[4]);
    lemma_parameter(r.properties@[5]);
    lemma_parameter(r.properties@[6]);
    assert(shown[0] == r.properties@[0]@ && shown[1] == r.properties@[1]@);
    assert(shown[2] == r.properties@[2]@ && shown[3] == r.properties@[3]@);
    assert(shown[4] == r.properties@[4]@ && shown[5] == r.properties@[5]@);
    assert(shown[6] == r.properties@[6]@);
    let head = "Name of the agent to delegate to. Available: "@;
    assert(head.is_prefix_of(head + dispatch::roster_text(names)));
}

} // verus!
