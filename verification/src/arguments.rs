//! Reading the arguments of a tool call.

use vstd::prelude::*;

use crate::delegate::DelegateTool;
use crate::reply;
use crate::reply::ToolResult;
use crate::text;

verus! {

/// The arguments of a tool call.
#[verifier::external_type_specification]
#[verifier::external_body]
pub struct ExValue(serde_json::Value);

/// The members of a JSON object that are strings.
pub uninterp spec fn text_members(args: serde_json::Value) -> Map<Seq<char>, Seq<char>>;

/// The members of a JSON object that are booleans.
pub uninterp spec fn flag_members(args: serde_json::Value) -> Map<Seq<char>, bool>;

/// The members of a JSON object that are arrays, each as the list of its items:
/// the text of an item that is a string, nothing for any other.
pub uninterp spec fn list_members(args: serde_json::Value) -> Map<
    Seq<char>,
    Seq<Option<Seq<char>>>,
>;

/// A string member of a JSON object: `Value::get` and then `Value::as_str`. A
/// member is found exactly when it is among the object's string members.
#[verifier::external_body]
fn text_member(args: &serde_json::Value, key: &str) -> (r: Option<String>)
    ensures
        match r {
            Some(s) => text_members(*args).contains_pair(key@, s@),
            None => !text_members(*args).contains_key(key@),
        },
{
    args.get(key).and_then(|v| v.as_str()).map(|s| s.to_owned())
}

/// A boolean member of a JSON object: `Value::get` and then `Value::as_bool`. A
/// member is found exactly when it is among the object's boolean members.
#[verifier::external_body]
fn flag_member(args: &serde_json::Value, key: &str) -> (r: Option<bool>)
    ensures
        match r {
            Some(b) => flag_members(*args).contains_pair(key@, b),
            None => !flag_members(*args).contains_key(key@),
        },
{
    args.get(key).and_then(|v| v.as_bool())
}

/// The texts of a list whose items may have none.
pub open spec fn item_texts(items: Seq<Option<String>>) -> Seq<Option<Seq<char>>> {
    items.map_values(|item: Option<String>| text::optional(item))
}

/// An array member of a JSON object: `Value::get` and then `Value::as_array`,
/// each item read by `Value::as_str`. A member is found exactly when it is among
/// the object's array members.
#[verifier::external_body]
fn list_member(args: &serde_json::Value, key: &str) -> (r: Option<Vec<Option<String>>>)
    ensures
        match r {
            Some(items) => list_members(*args).contains_pair(key@, item_texts(items@)),
            None => !list_members(*args).contains_key(key@),
        },
{
    let items = args.get(key).and_then(|v| v.as_array())?;
    Some(items.iter().map(|v| v.as_str().map(|s| s.to_owned())).collect())
}

/// A member of a map, if there is one under the key.
pub open spec fn member<V>(members: Map<Seq<char>, V>, key: Seq<char>) -> Option<V> {
    if members.contains_key(key) {
        Some(members[key])
    } else {
        None
    }
}

/// The arguments that a tool call may give.
pub struct CallArguments {
    /// What to do.
    pub action: Option<String>,
    /// Agents to run at once.
    pub parallel: Option<Vec<Option<String>>>,
    /// Agent to run.
    pub agent: Option<String>,
    /// Task for the agent.
    pub prompt: Option<String>,
    /// Context of the task.
    pub context: Option<String>,
    /// Whether to run in the background.
    pub background: Option<bool>,
    /// Background task that is asked about.
    pub task_id: Option<String>,
}

/// The arguments that a tool call may give, as texts.
pub struct CallTexts {
    pub action: Option<Seq<char>>,
    pub parallel: Option<Seq<Option<Seq<char>>>>,
    pub agent: Option<Seq<char>>,
    pub prompt: Option<Seq<char>>,
    pub context: Option<Seq<char>>,
    pub background: Option<bool>,
    pub task_id: Option<Seq<char>>,
}

impl View for CallArguments {
    type V = CallTexts;

    open spec fn view(&self) -> CallTexts {
        CallTexts {
            action: text::optional(self.action),
            parallel: match self.parallel {
                Some(items) => Some(item_texts(items@)),
                None => None,
            },
            agent: text::optional(self.agent),
            prompt: text::optional(self.prompt),
            context: text::optional(self.context),
            background: self.background,
            task_id: text::optional(self.task_id),
        }
    }
}

/// The arguments that a JSON object gives.
pub open spec fn given(args: serde_json::Value) -> CallTexts {
    CallTexts {
        action: member(text_members(args), "action"@),
        parallel: member(list_members(args), "parallel"@),
        agent: member(text_members(args), "agent"@),
        prompt: member(text_members(args), "prompt"@),
        context: member(text_members(args), "context"@),
        background: member(flag_members(args), "background"@),
        task_id: member(text_members(args), "task_id"@),
    }
}

/// Reads the arguments of a tool call. One that has another type than expected
/// counts as not given.
pub fn read_arguments(args: &serde_json::Value) -> (r: CallArguments)
    ensures
        r@ == given(*args),
{
    CallArguments {
        action: text_member(args, "action"),
        parallel: list_member(args, "parallel"),
        agent: text_member(args, "agent"),
        prompt: text_member(args, "prompt"),
        context: text_member(args, "context"),
        background: flag_member(args, "background"),
        task_id: text_member(args, "task_id"),
    }
}

/// What a tool call asks for.
pub enum Request {
    /// Show the result of a background task.
    CheckResult,
    /// List the background tasks.
    ListResults,
    /// Cancel a background task.
    CancelTask,
    /// Run several agents at once.
    Parallel { agents: Vec<Option<String>> },
    /// Run an agent in the background.
    Background { agent: String, prompt: String },
    /// Run an agent and wait for it.
    Sync { agent: String, prompt: String },
    /// Nothing is run: the call is answered at once.
    Answer(ToolResult),
}

/// What a tool call asks for, as texts.
pub enum Asked {
    CheckResult,
    ListResults,
    CancelTask,
    Parallel { agents: Seq<Option<Seq<char>>> },
    Background { agent: Seq<char>, prompt: Seq<char> },
    Sync { agent: Seq<char>, prompt: Seq<char> },
    Answer(reply::Reply),
}

impl View for Request {
    type V = Asked;

    open spec fn view(&self) -> Asked {
        match self {
            Request::CheckResult => Asked::CheckResult,
            Request::ListResults => Asked::ListResults,
            Request::CancelTask => Asked::CancelTask,
            Request::Parallel { agents } => Asked::Parallel { agents: item_texts(agents@) },
            Request::Background { agent, prompt } => Asked::Background {
                agent: agent@,
                prompt: prompt@,
            },
            Request::Sync { agent, prompt } => Asked::Sync { agent: agent@, prompt: prompt@ },
            Request::Answer(result) => Asked::Answer(result@),
        }
    }
}

/// The action that a call names; `delegate` where it names none.
pub open spec fn action_of(call: CallTexts) -> Seq<char> {
    match call.action {
        Some(action) => action,
        None => "delegate"@,
    }
}

/// The context that a call gives, without surrounding whitespace; empty where it
/// gives none.
pub open spec fn context_of(call: CallTexts) -> Seq<char> {
    match call.context {
        Some(context) => text::trimmed(context),
        None => seq![],
    }
}

/// What a call asks for, or which argument it lacks.
pub open spec fn asked(call: CallTexts) -> Result<Asked, Seq<char>> {
    let action = action_of(call);
    if action == "check_result"@ {
        Ok(Asked::CheckResult)
    } else if action == "list_results"@ {
        Ok(Asked::ListResults)
    } else if action == "cancel_task"@ {
        Ok(Asked::CancelTask)
    } else if action != "delegate"@ {
        Ok(
            Asked::Answer(
                reply::refused(
                    "Unknown action '"@ + action
                        + "'. Use delegate/check_result/list_results/cancel_task."@,
                ),
            ),
        )
    } else if call.parallel is Some {
        Ok(Asked::Parallel { agents: call.parallel->0 })
    } else if call.agent is None {
        Err("Missing 'agent' parameter"@)
    } else if text::trimmed(call.agent->0).len() == 0 {
        Ok(Asked::Answer(reply::refused("'agent' parameter must not be empty"@)))
    } else if call.prompt is None {
        Err("Missing 'prompt' parameter"@)
    } else if text::trimmed(call.prompt->0).len() == 0 {
        Ok(Asked::Answer(reply::refused("'prompt' parameter must not be empty"@)))
    } else if call.background == Some(true) {
        Ok(
            Asked::Background {
                agent: text::trimmed(call.agent->0),
                prompt: text::trimmed(call.prompt->0),
            },
        )
    } else {
        Ok(
            Asked::Sync {
                agent: text::trimmed(call.agent->0),
                prompt: text::trimmed(call.prompt->0),
            },
        )
    }
}

/// Whether `r` is the request, or the complaint, that `wanted` says.
pub open spec fn answers(r: Result<Request, String>, wanted: Result<Asked, Seq<char>>) -> bool {
    match (r, wanted) {
        (Ok(request), Ok(asked)) => request@ == asked,
        (Err(e), Err(complaint)) => e@ == complaint,
        _ => false,
    }
}

/// The context that a call gives, without surrounding whitespace.
pub fn read_context(call: &CallArguments) -> (r: String)
    ensures
        r@ == context_of(call@),
{
    match &call.context {
        Some(context) => text::trim(context).to_owned(),
        None => {
            let none = String::new();
            assert(none@ =~= seq![]);
            none
        },
    }
}

/// The list of agents that a call names, taken out of it.
fn copy_items(items: &Vec<Option<String>>) -> (r: Vec<Option<String>>)
    ensures
        item_texts(r@) == item_texts(items@),
{
    let mut out: Vec<Option<String>> = Vec::new();
    let mut i: usize = 0;
    while i < items.len()
        invariant
            i <= items.len(),
            item_texts(out@) == item_texts(items@).take(i as int),
        decreases items.len() - i,
    {
        let ghost before = item_texts(out@);
        let item = text::copy_optional(&items[i]);
        out.push(item);
        assert(item_texts(out@) =~= before.push(text::optional(items[i as int])));
        assert(item_texts(items@).take(i + 1) =~= item_texts(items@).take(i as int).push(
            text::optional(items[i as int]),
        ));
        i += 1;
    }
    assert(item_texts(items@).take(items.len() as int) =~= item_texts(items@));
    out
}

/// Finds out what a call asks for. An error names the argument that is missing.
pub fn route(call: &CallArguments) -> (r: Result<Request, String>)
    ensures
        answers(r, asked(call@)),
{
    let action = match &call.action {
        Some(action) => action.clone(),
        None => "delegate".to_owned(),
    };
    if text::same_text(&action, "check_result") {
        return Ok(Request::CheckResult);
    }
    if text::same_text(&action, "list_results") {
        return Ok(Request::ListResults);
    }
    if text::same_text(&action, "cancel_task") {
        return Ok(Request::CancelTask);
    }
    if !text::same_text(&action, "delegate") {
        let mut out = "Unknown action '".to_owned();
        out.append(&action);
        out.append("'. Use delegate/check_result/list_results/cancel_task.");
        return Ok(Request::Answer(ToolResult::refusal(out)));
    }
    if let Some(agents) = &call.parallel {
        return Ok(Request::Parallel { agents: copy_items(agents) });
    }
    let agent = match &call.agent {
        Some(agent) => text::trim(agent),
        None => {
            return Err("Missing 'agent' parameter".to_owned());
        },
    };
    if agent.unicode_len() == 0 {
        return Ok(
            Request::Answer(ToolResult::refusal("'agent' parameter must not be empty".to_owned())),
        );
    }
    let prompt = match &call.prompt {
        Some(prompt) => text::trim(prompt),
        None => {
            return Err("Missing 'prompt' parameter".to_owned());
        },
    };
    if prompt.unicode_len() == 0 {
        return Ok(
            Request::Answer(ToolResult::refusal("'prompt' parameter must not be empty".to_owned())),
        );
    }
    let background = match call.background {
        Some(b) => b,
        None => false,
    };
    if background {
        Ok(Request::Background { agent: agent.to_owned(), prompt: prompt.to_owned() })
    } else {
        Ok(Request::Sync { agent: agent.to_owned(), prompt: prompt.to_owned() })
    }
}

impl DelegateTool {
    /// Finds out what a tool call asks for. An error names the argument that is
    /// missing.
    pub fn execute(&self, args: &serde_json::Value) -> (r: Result<Request, String>)
        ensures
            answers(r, asked(given(*args))),
    {
        route(&read_arguments(args))
    }
}

/// A request to run an agent names an agent and a prompt, neither of them blank
/// nor surrounded by whitespace.
pub proof fn runs_are_named(call: CallTexts)
    ensures
        match asked(call) {
            Ok(Asked::Sync { agent, prompt }) | Ok(Asked::Background { agent, prompt }) => {
                &&& agent.len() > 0 && prompt.len() > 0
                &&& text::trimmed(agent) == agent && text::trimmed(prompt) == prompt
            },
            _ => true,
        },
{
    if let Some(agent) = call.agent {
        text::trimming_is_final(agent);
    }
    if let Some(prompt) = call.prompt {
        text::trimming_is_final(prompt);
    }
}

/// In a delegation a list of agents comes before a single agent, and before the
/// background.
pub proof fn parallel_comes_first(call: CallTexts)
    requires
        action_of(call) == "delegate"@,
        call.parallel is Some,
    ensures
        asked(call) == Ok::<Asked, Seq<char>>(Asked::Parallel { agents: call.parallel->0 }),
{
    reveal_strlit("delegate");
    reveal_strlit("check_result");
    reveal_strlit("list_results");
    reveal_strlit("cancel_task");
    assert("delegate"@.len() == 8);
    assert("check_result"@.len() == 12);
    assert("list_results"@.len() == 12);
    assert("cancel_task"@.len() == 11);
}

} // verus!
