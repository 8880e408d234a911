//! What is said, word for word.

use vstd::prelude::*;

use crate::arguments;
use crate::arguments::{CallArguments, Request};
use crate::delegate::DelegateTool;
use crate::dispatch::{Admission, Dispatch, RebuildOrder, RunOutcome, SyncJob};
use crate::guard::GuardEvidence;
use crate::laws::calls::actions;
use crate::laws::crowds::names_an_agent;
use crate::laws::prompts::says_something;
use crate::laws::runs::{allowed_by_profile, profile_of};
use crate::laws::texts;
use crate::parallel;
use crate::parallel::{AgentOutcome, ClearedPlan, ParallelPlan};
use crate::reply::{Step, ToolResult};
use crate::schema::Config;
use crate::tasks::{BackgroundDelegateResult, BackgroundTask, BackgroundTaskStatus, TaskFile};
use crate::text;

verus! {

/// Whether an answer refuses in these words.
pub open spec fn refuses_with(answer: ToolResult, words: Seq<char>) -> bool {
    &&& !answer.success
    &&& answer.output@.len() == 0
    &&& answer.error is Some
    &&& answer.error->0@ == words
}

/// Whether an answer gives these words as what it produced.
pub open spec fn produces(answer: ToolResult, words: Seq<char>) -> bool {
    &&& answer.success
    &&& answer.output@ == words
    &&& answer.error is None
}

proof fn lemma_answer(answer: ToolResult)
    ensures
        answer@.success == answer.success,
        answer@.output == answer.output@,
        answer@.error == text::optional(answer.error),
{
}

/// What is said of an agent that is not known, and of one too deep in the chain.
pub proof fn words_of_a_request_not_admitted<'a>(
    tool: &'a DelegateTool,
    name: &str,
    dispatch: Dispatch,
    answer: ToolResult,
)
    requires
        call_ensures(
            DelegateTool::open_request,
            (tool, name, dispatch),
            Err::<Admission<'a>, ToolResult>(answer),
        ),
    ensures
        tool.agents.lookup(name@) is None ==> refuses_with(
            answer,
            "Unknown agent '"@ + name@ + "'. Available agents: "@ + if tool.agents.keys().len()
                == 0 {
                "(none configured)"@
            } else {
                text::joined(tool.agents.keys(), ", "@)
            },
        ),
        tool.agents.lookup(name@) matches Some(agent) ==> {
            let limit: u32 = match profile_of(*tool, agent) {
                Some(p) => if p.max_delegation_depth > 0 {
                    p.max_delegation_depth
                } else {
                    3
                },
                None => 3,
            };
            refuses_with(
                answer,
                "Delegation depth limit reached ("@ + text::decimal(tool.depth as nat) + "/"@
                    + text::decimal(limit as nat) + if dispatch == Dispatch::Foreground {
                    "). Cannot delegate further to prevent infinite loops."@
                } else {
                    ")."@
                },
            )
        },
{
    lemma_answer(answer);
}

/// What is said of a run that took too long, and of one that failed.
pub proof fn words_of_a_run_without_reply<'a>(
    job: SyncJob<'a>,
    secs: u64,
    reason: String,
    late: ToolResult,
    failed: ToolResult,
)
    requires
        call_ensures(SyncJob::timeout_secs, (&job,), secs),
        call_ensures(SyncJob::finish, (&job, RunOutcome::TimedOut), late),
        call_ensures(SyncJob::finish, (&job, RunOutcome::Failed(reason)), failed),
    ensures
        refuses_with(
            late,
            "Agent '"@ + job.name() + "' timed out after "@ + text::decimal(secs as nat) + "s"@,
        ),
        refuses_with(failed, "Agent '"@ + job.name() + "' failed: "@ + reason@),
{
    lemma_answer(late);
    lemma_answer(failed);
}

/// What is said of an agent that would run a loop without a tool.
pub proof fn words_of_a_loop_without_tools<'a>(
    job: SyncJob<'a>,
    tool_names: Vec<String>,
    answer: ToolResult,
)
    requires
        call_ensures(
            SyncJob::select_tools,
            (&job, &tool_names),
            Err::<Vec<usize>, ToolResult>(answer),
        ),
    ensures
        ({
            let list = allowed_by_profile(job.tool(), job.agent());
            refuses_with(
                answer,
                if list.len() == 0 {
                    "Agent '"@ + job.name() + "' is agentic but risk_profile '"@
                        + job.agent().risk_profile@ + "' has no allowed_tools"@
                } else {
                    "Agent '"@ + job.name()
                        + "' has no executable tools after filtering allowlist ("@ + text::joined(
                        list.map_values(|s: String| s@),
                        ", "@,
                    ) + ")"@
                },
            )
        }),
{
    lemma_answer(answer);
    let list = allowed_by_profile(job.tool(), job.agent());
    assert(crate::delegate::allowed_tools_of(
        *job.tool().risk_profiles,
        job.agent().risk_profile@,
    ) =~= list.map_values(|s: String| s@));
}

/// What is said of a target whose tools cannot be rebuilt.
pub proof fn words_of_a_run_not_rebuilt<'a>(job: SyncJob<'a>, answer: ToolResult)
    requires
        call_ensures(
            SyncJob::rebuild_order,
            (&job,),
            Err::<RebuildOrder, ToolResult>(answer),
        ),
    ensures
        refuses_with(
            answer,
            if job.tool().root_config is None {
                "Agent '"@ + job.name()
                    + "' requires a loaded config for cross-profile agentic delegation"@
            } else {
                "Agent '"@ + job.name()
                    + "' is agentic cross-profile but resolves no non-`delegate` allowed_tools"@
            },
        ),
{
    lemma_answer(answer);
}

/// What is said of an action that there is not, and of an argument that is missing.
pub proof fn words_of_a_call_not_understood(call: CallArguments, r: Result<Request, String>)
    requires
        call_ensures(arguments::route, (&call,), r),
    ensures
        call.action matches Some(action) ==> (!actions().contains(action@) ==> {
            &&& r is Ok
            &&& r->Ok_0 is Answer
            &&& refuses_with(
                r->Ok_0->Answer_0,
                "Unknown action '"@ + action@
                    + "'. Use delegate/check_result/list_results/cancel_task."@,
            )
        }),
        r matches Err(complaint) ==> complaint@ == if call.agent is None {
            "Missing 'agent' parameter"@
        } else {
            "Missing 'prompt' parameter"@
        },
{
    let a = actions();
    assert(a[0] == "delegate"@ && a[1] == "check_result"@);
    assert(a[2] == "list_results"@ && a[3] == "cancel_task"@);
    assert(a.contains(a[0]) && a.contains(a[1]) && a.contains(a[2]) && a.contains(a[3]));
    assert(call@.action == text::optional(call.action));
    assert(call@.agent == text::optional(call.agent));
    if let Ok(request) = r {
        if let Request::Answer(answer) = request {
            lemma_answer(answer);
            assert(request@ == arguments::Asked::Answer(answer@));
        }
    }
}

/// What is said of a list of agents that is not run.
pub proof fn words_of_a_list_not_planned<'a>(
    tool: &'a DelegateTool,
    items: Vec<Option<String>>,
    call: CallArguments,
    r: Result<Step<ParallelPlan<'a>>, String>,
)
    requires
        call_ensures(DelegateTool::execute_parallel, (tool, &items, &call), r),
    ensures
        call.prompt is None ==> r is Err && r->Err_0@
            == "Missing 'prompt' parameter for parallel execution"@,
        call.prompt matches Some(prompt) ==> {
            &&& !says_something(prompt@) ==> r is Ok && r->Ok_0 is Answer && refuses_with(
                r->Ok_0->Answer_0,
                "'prompt' parameter must not be empty"@,
            )
            &&& says_something(prompt@) && (forall|k: int|
                0 <= k < items@.len() ==> !names_an_agent(#[trigger] items@[k])) ==> r is Ok
                && r->Ok_0 is Answer && refuses_with(
                r->Ok_0->Answer_0,
                "'parallel' array must contain at least one agent name"@,
            )
        },
{
    assert(call@.prompt == text::optional(call.prompt));
    if let Some(prompt) = call.prompt {
        texts::blank_exactly(prompt@);
        if let Ok(Step::Answer(answer)) = r {
            lemma_answer(answer);
        }
        if forall|k: int| 0 <= k < items@.len() ==> !names_an_agent(#[trigger] items@[k]) {
            let all = arguments::item_texts(items@);
            assert(all.take(all.len() as int) =~= all);
            lemma_nobody(items@, items@.len() as int);
        }
    }
}

proof fn lemma_nobody(items: Seq<Option<String>>, n: int)
    requires
        0 <= n <= items.len(),
        forall|k: int| 0 <= k < items.len() ==> !names_an_agent(#[trigger] items[k]),
    ensures
        parallel::agent_names(arguments::item_texts(items).take(n)).len() == 0,
    decreases n,
{
    let all = arguments::item_texts(items);
    if n > 0 {
        lemma_nobody(items, n - 1);
        assert(all.take(n).drop_last() =~= all.take(n - 1));
        assert(all.take(n).last() == text::optional(items[n - 1]));
        assert(!names_an_agent(items[n - 1]));
        if let Some(item) = items[n - 1] {
            texts::blank_exactly(item@);
        }
    }
}

/// What is said of one agent of a list.
pub open spec fn words_of_an_agent(agent: Seq<char>, outcome: AgentOutcome) -> Seq<char> {
    match outcome {
        AgentOutcome::Answered(answer) => "--- "@ + agent + " (success="@ + (if answer.success {
            "true"@
        } else {
            "false"@
        }) + ") ---\n"@ + answer.output@ + (if answer.error is Some {
            "\nError: "@ + answer.error->0@
        } else {
            seq![]
        }),
        AgentOutcome::Broken(error) => "--- "@ + agent + " (success=false) ---\nError: "@ + error@,
        AgentOutcome::Lost(error) => "--- [join error] ---\n"@ + error@,
    }
}

/// What is said of a list: how many agents it has, and then what is said of each, in
/// order, with an empty line between them.
pub proof fn words_of_a_list<'a>(
    plan: ClearedPlan<'a>,
    outcomes: Vec<AgentOutcome>,
    r: ToolResult,
    said: Seq<Seq<char>>,
)
    requires
        call_ensures(ClearedPlan::finish, (&plan, &outcomes), r),
        outcomes@.len() == plan.names().len(),
        said.len() == outcomes@.len(),
        forall|i: int|
            0 <= i < said.len() ==> #[trigger] said[i] == words_of_an_agent(
                plan.names()[i],
                outcomes@[i],
            ),
    ensures
        r.output@ == "[Parallel delegation: "@ + text::decimal(outcomes@.len()) + " agents]\n\n"@
            + text::joined(said, "\n\n"@),
        !r.success ==> text::optional(r.error) == Some("One or more parallel agents failed"@),
{
    lemma_answer(r);
    let all = parallel::outcome_texts(plan.names(), outcomes@);
    assert forall|i: int| 0 <= i < all.len() implies #[trigger] all[i] == said[i] by {
        assert(all[i] == parallel::outcome_text(plan.names()[i], outcomes@[i]));
    }
    assert(all =~= said);
}

/// What is said of a task that cannot be cancelled any more.
pub proof fn words_of_a_task_not_running(
    record: BackgroundDelegateResult,
    task_id: &str,
    at: String,
    answer: ToolResult,
    label: &'static str,
)
    requires
        call_ensures(
            BackgroundDelegateResult::cancel,
            (record, task_id, at),
            Err::<BackgroundDelegateResult, ToolResult>(answer),
        ),
        call_ensures(BackgroundTaskStatus::label, (&record.status,), label),
    ensures
        refuses_with(
            answer,
            "Task '"@ + task_id@ + "' is not running (status: "@ + label@ + ")"@,
        ),
{
    lemma_answer(answer);
}

/// What is said of a task that was started.
pub proof fn words_of_a_start(task: BackgroundTask, r: ToolResult)
    requires
        call_ensures(BackgroundTask::started, (&task,), r),
    ensures
        produces(
            r,
            "Background task started for agent '"@ + task.record.agent@ + "'.\ntask_id: "@
                + task.record.task_id@ + "\nUse action='check_result' with task_id='"@
                + task.record.task_id@ + "' to retrieve the result."@,
        ),
{
    lemma_answer(r);
    assert(task.record@.task_id == task.record.task_id@);
    assert(task.record@.agent == task.record.agent@);
}

/// What is said of an id that is none, and of a call that names no task.
pub proof fn words_of_a_task_not_named(
    tool: DelegateTool,
    id: &str,
    complaint: String,
    call: CallArguments,
    check: Result<Step<TaskFile>, String>,
    cancel: Result<Step<TaskFile>, String>,
)
    requires
        call_ensures(DelegateTool::validate_task_id, (id,), Err::<(), String>(complaint)),
        call_ensures(DelegateTool::handle_check_result, (&tool, &call), check),
        call_ensures(DelegateTool::handle_cancel_task, (&tool, &call), cancel),
    ensures
        complaint@ == "Invalid task_id '"@ + id@ + "': must be a valid UUID"@,
        check is Err <==> call.task_id is None,
        check is Err ==> check->Err_0@ == "Missing 'task_id' parameter for check_result"@,
        cancel is Err <==> call.task_id is None,
        cancel is Err ==> cancel->Err_0@ == "Missing 'task_id' parameter for cancel_task"@,
{
    assert(call@.task_id == text::optional(call.task_id));
}

/// What is said of a task that there is not, and of one that is to stop.
pub proof fn words_about_a_task(
    file: TaskFile,
    no_result: ToolResult,
    no_task: ToolResult,
    requested: ToolResult,
)
    requires
        call_ensures(TaskFile::no_result, (&file,), no_result),
        call_ensures(TaskFile::no_task, (&file,), no_task),
        call_ensures(TaskFile::cancel_requested, (&file,), requested),
    ensures
        refuses_with(no_result, "No result found for task_id '"@ + file.task_id@ + "'"@),
        refuses_with(no_task, "No task found for task_id '"@ + file.task_id@ + "'"@),
        produces(requested, "Task '"@ + file.task_id@ + "' cancellation requested."@),
{
    lemma_answer(no_result);
    lemma_answer(no_task);
    lemma_answer(requested);
}

/// What is said of a target that is not configured.
pub proof fn words_of_an_unknown_target(
    tool: DelegateTool,
    config: Config,
    target: &str,
    evidence: Option<&GuardEvidence>,
    r: Result<(), String>,
)
    requires
        call_ensures(DelegateTool::cross_profile_decision, (&tool, &config, target, evidence), r),
        config.agents.lookup(target@) is None,
    ensures
        r is Err,
        r->Err_0@ == "unknown delegate target "@ + text::debug_text(target@),
{
}

} // verus!
