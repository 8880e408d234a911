//! Laws of background tasks.

use std::sync::Arc;

use vstd::prelude::*;

use crate::arguments::CallArguments;
use crate::delegate::DelegateTool;
use crate::dispatch;
use crate::dispatch::Cleared;
use crate::laws::texts;
use crate::paths;
use crate::policy::SecurityPolicy;
use crate::reply::{Step, ToolResult};
use crate::tasks;
use crate::tasks::{
    BackgroundDelegateResult, BackgroundTask, BackgroundTaskStatus, TaskFile, WorkerOutcome,
};
use crate::text;

verus! {

/// The name of a status is its label in lower case.
pub proof fn name_is_the_label_in_lower_case(
    status: BackgroundTaskStatus,
    name: &'static str,
    label: &'static str,
)
    requires
        call_ensures(BackgroundTaskStatus::name, (&status,), name),
        call_ensures(BackgroundTaskStatus::label, (&status,), label),
    ensures
        text::lowered(label@) == name@,
        text::lowered(tasks::status_label(status)) == tasks::status_name(status),
        status == BackgroundTaskStatus::Running ==> label@ == "Running"@,
        status == BackgroundTaskStatus::Completed ==> label@ == "Completed"@,
        status == BackgroundTaskStatus::Failed ==> label@ == "Failed"@,
        status == BackgroundTaskStatus::Cancelled ==> label@ == "Cancelled"@,
{
    reveal_strlit("running");
    reveal_strlit("completed");
    reveal_strlit("failed");
    reveal_strlit("cancelled");
    reveal_strlit("Running");
    reveal_strlit("Completed");
    reveal_strlit("Failed");
    reveal_strlit("Cancelled");
    assert(text::lowered(label@) =~= name@);
    assert(tasks::status_label(status) == label@ && tasks::status_name(status) == name@);
}

/// Every state has a name of its own: a task that failed never reads as one that
/// completed, and so on.
pub proof fn names_tell_states_apart(
    a: BackgroundTaskStatus,
    b: BackgroundTaskStatus,
    name_a: &'static str,
    name_b: &'static str,
)
    requires
        call_ensures(BackgroundTaskStatus::name, (&a,), name_a),
        call_ensures(BackgroundTaskStatus::name, (&b,), name_b),
    ensures
        name_a@ == name_b@ <==> a == b,
        tasks::status_name(a) == tasks::status_name(b) <==> a == b,
        tasks::status_label(a) == tasks::status_label(b) <==> a == b,
        a == BackgroundTaskStatus::Running ==> name_a@ == "running"@,
        a == BackgroundTaskStatus::Completed ==> name_a@ == "completed"@,
        a == BackgroundTaskStatus::Failed ==> name_a@ == "failed"@,
        a == BackgroundTaskStatus::Cancelled ==> name_a@ == "cancelled"@,
{
    reveal_strlit("running");
    reveal_strlit("completed");
    reveal_strlit("failed");
    reveal_strlit("cancelled");
    reveal_strlit("Running");
    reveal_strlit("Completed");
    reveal_strlit("Failed");
    reveal_strlit("Cancelled");
    assert("running"@.len() == 7 && "failed"@.len() == 6);
    assert("completed"@.len() == 9 && "cancelled"@.len() == 9);
    assert("completed"@[1] == 'o' && "cancelled"@[1] == 'a');
    assert("Running"@.len() == 7 && "Failed"@.len() == 6);
    assert("Completed"@.len() == 9 && "Cancelled"@.len() == 9);
    assert("Completed"@[1] == 'o' && "Cancelled"@[1] == 'a');
}

/// Whether two records are of one task, started by one agent at one time.
pub open spec fn same_task(a: BackgroundDelegateResult, b: BackgroundDelegateResult) -> bool {
    &&& a.task_id@ == b.task_id@
    &&& a.agent@ == b.agent@
    &&& a.started_at@ == b.started_at@
}

/// Whether two records say the same.
pub open spec fn same_record(a: BackgroundDelegateResult, b: BackgroundDelegateResult) -> bool {
    &&& same_task(a, b)
    &&& a.status == b.status
    &&& text::optional(a.output) == text::optional(b.output)
    &&& text::optional(a.error) == text::optional(b.error)
    &&& text::optional(a.finished_at) == text::optional(b.finished_at)
}

/// A record of a run that gave no output: why, and that it was cancelled exactly
/// when the reason speaks of cancelling.
pub open spec fn ended_for(r: BackgroundDelegateResult, reason: Seq<char>) -> bool {
    &&& r.output is None
    &&& text::optional(r.error) == Some(reason)
    &&& r.status == if text::occurs_in("Cancelled"@, reason) {
        BackgroundTaskStatus::Cancelled
    } else {
        BackgroundTaskStatus::Failed
    }
}

/// The end of a run is recorded once: of a task that is still running, the record
/// takes up how the run ended, and when; of any other it stays.
pub proof fn end_of_run_is_recorded(
    record: BackgroundDelegateResult,
    outcome: WorkerOutcome,
    at: String,
    r: BackgroundDelegateResult,
)
    requires
        call_ensures(BackgroundDelegateResult::settle, (record, outcome, at), r),
    ensures
        same_task(record, r),
        record.status != BackgroundTaskStatus::Running ==> same_record(record, r),
        record.status == BackgroundTaskStatus::Running ==> {
            &&& text::optional(r.finished_at) == Some(at@)
            &&& match outcome {
                WorkerOutcome::Answered(answer) => if answer.success {
                    &&& r.status == BackgroundTaskStatus::Completed
                    &&& text::optional(r.output) == Some(answer.output@)
                    &&& r.error is None
                } else {
                    ended_for(
                        r,
                        if answer.error is Some {
                            answer.error->0@
                        } else {
                            "Unknown error"@
                        },
                    )
                },
                WorkerOutcome::Broken(reason) => ended_for(r, reason@),
                WorkerOutcome::CancelledByParent => {
                    &&& r.status == BackgroundTaskStatus::Cancelled
                    &&& r.output is None
                    &&& text::optional(r.error) == Some("Cancelled by parent session"@)
                },
            }
        },
{
    assert(record@.task_id == record.task_id@ && r@.task_id == r.task_id@);
    tasks::session_end_cancels(
        tasks::TaskRecord { status: BackgroundTaskStatus::Running, ..record@ },
        at@,
    );
}

/// What ends now is recorded as what ends at the time of the clock.
pub proof fn end_is_recorded_now(
    record: BackgroundDelegateResult,
    outcome: WorkerOutcome,
    r: BackgroundDelegateResult,
)
    requires
        call_ensures(BackgroundDelegateResult::settle_now, (record, outcome), r),
    ensures
        same_task(record, r),
        record.status != BackgroundTaskStatus::Running ==> same_record(record, r),
        record.status == BackgroundTaskStatus::Running ==> {
            &&& r.status != BackgroundTaskStatus::Running
            &&& r.finished_at is Some
            &&& tasks::clock_reading(r.finished_at->0@)
            &&& outcome matches WorkerOutcome::Answered(answer) ==> if answer.success {
                &&& r.status == BackgroundTaskStatus::Completed
                &&& text::optional(r.output) == Some(answer.output@)
                &&& r.error is None
            } else {
                answer.error is Some ==> ended_for(r, answer.error->0@)
            }
            &&& outcome matches WorkerOutcome::Broken(reason) ==> ended_for(r, reason@)
        },
{
}

/// Only a running task can be cancelled. What it put out is kept, and the record
/// says that a user cancelled it, and when.
pub proof fn only_running_tasks_are_cancelled(
    record: BackgroundDelegateResult,
    task_id: &str,
    at: String,
    r: Result<BackgroundDelegateResult, ToolResult>,
)
    requires
        call_ensures(BackgroundDelegateResult::cancel, (record, task_id, at), r),
    ensures
        r is Ok <==> record.status == BackgroundTaskStatus::Running,
        r matches Ok(gone) ==> {
            &&& same_task(record, gone)
            &&& gone.status == BackgroundTaskStatus::Cancelled
            &&& text::optional(gone.output) == text::optional(record.output)
            &&& text::optional(gone.error) == Some("Cancelled by user request"@)
            &&& text::optional(gone.finished_at) == Some(at@)
        },
        r matches Err(answer) ==> {
            &&& !answer.success
            &&& answer.error is Some
            &&& text::occurs_in(task_id@, answer.error->0@)
            &&& text::occurs_in(tasks::status_label(record.status), answer.error->0@)
        },
{
    if let Err(answer) = r {
        let label = tasks::status_label(record.status);
        let a = "Task '"@;
        let b = "' is not running (status: "@;
        let c = ")"@;
        let whole = a + task_id@ + b + label + c;
        assert(answer@.error == Some(whole));
        assert(answer.error->0@ == whole);
        texts::stands_within(a, task_id@, b + label + c);
        assert(whole =~= a + task_id@ + (b + label + c));
        texts::stands_within(a + task_id@ + b, label, c);
    }
}

/// The same of a task that is cancelled now.
pub proof fn cancelling_now_needs_a_running_task(
    record: BackgroundDelegateResult,
    task_id: &str,
    run: Option<&tokio_util::sync::CancellationToken>,
    r: Result<BackgroundDelegateResult, ToolResult>,
)
    requires
        call_ensures(BackgroundDelegateResult::cancel_now, (record, task_id, run), r),
    ensures
        r is Ok <==> record.status == BackgroundTaskStatus::Running,
        r matches Ok(gone) ==> {
            &&& same_task(record, gone)
            &&& gone.status == BackgroundTaskStatus::Cancelled
            &&& text::optional(gone.output) == text::optional(record.output)
            &&& text::optional(gone.error) == Some("Cancelled by user request"@)
            &&& gone.finished_at is Some
            &&& tasks::clock_reading(gone.finished_at->0@)
        },
        r is Ok && run is Some ==> call_ensures(
            tokio_util::sync::CancellationToken::cancel,
            (run->0,),
            (),
        ),
        r matches Err(answer) ==> !answer.success,
{
    if let Err(answer) = r {
        assert(answer@.success == answer.success);
    }
}

/// Whoever asks for a record gets its text; as a success exactly when the task
/// completed, else with the reason in the record.
pub proof fn only_completed_tasks_show_success(
    record: BackgroundDelegateResult,
    rendered: String,
    r: ToolResult,
)
    requires
        call_ensures(BackgroundDelegateResult::show, (record, rendered), r),
    ensures
        r.success <==> record.status == BackgroundTaskStatus::Completed,
        r.output@ == rendered@,
        r.success ==> r.error is None,
        !r.success ==> text::optional(r.error) == text::optional(record.error),
{
    assert(r@.success == r.success && r@.output == r.output@);
    assert(r@.error == text::optional(r.error));
}

/// The record of a task lies in the results directory, which lies in the
/// workspace, in a file that is named after the task.
pub proof fn record_file_is_named_after_the_task(tool: DelegateTool, task_id: &str, r: String)
    requires
        call_ensures(DelegateTool::record_file, (&tool, task_id), r),
        tasks::is_uuid(task_id@),
    ensures
        paths::components(r@) == paths::components(tool.workspace_dir@).push(
            "delegate_results"@,
        ).push(task_id@ + ".json"@),
{
    reveal_strlit("delegate_results");
    tasks::record_stays_in_results_dir(tool.results_path(), task_id@);
    let name = "delegate_results"@;
    assert(name.len() == 16);
    assert forall|i: int| 0 <= i < 16 implies name[i] != '/' by {}
    assert(!name.contains('/'));
    paths::join_adds_component(tool.workspace_dir@, name);
}

/// A directory entry is taken for a record exactly when it is something followed
/// by `.json`.
pub proof fn records_end_in_json(name: &str, r: bool)
    requires
        call_ensures(tasks::is_record_name, (name,), r),
    ensures
        r <==> exists|stem: Seq<char>| stem.len() > 0 && #[trigger] (stem + ".json"@) == name@,
{
    reveal_strlit(".json");
    assert(".json"@.len() == 5);
    if r {
        let stem = name@.take(name@.len() - 5);
        assert(stem + ".json"@ =~= name@);
    }
    if exists|stem: Seq<char>| stem.len() > 0 && #[trigger] (stem + ".json"@) == name@ {
        let stem = choose|stem: Seq<char>| stem.len() > 0 && #[trigger] (stem + ".json"@) == name@;
        assert(name@.skip(name@.len() - 5) =~= ".json"@);
    }
}

/// A background task starts as a running one of the agent that was cleared, under
/// the policy that it was cleared for. Nothing else of the tool changes but the
/// token, which hangs on the tool's own.
pub proof fn background_task_starts_running<'a>(
    cleared: Cleared<'a>,
    prompt: &str,
    context: &str,
    task_id: String,
    started_at: String,
    r: BackgroundTask,
    id: &str,
    file: String,
    composed: String,
)
    requires
        call_ensures(
            tasks::prepare_background,
            (&cleared, prompt, context, task_id, started_at),
            r,
        ),
        id@ == task_id@,
        call_ensures(DelegateTool::record_file, (&cleared.tool(), id), file),
        call_ensures(dispatch::compose_prompt, (context, prompt), composed),
    ensures
        r.record.task_id@ == task_id@,
        r.record.agent@ == cleared.name(),
        r.record.status == BackgroundTaskStatus::Running,
        r.record.output is None,
        r.record.error is None,
        r.record.started_at@ == started_at@,
        r.record.finished_at is None,
        r.path@ == file@,
        r.prompt@ == composed@,
        runs_for(r.worker, cleared.tool(), cleared.policy()),
{
    let shown = r.record@;
    assert(shown.task_id == r.record.task_id@ && shown.agent == r.record.agent@);
    assert(shown.output == text::optional(r.record.output));
    assert(shown.error == text::optional(r.record.error));
    assert(shown.finished_at == text::optional(r.record.finished_at));
}

/// Whether a tool is that of a detached run: another one, but for the policy,
/// which is the target's, and the token, which is cancelled with the other's.
pub open spec fn runs_for(
    worker: DelegateTool,
    tool: DelegateTool,
    policy: Arc<SecurityPolicy>,
) -> bool {
    &&& worker.security == policy
    &&& call_ensures(
        tokio_util::sync::CancellationToken::child_token,
        (&tool.cancellation_token,),
        worker.cancellation_token,
    )
    &&& worker.agents == tool.agents
    &&& worker.global_credential == tool.global_credential
    &&& worker.provider_runtime_options == tool.provider_runtime_options
    &&& worker.depth == tool.depth
    &&& worker.delegate_config == tool.delegate_config
    &&& worker.workspace_dir == tool.workspace_dir
    &&& worker.providers_models == tool.providers_models
    &&& worker.risk_profiles == tool.risk_profiles
    &&& worker.runtime_profiles == tool.runtime_profiles
    &&& worker.skill_bundles == tool.skill_bundles
    &&& worker.root_config == tool.root_config
    &&& worker.caller_alias == tool.caller_alias
}

/// A background task that is opened has an id that can be asked for later: it is
/// a UUID, and the record lies in the results directory under that id.
pub proof fn opened_task_can_be_asked_for<'a>(
    cleared: Cleared<'a>,
    prompt: &str,
    context: &str,
    r: BackgroundTask,
    id: &str,
    valid: Result<(), String>,
    file: String,
    composed: String,
)
    requires
        call_ensures(tasks::open_background, (&cleared, prompt, context), r),
        id@ == r.record.task_id@,
        call_ensures(DelegateTool::validate_task_id, (id,), valid),
        call_ensures(DelegateTool::record_file, (&cleared.tool(), id), file),
        call_ensures(dispatch::compose_prompt, (context, prompt), composed),
    ensures
        valid is Ok,
        tasks::drawn_id(id@),
        tasks::clock_reading(r.record.started_at@),
        r.path@ == file@,
        r.prompt@ == composed@,
        r.record.agent@ == cleared.name(),
        r.record.status == BackgroundTaskStatus::Running,
        r.record.output is None,
        r.record.error is None,
        r.record.finished_at is None,
        runs_for(r.worker, cleared.tool(), cleared.policy()),
{
    let shown = r.record@;
    assert(shown.task_id == r.record.task_id@ && shown.agent == r.record.agent@);
    assert(shown.output == text::optional(r.record.output));
    assert(shown.error == text::optional(r.record.error));
    assert(shown.finished_at == text::optional(r.record.finished_at));
}

/// The answer to the start of a task is a success that names the agent and the
/// task.
pub proof fn start_names_the_task(task: BackgroundTask, r: ToolResult)
    requires
        call_ensures(BackgroundTask::started, (&task,), r),
    ensures
        r.success,
        r.error is None,
        text::occurs_in("task_id: "@ + task.record.task_id@ + "\n"@, r.output@),
        text::occurs_in("'"@ + task.record.agent@ + "'"@, r.output@),
        text::occurs_in("check_result"@, r.output@),
{
    reveal_strlit("Background task started for agent '");
    reveal_strlit("'.\ntask_id: ");
    reveal_strlit("\nUse action='check_result' with task_id='");
    reveal_strlit("task_id: ");
    reveal_strlit("\n");
    reveal_strlit("'");
    reveal_strlit("check_result");
    let id = task.record.task_id@;
    let agent = task.record.agent@;
    assert(task.record@.task_id == id && task.record@.agent == agent);
    assert(r@.output == r.output@ && r@.error == text::optional(r.error));
    let a = "Background task started for agent '"@;
    let b = "'.\ntask_id: "@;
    let c = "\nUse action='check_result' with task_id='"@;
    let d = "' to retrieve the result."@;
    let whole = a + agent + b + id + c + id + d;
    assert(r.output@ == whole);
    let named = "task_id: "@ + id + "\n"@;
    let at = (a + agent).len() + 3int;
    assert(whole.subrange(at, at + named.len()) =~= named);
    let quoted = "'"@ + agent + "'"@;
    let from = a.len() - 1int;
    assert(whole.subrange(from, from + quoted.len()) =~= quoted);
    let word = "check_result"@;
    let start = (a + agent + b + id).len() + 13int;
    assert(whole.subrange(start, start + word.len()) =~= word);
}

/// The characters of a UUID in any of its forms.
pub open spec fn uuid_character(c: char) -> bool {
    ||| '0' <= c <= '9'
    ||| 'a' <= c <= 'f'
    ||| 'A' <= c <= 'F'
    ||| c == '-'
    ||| c == '{'
    ||| c == '}'
}

/// An id that is taken is made of hexadecimal digits and hyphens, in braces or
/// not, but for the word before a UUID in its long form. One that is not taken
/// is named in the complaint.
pub proof fn ids_are_hexadecimal(id: &str, r: Result<(), String>)
    requires
        call_ensures(DelegateTool::validate_task_id, (id,), r),
    ensures
        r is Ok ==> id@.len() == 32 || id@.len() == 36 || id@.len() == 38 || id@.len() == 45,
        r is Ok ==> forall|i: int|
            0 <= i < id@.len() && (id@.len() == 45 ==> i >= 9) ==> uuid_character(
                #[trigger] id@[i],
            ),
        r is Ok && id@.len() == 45 ==> text::lowered(id@.take(9)) == "urn:uuid:"@,
        r matches Err(complaint) ==> text::occurs_in(id@, complaint@),
{
    let s = id@;
    if let Err(complaint) = r {
        texts::stands_within("Invalid task_id '"@, s, "': must be a valid UUID"@);
    } else {
        assert forall|i: int| 0 <= i < s.len() && (s.len() == 45 ==> i >= 9) implies uuid_character(
            #[trigger] s[i],
        ) by {
            if s.len() == 38 && 0 < i < 37 {
                assert(s.subrange(1, 37)[i - 1] == s[i]);
            }
            if s.len() == 45 {
                assert(s.skip(9)[i - 9] == s[i]);
            }
        }
    }
}

/// Hexadecimal digits in groups of 8, 4, 4, 4 and 12 are taken for an id, and so
/// are 32 of them in a row.
pub proof fn usual_ids_are_taken(id: &str, r: Result<(), String>)
    requires
        call_ensures(DelegateTool::validate_task_id, (id,), r),
        id@.len() == 32 || id@.len() == 36,
        forall|i: int|
            0 <= i < id@.len() ==> {
                if id@.len() == 36 && (i == 8 || i == 13 || i == 18 || i == 23) {
                    #[trigger] id@[i] == '-'
                } else {
                    ||| '0' <= id@[i] <= '9'
                    ||| 'a' <= id@[i] <= 'f'
                    ||| 'A' <= id@[i] <= 'F'
                }
            },
    ensures
        r is Ok,
{
}

/// Whether a call about a task is taken to its record: a call without a task is
/// an error that names the parameter; an id that is no UUID is refused, by name;
/// any other leads to the record file of that task.
pub open spec fn leads_to_record(
    tool: DelegateTool,
    call: CallArguments,
    id: &str,
    valid: Result<(), String>,
    file: String,
    r: Result<Step<TaskFile>, String>,
) -> bool {
    &&& call.task_id is None ==> r is Err && text::occurs_in("task_id"@, r->Err_0@)
    &&& call.task_id is Some && valid is Ok ==> {
        &&& r is Ok
        &&& r->Ok_0 is Go
        &&& r->Ok_0->Go_0.task_id@ == id@
        &&& r->Ok_0->Go_0.path@ == file@
    }
    &&& call.task_id is Some && valid is Err ==> {
        &&& r is Ok
        &&& r->Ok_0 is Answer
        &&& !r->Ok_0->Answer_0.success
        &&& text::optional(r->Ok_0->Answer_0.error) == Some(valid->Err_0@)
    }
}

/// A call for a result leads to the record of the task that it names.
pub proof fn result_is_that_of_the_named_task(
    tool: DelegateTool,
    call: CallArguments,
    id: &str,
    valid: Result<(), String>,
    file: String,
    r: Result<Step<TaskFile>, String>,
)
    requires
        call_ensures(DelegateTool::handle_check_result, (&tool, &call), r),
        call.task_id matches Some(named) ==> named@ == id@,
        call_ensures(DelegateTool::validate_task_id, (id,), valid),
        call_ensures(DelegateTool::record_file, (&tool, id), file),
    ensures
        leads_to_record(tool, call, id, valid, file, r),
        r matches Err(complaint) ==> text::occurs_in("check_result"@, complaint@),
{
    reveal_strlit("Missing 'task_id' parameter for check_result");
    reveal_strlit("task_id");
    reveal_strlit("check_result");
    let whole = "Missing 'task_id' parameter for check_result"@;
    assert(whole.subrange(9int, 9int + "task_id"@.len()) =~= "task_id"@);
    assert(whole.subrange(32int, 32int + "check_result"@.len()) =~= "check_result"@);
    assert(call@.task_id == text::optional(call.task_id));
    if let Ok(Step::Answer(answer)) = r {
        assert(answer@.error == text::optional(answer.error));
        assert(answer@.success == answer.success);
    }
}

/// A call to cancel leads to the record of the task that it names.
pub proof fn cancelled_is_the_named_task(
    tool: DelegateTool,
    call: CallArguments,
    id: &str,
    valid: Result<(), String>,
    file: String,
    r: Result<Step<TaskFile>, String>,
)
    requires
        call_ensures(DelegateTool::handle_cancel_task, (&tool, &call), r),
        call.task_id matches Some(named) ==> named@ == id@,
        call_ensures(DelegateTool::validate_task_id, (id,), valid),
        call_ensures(DelegateTool::record_file, (&tool, id), file),
    ensures
        leads_to_record(tool, call, id, valid, file, r),
        r matches Err(complaint) ==> text::occurs_in("cancel_task"@, complaint@),
{
    reveal_strlit("Missing 'task_id' parameter for cancel_task");
    reveal_strlit("task_id");
    reveal_strlit("cancel_task");
    let whole = "Missing 'task_id' parameter for cancel_task"@;
    assert(whole.subrange(9int, 9int + "task_id"@.len()) =~= "task_id"@);
    assert(whole.subrange(32int, 32int + "cancel_task"@.len()) =~= "cancel_task"@);
    assert(call@.task_id == text::optional(call.task_id));
    if let Ok(Step::Answer(answer)) = r {
        assert(answer@.error == text::optional(answer.error));
        assert(answer@.success == answer.success);
    }
}

/// The answers about a task name it. Only the answer to a cancellation is a
/// success.
pub proof fn answers_name_the_task(
    file: TaskFile,
    no_result: ToolResult,
    no_task: ToolResult,
    requested: ToolResult,
)
    requires
        call_ensures(TaskFile::no_result, (&file,), no_result),
        call_ensures(TaskFile::no_task, (&file,), no_task),
        call_ensures(TaskFile::cancel_requested, (&file,), requested),
    ensures
        !no_result.success,
        no_result.error is Some,
        text::occurs_in(file.task_id@, no_result.error->0@),
        !no_task.success,
        no_task.error is Some,
        text::occurs_in(file.task_id@, no_task.error->0@),
        requested.success,
        requested.error is None,
        text::occurs_in(file.task_id@, requested.output@),
{
    let id = file.task_id@;
    texts::stands_within("No result found for task_id '"@, id, "'"@);
    texts::stands_within("No task found for task_id '"@, id, "'"@);
    texts::stands_within("Task '"@, id, "' cancellation requested."@);
    assert(no_result@.error == text::optional(no_result.error));
    assert(no_result@.success == no_result.success);
    assert(no_task@.error == text::optional(no_task.error));
    assert(no_task@.success == no_task.success);
    assert(requested@.error == text::optional(requested.error));
    assert(requested@.output == requested.output@);
}

/// Whether a member of a row has a name and a value.
pub open spec fn member_is(
    row: Vec<(String, Option<String>)>,
    i: int,
    name: Seq<char>,
    value: Option<Seq<char>>,
) -> bool {
    row@[i].0@ == name && text::optional(row@[i].1) == value
}

/// A listing has a row for every record, in order, and a row says of its task
/// which it is, whose it is, how it stands, when it started and when it ended.
pub proof fn listing_tells_each_task(
    records: Vec<BackgroundDelegateResult>,
    rows: Vec<Vec<(String, Option<String>)>>,
    i: int,
    name: &'static str,
)
    requires
        call_ensures(tasks::listing_rows, (&records,), rows),
        0 <= i < records@.len(),
        call_ensures(BackgroundTaskStatus::name, (&records@[i].status,), name),
    ensures
        rows@.len() == records@.len(),
        rows@[i]@.len() == 5,
        member_is(rows@[i], 0, "task_id"@, Some(records@[i].task_id@)),
        member_is(rows@[i], 1, "agent"@, Some(records@[i].agent@)),
        member_is(rows@[i], 2, "status"@, Some(name@)),
        member_is(rows@[i], 3, "started_at"@, Some(records@[i].started_at@)),
        member_is(rows@[i], 4, "finished_at"@, text::optional(records@[i].finished_at)),
{
    let shown = tasks::row_texts(rows@);
    assert(shown.len() == rows@.len());
    assert(tasks::summaries(records@).len() == records@.len());
    let line = shown[i];
    assert(line == tasks::summary(records@[i]@));
    let row = rows@[i]@;
    assert(line == row.map_values(|m: (String, Option<String>)| (m.0@, text::optional(m.1))));
    assert(line.len() == row.len());
    assert(line[0] == (row[0].0@, text::optional(row[0].1)));
    assert(line[1] == (row[1].0@, text::optional(row[1].1)));
    assert(line[2] == (row[2].0@, text::optional(row[2].1)));
    assert(line[3] == (row[3].0@, text::optional(row[3].1)));
    assert(line[4] == (row[4].0@, text::optional(row[4].1)));
}

/// A listing of nothing says so; any other is the JSON text of its rows.
pub proof fn listing_is_the_text_of_its_rows(
    records: Vec<BackgroundDelegateResult>,
    rows: Vec<Vec<(String, Option<String>)>>,
    r: Result<ToolResult, String>,
)
    requires
        call_ensures(DelegateTool::handle_list_results, (&records,), r),
        call_ensures(tasks::listing_rows, (&records,), rows),
    ensures
        r is Ok,
        r->Ok_0.success,
        r->Ok_0.error is None,
        records@.len() == 0 ==> r->Ok_0.output@ == "No background delegate results found."@,
        records@.len() > 0 ==> r->Ok_0.output@ == tasks::pretty_objects(tasks::row_texts(rows@)),
{
    let answer = r->Ok_0;
    assert(answer@.error == text::optional(answer.error));
    assert(answer@.output == answer.output@);
}

/// The same, given how many records there are and the text of the rows.
pub proof fn empty_listing_says_so(count: usize, rendered: String, r: ToolResult)
    requires
        call_ensures(tasks::answer_listing, (count, rendered), r),
    ensures
        r.success,
        r.error is None,
        count == 0 ==> r.output@ == "No background delegate results found."@,
        count > 0 ==> r.output@ == rendered@,
{
    assert(r@.error == text::optional(r.error));
    assert(r@.output == r.output@);
}

} // verus!
