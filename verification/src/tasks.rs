//! Background tasks: their ids, their records and what is answered about them.

use std::sync::Arc;

use tokio_util::sync::CancellationToken;
use vstd::prelude::*;

use crate::arguments::{CallArguments, CallTexts};
use crate::delegate::DelegateTool;
use crate::dispatch;
use crate::dispatch::Cleared;
use crate::paths;
use crate::policy::SecurityPolicy;
use crate::reply;
use crate::reply::{Step, ToolResult};
use crate::schema::AliasedAgentConfig;
use crate::text;

verus! {

/// Whether a character is a hexadecimal digit.
pub open spec fn hex_digit(c: char) -> bool {
    '0' <= c <= '9' || 'a' <= c <= 'f' || 'A' <= c <= 'F'
}

/// Whether a text is a UUID in groups of 8, 4, 4, 4 and 12 hexadecimal digits.
pub open spec fn hyphenated(s: Seq<char>) -> bool {
    &&& s.len() == 36
    &&& forall|i: int|
        0 <= i < 36 ==> if i == 8 || i == 13 || i == 18 || i == 23 {
            #[trigger] s[i] == '-'
        } else {
            hex_digit(s[i])
        }
}

/// Whether a text is a UUID: 32 hexadecimal digits, or the hyphenated form,
/// alone, in braces, or after `urn:uuid:` in any case.
pub open spec fn is_uuid(s: Seq<char>) -> bool {
    ||| s.len() == 32 && forall|i: int| 0 <= i < 32 ==> hex_digit(#[trigger] s[i])
    ||| hyphenated(s)
    ||| s.len() == 38 && s[0] == '{' && s[37] == '}' && hyphenated(s.subrange(1, 37))
    ||| s.len() == 45 && text::lowered(s.take(9)) == "urn:uuid:"@ && hyphenated(s.skip(9))
}

/// Whether `Uuid::parse_str` takes a text. It takes the four forms of
/// `is_uuid`.
#[verifier::external_body]
fn parses_as_uuid(s: &str) -> (r: bool)
    ensures
        r == is_uuid(s@),
{
    uuid::Uuid::parse_str(s).is_ok()
}

/// A random UUID as text: `Uuid::new_v4` written by `to_string`. Which one it
/// is rests on chance; it is in the hyphenated form, in lower case, and of
/// version 4. `Uuid::new_v4` panics where the system gives no random bytes.
#[verifier::external_body]
fn random_uuid() -> (r: String)
    ensures
        hyphenated(r@),
        text::lowered(r@) == r@,
        r@[14] == '4',
{
    uuid::Uuid::new_v4().to_string()
}

/// The current time as text: `Utc::now` written by `DateTime::to_rfc3339`. It
/// depends on the clock, so nothing is claimed of it. `Utc::now` panics where
/// the clock stands before 1970.
#[verifier::external_body]
fn timestamp() -> String {
    chrono::Utc::now().to_rfc3339()
}

/// Whether a text is an id that was drawn at random, by `random_uuid`.
pub closed spec fn drawn_id(id: Seq<char>) -> bool {
    exists|drawn: String| #[trigger] call_ensures(random_uuid, (), drawn) && drawn@ == id
}

/// Whether a text is a time that was read from the clock, by `timestamp`.
pub closed spec fn clock_reading(time: Seq<char>) -> bool {
    exists|read: String| #[trigger] call_ensures(timestamp, (), read) && read@ == time
}

/// A random id.
fn draw_id() -> (r: String)
    ensures
        drawn_id(r@),
        hyphenated(r@),
        text::lowered(r@) == r@,
        r@[14] == '4',
{
    let draw = random_uuid;
    draw()
}

/// The current time.
fn read_clock() -> (r: String)
    ensures
        clock_reading(r@),
{
    let read = timestamp;
    read()
}

/// What `serde_json::to_string_pretty` writes for a list of objects whose
/// members are strings or null.
pub uninterp spec fn pretty_objects(rows: Seq<Seq<(Seq<char>, Option<Seq<char>>)>>) -> Seq<char>;

/// A list of objects as texts.
pub open spec fn row_texts(rows: Seq<Vec<(String, Option<String>)>>) -> Seq<
    Seq<(Seq<char>, Option<Seq<char>>)>,
> {
    rows.map_values(
        |row: Vec<(String, Option<String>)>|
            row@.map_values(|m: (String, Option<String>)| (m.0@, text::optional(m.1))),
    )
}

/// A list of objects whose members are strings or null, written by
/// `serde_json::to_string_pretty`, an error as its text. Writing fails only for
/// a value that refuses to be written or a map whose keys are no strings, and
/// there is neither here. Of the JSON text only that it is determined by the
/// list is claimed.
#[verifier::external_body]
fn render_objects(rows: &Vec<Vec<(String, Option<String>)>>) -> (r: Result<String, String>)
    ensures
        match r {
            Ok(s) => s@ == pretty_objects(row_texts(rows@)),
            Err(_) => false,
        },
{
    let items: Vec<serde_json::Map<String, serde_json::Value>> = rows.iter().map(|row| {
        row.iter().map(|m| {
            (m.0.clone(), m.1.clone().map_or(serde_json::Value::Null, serde_json::Value::String))
        }).collect()
    }).collect();
    serde_json::to_string_pretty(&items).map_err(|e| e.to_string())
}

/// How a background task stands.
#[derive(Debug, Clone, Copy, PartialEq, Eq, Structural)]
pub enum BackgroundTaskStatus {
    Running,
    Completed,
    Failed,
    Cancelled,
}

/// The record of a background task.
#[derive(Debug)]
pub struct BackgroundDelegateResult {
    pub task_id: String,
    pub agent: String,
    pub status: BackgroundTaskStatus,
    pub output: Option<String>,
    pub error: Option<String>,
    pub started_at: String,
    pub finished_at: Option<String>,
}

/// A record as texts.
pub struct TaskRecord {
    pub task_id: Seq<char>,
    pub agent: Seq<char>,
    pub status: BackgroundTaskStatus,
    pub output: Option<Seq<char>>,
    pub error: Option<Seq<char>>,
    pub started_at: Seq<char>,
    pub finished_at: Option<Seq<char>>,
}

impl View for BackgroundDelegateResult {
    type V = TaskRecord;

    open spec fn view(&self) -> TaskRecord {
        TaskRecord {
            task_id: self.task_id@,
            agent: self.agent@,
            status: self.status,
            output: text::optional(self.output),
            error: text::optional(self.error),
            started_at: self.started_at@,
            finished_at: text::optional(self.finished_at),
        }
    }
}

/// The name of a status in a listing.
pub open spec fn status_name(status: BackgroundTaskStatus) -> Seq<char> {
    match status {
        BackgroundTaskStatus::Running => "running"@,
        BackgroundTaskStatus::Completed => "completed"@,
        BackgroundTaskStatus::Failed => "failed"@,
        BackgroundTaskStatus::Cancelled => "cancelled"@,
    }
}

/// The name of a status in an answer.
pub open spec fn status_label(status: BackgroundTaskStatus) -> Seq<char> {
    match status {
        BackgroundTaskStatus::Running => "Running"@,
        BackgroundTaskStatus::Completed => "Completed"@,
        BackgroundTaskStatus::Failed => "Failed"@,
        BackgroundTaskStatus::Cancelled => "Cancelled"@,
    }
}

impl BackgroundTaskStatus {
    /// The name of a status in a listing.
    pub fn name(&self) -> (r: &'static str)
        ensures
            r@ == status_name(*self),
    {
        match self {
            BackgroundTaskStatus::Running => "running",
            BackgroundTaskStatus::Completed => "completed",
            BackgroundTaskStatus::Failed => "failed",
            BackgroundTaskStatus::Cancelled => "cancelled",
        }
    }

    /// The name of a status in an answer.
    pub fn label(&self) -> (r: &'static str)
        ensures
            r@ == status_label(*self),
    {
        match self {
            BackgroundTaskStatus::Running => "Running",
            BackgroundTaskStatus::Completed => "Completed",
            BackgroundTaskStatus::Failed => "Failed",
            BackgroundTaskStatus::Cancelled => "Cancelled",
        }
    }
}

/// The record of a task that was just started.
pub open spec fn opened(
    task_id: Seq<char>,
    agent: Seq<char>,
    started_at: Seq<char>,
) -> TaskRecord {
    TaskRecord {
        task_id,
        agent,
        status: BackgroundTaskStatus::Running,
        output: None,
        error: None,
        started_at,
        finished_at: None,
    }
}

/// What became of a background run.
pub enum WorkerOutcome {
    /// It was cancelled together with its session.
    CancelledByParent,
    /// It gave an answer.
    Answered(ToolResult),
    /// It broke off.
    Broken(String),
}

/// The output of a background run, or why there is none.
pub open spec fn worker_result(outcome: WorkerOutcome) -> Result<Seq<char>, Seq<char>> {
    match outcome {
        WorkerOutcome::CancelledByParent => Err("Cancelled by parent session"@),
        WorkerOutcome::Answered(answer) => if answer.success {
            Ok(answer.output@)
        } else {
            Err(
                match answer.error {
                    Some(e) => e@,
                    None => "Unknown error"@,
                },
            )
        },
        WorkerOutcome::Broken(e) => Err(e@),
    }
}

/// The record of a running task once its run has ended. A reason that speaks of
/// cancelling makes it cancelled rather than failed.
pub open spec fn settled(
    record: TaskRecord,
    result: Result<Seq<char>, Seq<char>>,
    finished_at: Seq<char>,
) -> TaskRecord {
    match result {
        Ok(output) => TaskRecord {
            status: BackgroundTaskStatus::Completed,
            output: Some(output),
            error: None,
            finished_at: Some(finished_at),
            ..record
        },
        Err(reason) => TaskRecord {
            status: if text::occurs_in("Cancelled"@, reason) {
                BackgroundTaskStatus::Cancelled
            } else {
                BackgroundTaskStatus::Failed
            },
            output: None,
            error: Some(reason),
            finished_at: Some(finished_at),
            ..record
        },
    }
}

/// The record of a task after its run has ended. A task that is no longer
/// running, because a user has cancelled it meanwhile, stays as it is.
pub open spec fn after_run(
    record: TaskRecord,
    result: Result<Seq<char>, Seq<char>>,
    finished_at: Seq<char>,
) -> TaskRecord {
    if record.status == BackgroundTaskStatus::Running {
        settled(record, result, finished_at)
    } else {
        record
    }
}

/// The record of a running task once a user has cancelled it.
pub open spec fn cancelled(record: TaskRecord, finished_at: Seq<char>) -> TaskRecord {
    TaskRecord {
        status: BackgroundTaskStatus::Cancelled,
        error: Some("Cancelled by user request"@),
        finished_at: Some(finished_at),
        ..record
    }
}

/// The file of a task's record.
pub open spec fn record_path(results_dir: Seq<char>, task_id: Seq<char>) -> Seq<char> {
    paths::joined(results_dir, task_id + ".json"@)
}

/// The answer to the start of a background task.
pub open spec fn started_text(agent: Seq<char>, task_id: Seq<char>) -> Seq<char> {
    "Background task started for agent '"@ + agent + "'.\ntask_id: "@ + task_id
        + "\nUse action='check_result' with task_id='"@ + task_id + "' to retrieve the result."@
}

/// The complaint about a task id that is no UUID.
pub open spec fn invalid_id_text(task_id: Seq<char>) -> Seq<char> {
    "Invalid task_id '"@ + task_id + "': must be a valid UUID"@
}

/// A background task that is about to run.
pub struct BackgroundTask {
    /// Its record.
    pub record: BackgroundDelegateResult,
    /// The file of the record.
    pub path: String,
    /// The task with its context.
    pub prompt: String,
    /// The tool under which the agent runs.
    pub worker: DelegateTool,
}

/// What a background task of an agent is made of.
pub open spec fn is_background_task(
    task: BackgroundTask,
    tool: DelegateTool,
    agent: Seq<char>,
    policy: Arc<SecurityPolicy>,
    prompt: Seq<char>,
    context: Seq<char>,
) -> bool {
    &&& task.record@ == opened(task.record@.task_id, agent, task.record@.started_at)
    &&& task.path@ == record_path(tool.results_path(), task.record@.task_id)
    &&& task.prompt@ == dispatch::full_prompt(context, prompt)
    &&& is_worker(task.worker, tool, policy)
}

/// Whether a tool is another one with the target's policy in place of the
/// caller's and, for a token, a child of the other's.
pub open spec fn is_worker(
    worker: DelegateTool,
    tool: DelegateTool,
    policy: Arc<SecurityPolicy>,
) -> bool {
    &&& worker == (DelegateTool {
        security: policy,
        cancellation_token: worker.cancellation_token,
        ..tool
    })
    &&& call_ensures(
        CancellationToken::child_token,
        (&tool.cancellation_token,),
        worker.cancellation_token,
    )
}

impl DelegateTool {
    /// The tool under which a detached run of an agent goes on: this one with
    /// the target's policy, and a token that is cancelled with this tool's.
    pub(crate) fn worker(&self, policy: Arc<SecurityPolicy>) -> (r: DelegateTool)
        ensures
            is_worker(r, *self, policy),
    {
        let child_of = CancellationToken::child_token;
        DelegateTool {
            agents: Arc::clone(&self.agents),
            security: policy,
            global_credential: text::copy_optional(&self.global_credential),
            provider_runtime_options: Arc::clone(&self.provider_runtime_options),
            depth: self.depth,
            delegate_config: self.delegate_config,
            workspace_dir: self.workspace_dir.clone(),
            cancellation_token: child_of(&self.cancellation_token),
            providers_models: Arc::clone(&self.providers_models),
            risk_profiles: Arc::clone(&self.risk_profiles),
            runtime_profiles: Arc::clone(&self.runtime_profiles),
            skill_bundles: Arc::clone(&self.skill_bundles),
            root_config: match &self.root_config {
                Some(config) => Some(Arc::clone(config)),
                None => None,
            },
            caller_alias: self.caller_alias.clone(),
        }
    }

    /// Takes only a task id that is a UUID, so that the path of its record
    /// stays in the results directory.
    pub fn validate_task_id(task_id: &str) -> (r: Result<(), String>)
        ensures
            match r {
                Ok(()) => is_uuid(task_id@),
                Err(e) => !is_uuid(task_id@) && e@ == invalid_id_text(task_id@),
            },
    {
        if parses_as_uuid(task_id) {
            Ok(())
        } else {
            let mut out = "Invalid task_id '".to_owned();
            out.append(task_id);
            out.append("': must be a valid UUID");
            Err(out)
        }
    }

    /// The file of a task's record.
    pub fn record_file(&self, task_id: &str) -> (r: String)
        ensures
            r@ == record_path(self.results_path(), task_id@),
    {
        let dir = self.results_dir();
        let mut name = task_id.to_owned();
        name.append(".json");
        paths::join(&dir, &name)
    }
}

/// Prepares a background task under a given id, started at a given time.
pub fn prepare_background<'a>(
    cleared: &Cleared<'a>,
    prompt: &str,
    context: &str,
    task_id: String,
    started_at: String,
) -> (r: BackgroundTask)
    ensures
        is_background_task(
            r,
            cleared.tool(),
            cleared.name(),
            cleared.policy(),
            prompt@,
            context@,
        ),
        r.record@.task_id == task_id@,
        r.record@.started_at == started_at@,
{
    let tool = cleared.delegate_tool();
    let path = tool.record_file(&task_id);
    BackgroundTask {
        record: BackgroundDelegateResult {
            task_id,
            agent: cleared.agent_name().clone(),
            status: BackgroundTaskStatus::Running,
            output: None,
            error: None,
            started_at,
            finished_at: None,
        },
        path,
        prompt: dispatch::compose_prompt(context, prompt),
        worker: tool.worker(cleared.target_policy()),
    }
}

/// Prepares a background task under a fresh id, started now.
pub fn open_background<'a>(cleared: &Cleared<'a>, prompt: &str, context: &str) -> (r:
    BackgroundTask)
    ensures
        is_background_task(
            r,
            cleared.tool(),
            cleared.name(),
            cleared.policy(),
            prompt@,
            context@,
        ),
        drawn_id(r.record@.task_id),
        hyphenated(r.record@.task_id),
        is_uuid(r.record@.task_id),
        text::lowered(r.record@.task_id) == r.record@.task_id,
        r.record@.task_id[14] == '4',
        clock_reading(r.record@.started_at),
{
    let task_id = draw_id();
    prepare_background(cleared, prompt, context, task_id, read_clock())
}

impl BackgroundTask {
    /// The answer to the start of the task.
    pub fn started(&self) -> (r: ToolResult)
        ensures
            r@ == reply::produced(started_text(self.record@.agent, self.record@.task_id)),
    {
        let mut out = "Background task started for agent '".to_owned();
        out.append(&self.record.agent);
        out.append("'.\ntask_id: ");
        out.append(&self.record.task_id);
        out.append("\nUse action='check_result' with task_id='");
        out.append(&self.record.task_id);
        out.append("' to retrieve the result.");
        ToolResult::product(out)
    }
}

impl BackgroundDelegateResult {
    /// The record after the run has ended at a given time. A record that is no
    /// longer that of a running task is kept as it stands.
    pub fn settle(self, outcome: WorkerOutcome, finished_at: String) -> (r: Self)
        ensures
            r@ == after_run(self@, worker_result(outcome), finished_at@),
    {
        if self.status != BackgroundTaskStatus::Running {
            return self;
        }
        let result: Result<String, String> = match outcome {
            WorkerOutcome::CancelledByParent => Err("Cancelled by parent session".to_owned()),
            WorkerOutcome::Answered(answer) => if answer.success {
                Ok(answer.output)
            } else {
                Err(
                    match answer.error {
                        Some(e) => e,
                        None => "Unknown error".to_owned(),
                    },
                )
            },
            WorkerOutcome::Broken(e) => Err(e),
        };
        match result {
            Ok(output) => BackgroundDelegateResult {
                task_id: self.task_id,
                agent: self.agent,
                status: BackgroundTaskStatus::Completed,
                output: Some(output),
                error: None,
                started_at: self.started_at,
                finished_at: Some(finished_at),
            },
            Err(reason) => {
                let status = if text::contains_text(&reason, "Cancelled") {
                    BackgroundTaskStatus::Cancelled
                } else {
                    BackgroundTaskStatus::Failed
                };
                BackgroundDelegateResult {
                    task_id: self.task_id,
                    agent: self.agent,
                    status,
                    output: None,
                    error: Some(reason),
                    started_at: self.started_at,
                    finished_at: Some(finished_at),
                }
            },
        }
    }

    /// The record after the run has ended just now.
    pub fn settle_now(self, outcome: WorkerOutcome) -> (r: Self)
        ensures
            exists|now: Seq<char>|
                clock_reading(now) && r@ == #[trigger] after_run(
                    self@,
                    worker_result(outcome),
                    now,
                ),
    {
        self.settle(outcome, read_clock())
    }

    /// Cancels a running task at a given time: its new record, or the refusal
    /// where it is not running.
    pub fn cancel(self, task_id: &str, finished_at: String) -> (r: Result<Self, ToolResult>)
        ensures
            match r {
                Ok(record) => self.status == BackgroundTaskStatus::Running && record@ == cancelled(
                    self@,
                    finished_at@,
                ),
                Err(answer) => self.status != BackgroundTaskStatus::Running && answer@
                    == reply::refused(not_running_text(task_id@, self.status)),
            },
    {
        if self.status != BackgroundTaskStatus::Running {
            let mut out = "Task '".to_owned();
            out.append(task_id);
            out.append("' is not running (status: ");
            out.append(self.status.label());
            out.append(")");
            return Err(ToolResult::refusal(out));
        }
        Ok(
            BackgroundDelegateResult {
                task_id: self.task_id,
                agent: self.agent,
                status: BackgroundTaskStatus::Cancelled,
                output: self.output,
                error: Some("Cancelled by user request".to_owned()),
                started_at: self.started_at,
                finished_at: Some(finished_at),
            },
        )
    }

    /// Cancels a running task just now, and stops its run by the token that the
    /// run watches, where it is at hand.
    pub fn cancel_now(self, task_id: &str, run: Option<&CancellationToken>) -> (r: Result<
        Self,
        ToolResult,
    >)
        ensures
            match r {
                Ok(record) => {
                    &&& self.status == BackgroundTaskStatus::Running
                    &&& exists|now: Seq<char>|
                        clock_reading(now) && record@ == #[trigger] cancelled(self@, now)
                    &&& run matches Some(token) ==> call_ensures(
                        CancellationToken::cancel,
                        (token,),
                        (),
                    )
                },
                Err(answer) => self.status != BackgroundTaskStatus::Running && answer@
                    == reply::refused(not_running_text(task_id@, self.status)),
            },
    {
        let record = self.cancel(task_id, read_clock())?;
        if let Some(token) = run {
            let stop = CancellationToken::cancel;
            stop(token);
        }
        Ok(record)
    }

    /// The answer that shows the record, given its JSON text.
    pub fn show(self, rendered: String) -> (r: ToolResult)
        ensures
            r@ == shown(self@, rendered@),
    {
        let completed = self.status == BackgroundTaskStatus::Completed;
        ToolResult {
            success: completed,
            output: rendered,
            error: if completed {
                None
            } else {
                self.error
            },
        }
    }
}

/// The answer that shows a record, given its JSON text: a success for a
/// completed task, else a failure with the reason that the record gives.
pub open spec fn shown(record: TaskRecord, rendered: Seq<char>) -> reply::Reply {
    reply::Reply {
        success: record.status == BackgroundTaskStatus::Completed,
        output: rendered,
        error: if record.status == BackgroundTaskStatus::Completed {
            None
        } else {
            record.error
        },
    }
}

/// The answer for a task that cannot be cancelled any more.
pub open spec fn not_running_text(task_id: Seq<char>, status: BackgroundTaskStatus) -> Seq<char> {
    "Task '"@ + task_id + "' is not running (status: "@ + status_label(status) + ")"@
}

/// The record file of a task that a call asks about.
pub struct TaskFile {
    /// The task.
    pub task_id: String,
    /// The file of its record.
    pub path: String,
}

/// Whether `r` is the record file of the task that a call names; a complaint
/// where it names none; or the refusal of an id that is no UUID.
pub open spec fn names_task(
    tool: DelegateTool,
    call: CallTexts,
    complaint: Seq<char>,
    r: Result<Step<TaskFile>, String>,
) -> bool {
    match (call.task_id, r) {
        (None, Err(e)) => e@ == complaint,
        (Some(task_id), Ok(Step::Go(file))) => is_uuid(task_id) && file.task_id@ == task_id
            && file.path@ == record_path(tool.results_path(), task_id),
        (Some(task_id), Ok(Step::Answer(answer))) => !is_uuid(task_id) && answer@
            == reply::refused(invalid_id_text(task_id)),
        _ => false,
    }
}

/// The answer when there is nothing to list.
pub open spec fn nothing_listed() -> reply::Reply {
    reply::produced("No background delegate results found."@)
}

/// What a listing says of a task.
pub open spec fn summary(record: TaskRecord) -> Seq<(Seq<char>, Option<Seq<char>>)> {
    seq![
        ("task_id"@, Some(record.task_id)),
        ("agent"@, Some(record.agent)),
        ("status"@, Some(status_name(record.status))),
        ("started_at"@, Some(record.started_at)),
        ("finished_at"@, record.finished_at),
    ]
}

/// What a listing says of a list of tasks.
pub open spec fn summaries(records: Seq<BackgroundDelegateResult>) -> Seq<
    Seq<(Seq<char>, Option<Seq<char>>)>,
> {
    records.map_values(|record: BackgroundDelegateResult| summary(record@))
}

/// Whether a directory entry can be a record: its name ends in `.json` and has
/// something before it.
pub open spec fn record_name(name: Seq<char>) -> bool {
    name.len() > 5 && name.skip(name.len() - 5) == ".json"@
}

/// Whether a directory entry can be a record.
pub fn is_record_name(name: &str) -> (r: bool)
    ensures
        r == record_name(name@),
{
    let n: usize = name.unicode_len();
    if n <= 5 {
        return false;
    }
    assert(name@.subrange(n - 5, n as int) =~= name@.skip(n - 5));
    text::same_text(name.substring_char(n - 5, n), ".json")
}

/// What a listing says of a task.
fn summarize(record: &BackgroundDelegateResult) -> (r: Vec<(String, Option<String>)>)
    ensures
        r@.map_values(|m: (String, Option<String>)| (m.0@, text::optional(m.1))) == summary(
            record@,
        ),
{
    let mut row: Vec<(String, Option<String>)> = Vec::new();
    row.push(("task_id".to_owned(), Some(record.task_id.clone())));
    row.push(("agent".to_owned(), Some(record.agent.clone())));
    row.push(("status".to_owned(), Some(record.status.name().to_owned())));
    row.push(("started_at".to_owned(), Some(record.started_at.clone())));
    row.push(("finished_at".to_owned(), text::copy_optional(&record.finished_at)));
    assert(row@.map_values(|m: (String, Option<String>)| (m.0@, text::optional(m.1))) =~= summary(
        record@,
    ));
    row
}

/// What a listing says of a list of tasks.
pub fn listing_rows(records: &Vec<BackgroundDelegateResult>) -> (r: Vec<
    Vec<(String, Option<String>)>,
>)
    ensures
        row_texts(r@) == summaries(records@),
{
    let mut rows: Vec<Vec<(String, Option<String>)>> = Vec::new();
    let mut i: usize = 0;
    while i < records.len()
        invariant
            i <= records.len(),
            row_texts(rows@) == summaries(records@).take(i as int),
        decreases records.len() - i,
    {
        let ghost before = row_texts(rows@);
        rows.push(summarize(&records[i]));
        assert(row_texts(rows@) =~= before.push(summary(records[i as int]@)));
        assert(summaries(records@).take(i + 1) =~= summaries(records@).take(i as int).push(
            summary(records[i as int]@),
        ));
        i += 1;
    }
    assert(summaries(records@).take(records.len() as int) =~= summaries(records@));
    rows
}

/// The answer to a listing, given the JSON text of its rows.
pub fn answer_listing(count: usize, rendered: String) -> (r: ToolResult)
    ensures
        r@ == if count == 0 {
            nothing_listed()
        } else {
            reply::produced(rendered@)
        },
{
    if count == 0 {
        ToolResult::product("No background delegate results found.".to_owned())
    } else {
        ToolResult::product(rendered)
    }
}

impl DelegateTool {
    /// The task that a call to show a result asks about.
    pub fn handle_check_result(&self, call: &CallArguments) -> (r: Result<Step<TaskFile>, String>)
        ensures
            names_task(*self, call@, "Missing 'task_id' parameter for check_result"@, r),
    {
        match &call.task_id {
            Some(task_id) => Ok(self.task_file(task_id)),
            None => Err("Missing 'task_id' parameter for check_result".to_owned()),
        }
    }

    /// The task that a call to cancel asks about.
    pub fn handle_cancel_task(&self, call: &CallArguments) -> (r: Result<Step<TaskFile>, String>)
        ensures
            names_task(*self, call@, "Missing 'task_id' parameter for cancel_task"@, r),
    {
        match &call.task_id {
            Some(task_id) => Ok(self.task_file(task_id)),
            None => Err("Missing 'task_id' parameter for cancel_task".to_owned()),
        }
    }

    /// The record file of a task, or the refusal of an id that is no UUID.
    fn task_file(&self, task_id: &str) -> (r: Step<TaskFile>)
        ensures
            match r {
                Step::Go(file) => is_uuid(task_id@) && file.task_id@ == task_id@ && file.path@
                    == record_path(self.results_path(), task_id@),
                Step::Answer(answer) => !is_uuid(task_id@) && answer@ == reply::refused(
                    invalid_id_text(task_id@),
                ),
            },
    {
        match Self::validate_task_id(task_id) {
            Ok(()) => Step::Go(
                TaskFile { task_id: task_id.to_owned(), path: self.record_file(task_id) },
            ),
            Err(e) => Step::Answer(ToolResult::refusal(e)),
        }
    }

    /// The answer to a listing of these records. An error is that of the JSON
    /// rendering.
    pub fn handle_list_results(records: &Vec<BackgroundDelegateResult>) -> (r: Result<
        ToolResult,
        String,
    >)
        ensures
            r matches Ok(answer) && answer@ == if records.len() == 0 {
                nothing_listed()
            } else {
                reply::produced(pretty_objects(summaries(records@)))
            },
    {
        if records.len() == 0 {
            return Ok(answer_listing(0, String::new()));
        }
        match render_objects(&listing_rows(records)) {
            Ok(rendered) => Ok(answer_listing(records.len(), rendered)),
            Err(e) => Err(e),
        }
    }
}

impl TaskFile {
    /// The answer when there is no record to show.
    pub fn no_result(&self) -> (r: ToolResult)
        ensures
            r@ == reply::refused("No result found for task_id '"@ + self.task_id@ + "'"@),
    {
        let mut out = "No result found for task_id '".to_owned();
        out.append(&self.task_id);
        out.append("'");
        ToolResult::refusal(out)
    }

    /// The answer when there is no task to cancel.
    pub fn no_task(&self) -> (r: ToolResult)
        ensures
            r@ == reply::refused("No task found for task_id '"@ + self.task_id@ + "'"@),
    {
        let mut out = "No task found for task_id '".to_owned();
        out.append(&self.task_id);
        out.append("'");
        ToolResult::refusal(out)
    }

    /// The answer to a cancellation.
    pub fn cancel_requested(&self) -> (r: ToolResult)
        ensures
            r@ == reply::produced("Task '"@ + self.task_id@ + "' cancellation requested."@),
    {
        let mut out = "Task '".to_owned();
        out.append(&self.task_id);
        out.append("' cancellation requested.");
        ToolResult::product(out)
    }
}

proof fn lemma_uuid_has_no_slash(s: Seq<char>)
    requires
        is_uuid(s),
    ensures
        !s.contains('/'),
        s.len() >= 32,
{
    reveal_strlit("urn:uuid:");
    assert forall|i: int| 0 <= i < s.len() implies s[i] != '/' by {
        if hyphenated(s) {
        } else if s.len() == 38 {
            if 0 < i < 37 {
                assert(s.subrange(1, 37)[i - 1] == s[i]);
            }
        } else if s.len() == 45 {
            if i < 9 {
                assert(text::lowered(s.take(9))[i] == text::lower_char(s[i]));
                assert(text::lowered(s.take(9))[i] == "urn:uuid:"@[i]);
                assert("urn:uuid:"@[i] != '/');
            } else {
                assert(s.skip(9)[i - 9] == s[i]);
            }
        }
    }
}

/// The record of a task whose id was taken lies directly in the results
/// directory, whatever the id.
pub proof fn record_stays_in_results_dir(results_dir: Seq<char>, task_id: Seq<char>)
    requires
        is_uuid(task_id),
    ensures
        paths::components(record_path(results_dir, task_id)) == paths::components(
            results_dir,
        ).push(task_id + ".json"@),
        paths::starts_with(record_path(results_dir, task_id), results_dir),
{
    lemma_uuid_has_no_slash(task_id);
    reveal_strlit(".json");
    let name = task_id + ".json"@;
    assert(!name.contains('/')) by {
        assert forall|i: int| 0 <= i < name.len() implies name[i] != '/' by {
            if i < task_id.len() {
                assert(name[i] == task_id[i]);
            } else {
                assert(name[i] == ".json"@[i - task_id.len()]);
            }
        }
    }
    assert(paths::plain_name(name));
    paths::join_adds_component(results_dir, name);
    paths::join_stays_below(results_dir, name);
}

/// Different tasks have different record files, and every record file can be
/// told by its name.
pub proof fn records_are_distinct(results_dir: Seq<char>, a: Seq<char>, b: Seq<char>)
    requires
        is_uuid(a),
        is_uuid(b),
        a != b,
    ensures
        record_path(results_dir, a) != record_path(results_dir, b),
        record_name(a + ".json"@),
{
    record_stays_in_results_dir(results_dir, a);
    record_stays_in_results_dir(results_dir, b);
    let suffix = ".json"@;
    reveal_strlit(".json");
    assert((a + suffix).skip(a.len() as int) =~= suffix);
    if record_path(results_dir, a) == record_path(results_dir, b) {
        let dir = paths::components(results_dir);
        assert(dir.push(a + suffix).last() == dir.push(b + suffix).last());
        assert(a + suffix == b + suffix);
        assert(a.len() == b.len());
        assert(a =~= (a + suffix).take(a.len() as int));
        assert(b =~= (b + suffix).take(b.len() as int));
    }
}

/// What can happen to a task's record.
pub enum TaskEvent {
    /// The run ended.
    RunEnded { result: Result<Seq<char>, Seq<char>>, at: Seq<char> },
    /// A user asked to cancel the task.
    CancelAsked { at: Seq<char> },
}

/// A task's record after something happened: a request to cancel counts only
/// while the task is running, and so does the end of the run.
pub open spec fn after_event(record: TaskRecord, event: TaskEvent) -> TaskRecord {
    match event {
        TaskEvent::RunEnded { result, at } => after_run(record, result, at),
        TaskEvent::CancelAsked { at } => if record.status == BackgroundTaskStatus::Running {
            cancelled(record, at)
        } else {
            record
        },
    }
}

/// A task's record after a number of things happened, one after the other.
pub open spec fn after_events(record: TaskRecord, events: Seq<TaskEvent>) -> TaskRecord
    decreases events.len(),
{
    if events.len() == 0 {
        record
    } else {
        after_event(after_events(record, events.drop_last()), events.last())
    }
}

/// Whatever happens, the record of a task that is no longer running stays as it
/// is.
pub proof fn ended_task_is_final(record: TaskRecord, events: Seq<TaskEvent>)
    requires
        record.status != BackgroundTaskStatus::Running,
    ensures
        after_events(record, events) == record,
    decreases events.len(),
{
    if events.len() > 0 {
        ended_task_is_final(record, events.drop_last());
    }
}

/// What a task is and when it started stays as recorded, whatever happens; and
/// once something happened, the task is not running any more.
pub proof fn record_keeps_its_task(record: TaskRecord, events: Seq<TaskEvent>)
    ensures
        after_events(record, events).task_id == record.task_id,
        after_events(record, events).agent == record.agent,
        after_events(record, events).started_at == record.started_at,
        events.len() > 0 ==> after_events(record, events).status
            != BackgroundTaskStatus::Running,
    decreases events.len(),
{
    if events.len() > 0 {
        record_keeps_its_task(record, events.drop_last());
    }
}

/// A running task whose run has ended is completed exactly when the run gave a
/// result, has an output then and a reason otherwise, and stays so whatever
/// happens.
pub proof fn settled_task_is_final(
    record: TaskRecord,
    result: Result<Seq<char>, Seq<char>>,
    finished_at: Seq<char>,
    events: Seq<TaskEvent>,
)
    requires
        record.status == BackgroundTaskStatus::Running,
    ensures
        ({
            let ended = after_run(record, result, finished_at);
            &&& ended.status == BackgroundTaskStatus::Completed <==> result is Ok
            &&& ended.output is Some <==> result is Ok
            &&& ended.error is Some <==> result is Err
            &&& ended.finished_at == Some(finished_at)
            &&& after_events(ended, events) == ended
        }),
{
    ended_task_is_final(after_run(record, result, finished_at), events);
}

/// A cancelled task stays cancelled: however its run ends, and whatever else
/// happens, the record is left as it is, and whoever asks for the result is told
/// that a user cancelled the task.
pub proof fn cancelled_task_is_final(
    record: TaskRecord,
    cancelled_at: Seq<char>,
    events: Seq<TaskEvent>,
    rendered: Seq<char>,
)
    ensures
        ({
            let gone = cancelled(record, cancelled_at);
            let later = after_events(gone, events);
            &&& later == gone
            &&& later.status == BackgroundTaskStatus::Cancelled
            &&& later.finished_at == Some(cancelled_at)
            &&& !shown(later, rendered).success
            &&& shown(later, rendered).error == Some("Cancelled by user request"@)
        }),
        forall|result: Result<Seq<char>, Seq<char>>, finished_at: Seq<char>| #[trigger]
            after_run(cancelled(record, cancelled_at), result, finished_at) == cancelled(
                record,
                cancelled_at,
            ),
{
    ended_task_is_final(cancelled(record, cancelled_at), events);
}

/// A run that is cancelled with its session is recorded as cancelled.
pub proof fn session_end_cancels(record: TaskRecord, finished_at: Seq<char>)
    requires
        record.status == BackgroundTaskStatus::Running,
    ensures
        after_run(record, worker_result(WorkerOutcome::CancelledByParent), finished_at).status
            == BackgroundTaskStatus::Cancelled,
{
    reveal_strlit("Cancelled by parent session");
    reveal_strlit("Cancelled");
    let reason = "Cancelled by parent session"@;
    assert(reason.subrange(0int, 0int + "Cancelled"@.len()) =~= "Cancelled"@);
    assert(text::occurs_in("Cancelled"@, reason));
}

/// A detached run is routed as a run in the foreground is: how the agent is run
/// does not depend on the policy that the tool now carries.
pub proof fn worker_routes_alike(
    worker: DelegateTool,
    tool: DelegateTool,
    policy: Arc<SecurityPolicy>,
    agent: AliasedAgentConfig,
)
    requires
        is_worker(worker, tool, policy),
    ensures
        dispatch::run_mode(worker, agent) == dispatch::run_mode(tool, agent),
        dispatch::timeout_for(worker, agent, dispatch::run_mode(worker, agent))
            == dispatch::timeout_for(tool, agent, dispatch::run_mode(tool, agent)),
        worker.depth == tool.depth,
        worker.results_path() == tool.results_path(),
        worker.security == policy,
{
}

/// A detached run of a target carries the target's own profile, so that the
/// guard, asked again, finds both on one profile.
pub proof fn worker_passes_profile_comparison(
    worker: DelegateTool,
    tool: DelegateTool,
    policy: Arc<SecurityPolicy>,
    config: crate::schema::Config,
    target: Seq<char>,
    evidence: Option<&crate::guard::GuardEvidence>,
)
    requires
        is_worker(worker, tool, policy),
        config.agents.lookup(target) is Some,
        policy.risk_profile_name@ == text::trimmed(
            config.agents.lookup(target)->0.risk_profile@,
        ),
    ensures
        worker.refuses(config, target, evidence) is None,
{
}

/// A detached run goes through the guard once more, under the target's own
/// policy. It is refused there exactly when that policy cannot be resolved or
/// does not permit the target to delegate; the refusal then names the target's
/// profile.
pub proof fn second_pass_refuses_exactly(
    worker: DelegateTool,
    tool: DelegateTool,
    policy: Arc<SecurityPolicy>,
    config: Arc<crate::schema::Config>,
    target: Seq<char>,
    resolved: Result<SecurityPolicy, String>,
    evidence: Option<&crate::guard::GuardEvidence>,
)
    requires
        is_worker(worker, tool, policy),
        tool.root_config == Some(config),
        config.agents.lookup(target) is Some,
        policy.risk_profile_name@ == text::trimmed(
            config.agents.lookup(target)->0.risk_profile@,
        ),
    ensures
        crate::guard::policy_refusal(worker, target, resolved, evidence) == match resolved {
            Err(e) => Some(crate::guard::unresolved_text(target, e@)),
            Ok(_) => if policy.delegation_policy.permits_spec() {
                None
            } else {
                Some(crate::guard::forbidden_text(policy.risk_profile_name@))
            },
        },
{
}

/// Without a configuration a detached run passes the guard once more, as it did
/// the first time.
pub proof fn second_pass_without_config(
    worker: DelegateTool,
    tool: DelegateTool,
    policy: Arc<SecurityPolicy>,
    target: Seq<char>,
    resolved: Result<SecurityPolicy, String>,
    evidence: Option<&crate::guard::GuardEvidence>,
)
    requires
        is_worker(worker, tool, policy),
        tool.root_config is None,
    ensures
        crate::guard::policy_refusal(worker, target, resolved, evidence) is None,
{
}

} // verus!
