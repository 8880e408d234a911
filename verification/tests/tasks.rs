use std::sync::Arc;

use zeroclaw_agents::arguments::{read_arguments, CallArguments};
use zeroclaw_agents::delegate::DelegateTool;
use zeroclaw_agents::dispatch::{Cleared, Dispatch};
use zeroclaw_agents::evidence::GuardSteps;
use zeroclaw_agents::policy::{DelegationMode, SecurityPolicy};
use zeroclaw_agents::reply::{Step, ToolResult};
use zeroclaw_agents::schema::{AliasedAgentConfig, Config};
use zeroclaw_agents::table::AliasTable;
use zeroclaw_agents::tasks::{
    is_record_name, open_background, prepare_background, BackgroundDelegateResult,
    BackgroundTaskStatus, TaskFile, WorkerOutcome,
};

fn tool() -> DelegateTool {
    let mut agents = AliasTable::new();
    agents.insert(
        "researcher".to_string(),
        AliasedAgentConfig {
            model_provider: "ollama.researcher".into(),
            ..Default::default()
        },
    );
    DelegateTool::new(agents, None, Arc::new(SecurityPolicy::default()))
        .with_workspace_dir("/ws".to_string())
}

/// Steps of the guard under which every agent resolves as given.
fn given(
    resolve: impl Fn(&str) -> Result<SecurityPolicy, String>,
) -> GuardSteps<
    impl Fn(&Config, &str) -> Result<SecurityPolicy, String>,
    impl Fn(&Config, &str, &str, &str) -> SecurityPolicy,
    impl Fn(&Config, &str, SecurityPolicy) -> SecurityPolicy,
    impl Fn(&SecurityPolicy, &SecurityPolicy) -> Option<String>,
    impl Fn(&str) -> Option<String>,
> {
    GuardSteps {
        resolve: move |_: &Config, name: &str| resolve(name),
        base: |_: &Config, _: &str, _: &str, _: &str| SecurityPolicy::default(),
        equip: |_: &Config, _: &str, policy: SecurityPolicy| policy,
        compare: |_: &SecurityPolicy, _: &SecurityPolicy| None,
        canonical: |_: &str| None,
    }
}

fn cleared(tool: &DelegateTool) -> Cleared<'_> {
    tool.open_request("researcher", Dispatch::Background)
        .ok()
        .unwrap()
        .charge(Ok(()))
        .ok()
        .unwrap()
        .clear(&given(|_| Ok(SecurityPolicy::default())))
        .ok()
        .unwrap()
}

fn call(json: &str) -> CallArguments {
    read_arguments(&serde_json::from_str(json).unwrap())
}

fn record(status: BackgroundTaskStatus) -> BackgroundDelegateResult {
    BackgroundDelegateResult {
        task_id: "550e8400-e29b-41d4-a716-446655440000".to_string(),
        agent: "researcher".to_string(),
        status,
        output: None,
        error: None,
        started_at: "2026-01-01T00:00:00+00:00".to_string(),
        finished_at: None,
    }
}

/// A record as it is stored.
fn rendered(record: &BackgroundDelegateResult) -> String {
    let text = |t: &Option<String>| match t {
        Some(t) => serde_json::Value::from(t.as_str()),
        None => serde_json::Value::Null,
    };
    let mut object = serde_json::Map::new();
    object.insert("task_id".to_string(), record.task_id.as_str().into());
    object.insert("agent".to_string(), record.agent.as_str().into());
    object.insert("status".to_string(), record.status.name().into());
    object.insert("output".to_string(), text(&record.output));
    object.insert("error".to_string(), text(&record.error));
    object.insert("started_at".to_string(), record.started_at.as_str().into());
    object.insert("finished_at".to_string(), text(&record.finished_at));
    serde_json::to_string_pretty(&object).unwrap()
}

fn answered(output: &str) -> WorkerOutcome {
    WorkerOutcome::Answered(ToolResult {
        success: true,
        output: output.to_string(),
        error: None,
    })
}

fn go(step: Result<Step<TaskFile>, String>) -> TaskFile {
    match step.unwrap() {
        Step::Go(file) => file,
        Step::Answer(answer) => panic!("unexpected answer: {answer:?}"),
    }
}

fn answer(step: Result<Step<TaskFile>, String>) -> ToolResult {
    match step.unwrap() {
        Step::Go(_) => panic!("expected an answer"),
        Step::Answer(answer) => answer,
    }
}

#[test]
fn background_delegation_returns_task_id() {
    let tool = tool();
    let task = open_background(&cleared(&tool), "test background", "");
    let result = task.started();
    assert!(result.success);
    assert!(result.output.contains("task_id:"));
    assert!(result.output.contains("Background task started"));
    assert!(DelegateTool::validate_task_id(&task.record.task_id).is_ok());
    assert_eq!(task.record.task_id.len(), 36);
    assert_eq!(task.record.task_id.as_bytes()[14], b'4');
    assert_eq!(task.record.task_id, task.record.task_id.to_lowercase());
    assert_eq!(
        task.path,
        format!("/ws/delegate_results/{}.json", task.record.task_id)
    );
    assert_eq!(task.record.status, BackgroundTaskStatus::Running);
    assert_eq!(task.record.agent, "researcher");
    assert!(task.record.finished_at.is_none());
    assert!(task.record.started_at.contains('T'));
    assert_eq!(task.prompt, "test background");
}

#[test]
fn fresh_task_ids_differ() {
    let tool = tool();
    let cleared = cleared(&tool);
    let a = open_background(&cleared, "p", "");
    let b = open_background(&cleared, "p", "");
    assert_ne!(a.record.task_id, b.record.task_id);
    assert_ne!(a.path, b.path);
}

#[test]
fn prepared_task_is_as_given() {
    let tool = tool();
    let task = prepare_background(
        &cleared(&tool),
        "do it",
        "with care",
        "550e8400-e29b-41d4-a716-446655440000".to_string(),
        "now".to_string(),
    );
    assert_eq!(task.prompt, "[Context]\nwith care\n\n[Task]\ndo it");
    assert_eq!(task.record.started_at, "now");
    assert_eq!(
        task.started().output,
        "Background task started for agent 'researcher'.\ntask_id: 550e8400-e29b-41d4-a716-446655440000\nUse action='check_result' with task_id='550e8400-e29b-41d4-a716-446655440000' to retrieve the result."
    );
    assert_eq!(task.worker.workspace_dir, "/ws");
    assert_eq!(task.worker.depth, 0);
}

#[test]
fn background_unknown_agent_rejected() {
    let tool = tool();
    let answer = tool
        .open_request("nonexistent", Dispatch::Background)
        .err()
        .unwrap();
    assert!(!answer.success);
    assert!(answer.error.unwrap().contains("Unknown agent"));
}

#[test]
fn check_result_missing_task_id() {
    let tool = tool();
    let err = tool
        .handle_check_result(&call(r#"{"action": "check_result"}"#))
        .err()
        .unwrap();
    assert_eq!(err, "Missing 'task_id' parameter for check_result");
    let err = tool.handle_cancel_task(&call(r#"{}"#)).err().unwrap();
    assert_eq!(err, "Missing 'task_id' parameter for cancel_task");
}

#[test]
fn check_result_nonexistent_task() {
    let tool = tool();
    let fake_uuid = uuid::Uuid::new_v4().to_string();
    let json = format!(r#"{{"action": "check_result", "task_id": "{fake_uuid}"}}"#);
    let file = go(tool.handle_check_result(&call(&json)));
    assert_eq!(file.path, format!("/ws/delegate_results/{fake_uuid}.json"));
    let result = file.no_result();
    assert!(!result.success);
    assert!(result.error.unwrap().contains("No result found"));
}

#[test]
fn cancel_task_nonexistent() {
    let tool = tool();
    let fake_uuid = uuid::Uuid::new_v4().to_string();
    let json = format!(r#"{{"action": "cancel_task", "task_id": "{fake_uuid}"}}"#);
    let file = go(tool.handle_cancel_task(&call(&json)));
    let result = file.no_task();
    assert!(!result.success);
    assert!(result.error.unwrap().contains("No task found"));
    assert_eq!(
        file.cancel_requested().output,
        format!("Task '{fake_uuid}' cancellation requested.")
    );
}

#[test]
fn check_result_rejects_path_traversal() {
    let tool = tool();
    let result = answer(tool.handle_check_result(&call(
        r#"{"action": "check_result", "task_id": "../../etc/passwd"}"#,
    )));
    assert!(!result.success);
    let error = result.error.unwrap();
    assert!(error.contains("Invalid task_id"));
    assert_eq!(error, "Invalid task_id '../../etc/passwd': must be a valid UUID");
}

#[test]
fn cancel_task_rejects_path_traversal() {
    let tool = tool();
    let result = answer(tool.handle_cancel_task(&call(
        r#"{"action": "cancel_task", "task_id": "../../../etc/shadow"}"#,
    )));
    assert!(!result.success);
    assert!(result.error.unwrap().contains("Invalid task_id"));
}

#[test]
fn every_form_of_a_uuid_is_taken() {
    let ok = |id: &str| DelegateTool::validate_task_id(id).is_ok();
    assert!(ok("550e8400-e29b-41d4-a716-446655440000"));
    assert!(ok("550E8400-E29B-41D4-A716-446655440000"));
    assert!(ok("550e8400e29b41d4a716446655440000"));
    assert!(ok("{550e8400-e29b-41d4-a716-446655440000}"));
    assert!(ok("urn:uuid:550e8400-e29b-41d4-a716-446655440000"));
    assert!(ok("URN:UUID:550e8400-e29b-41d4-a716-446655440000"));
    assert!(!ok("550e8400-e29b-41d4-a716-44665544000"));
    assert!(!ok("550e8400-e29b-41d4-a716-44665544000g"));
    assert!(!ok("550e8400e-29b-41d4-a716-446655440000"));
    assert!(!ok("{550e8400e29b41d4a716446655440000}"));
    assert!(!ok("550e8400-e29b-41d4-a716-4466554400é"));
    assert!(!ok(" 550e8400-e29b-41d4-a716-446655440000"));
    assert!(!ok(""));
}

#[test]
fn background_task_result_persisted_to_disk() {
    let done = record(BackgroundTaskStatus::Running).settle(answered("the answer"), "later".to_string());
    assert_eq!(done.task_id, "550e8400-e29b-41d4-a716-446655440000");
    assert_eq!(done.agent, "researcher");
    assert_eq!(done.status, BackgroundTaskStatus::Completed);
    assert_eq!(done.output.as_deref(), Some("the answer"));
    assert_eq!(done.error, None);
    assert_eq!(done.finished_at.as_deref(), Some("later"));
    assert_eq!(done.started_at, "2026-01-01T00:00:00+00:00");
}

#[test]
fn failed_runs_keep_their_reason() {
    let failed = |outcome| record(BackgroundTaskStatus::Running).settle(outcome, "t".to_string());
    let r = failed(WorkerOutcome::Answered(ToolResult {
        success: false,
        output: "ignored".to_string(),
        error: Some("no model".to_string()),
    }));
    assert_eq!(r.status, BackgroundTaskStatus::Failed);
    assert_eq!(r.error.as_deref(), Some("no model"));
    assert_eq!(r.output, None);
    let r = failed(WorkerOutcome::Answered(ToolResult {
        success: false,
        output: String::new(),
        error: None,
    }));
    assert_eq!(r.error.as_deref(), Some("Unknown error"));
    let r = failed(WorkerOutcome::Broken("disk".to_string()));
    assert_eq!(r.status, BackgroundTaskStatus::Failed);
    let r = failed(WorkerOutcome::CancelledByParent);
    assert_eq!(r.status, BackgroundTaskStatus::Cancelled);
    assert_eq!(r.error.as_deref(), Some("Cancelled by parent session"));
}

#[test]
fn settling_and_cancelling_now_take_the_clock() {
    let done = record(BackgroundTaskStatus::Running).settle_now(WorkerOutcome::CancelledByParent);
    assert!(done.finished_at.unwrap().contains('T'));
    let gone = record(BackgroundTaskStatus::Running).cancel_now("id", None).unwrap();
    assert!(gone.finished_at.unwrap().contains('T'));
}

#[test]
fn only_running_tasks_are_cancelled() {
    let gone = record(BackgroundTaskStatus::Running)
        .cancel("id", "t".to_string())
        .unwrap();
    assert_eq!(gone.status, BackgroundTaskStatus::Cancelled);
    assert_eq!(gone.error.as_deref(), Some("Cancelled by user request"));
    assert_eq!(gone.finished_at.as_deref(), Some("t"));
    for (status, label) in [
        (BackgroundTaskStatus::Completed, "Completed"),
        (BackgroundTaskStatus::Failed, "Failed"),
        (BackgroundTaskStatus::Cancelled, "Cancelled"),
    ] {
        let answer = record(status).cancel("id", "t".to_string()).unwrap_err();
        assert!(!answer.success);
        assert_eq!(
            answer.error.unwrap(),
            format!("Task 'id' is not running (status: {label})")
        );
    }
}

#[test]
fn cancelled_tasks_stay_cancelled() {
    let later = [
        answered("too late"),
        WorkerOutcome::CancelledByParent,
        WorkerOutcome::Broken("disk".to_string()),
    ];
    for outcome in later {
        let gone = record(BackgroundTaskStatus::Running)
            .cancel("id", "first".to_string())
            .unwrap()
            .settle(outcome, "second".to_string());
        assert_eq!(gone.status, BackgroundTaskStatus::Cancelled);
        assert_eq!(gone.output, None);
        assert_eq!(gone.error.as_deref(), Some("Cancelled by user request"));
        assert_eq!(gone.finished_at.as_deref(), Some("first"));
        let shown = gone.show("{}".to_string());
        assert!(!shown.success);
        assert_eq!(shown.error.as_deref(), Some("Cancelled by user request"));
    }
    let gone = record(BackgroundTaskStatus::Running)
        .cancel_now("id", None)
        .unwrap()
        .settle_now(answered("too late"));
    assert_eq!(gone.status, BackgroundTaskStatus::Cancelled);
}

#[test]
fn ended_tasks_do_not_change() {
    let done = record(BackgroundTaskStatus::Running)
        .settle(answered("first"), "t".to_string())
        .settle(WorkerOutcome::CancelledByParent, "u".to_string());
    assert_eq!(done.status, BackgroundTaskStatus::Completed);
    assert_eq!(done.output.as_deref(), Some("first"));
    assert_eq!(done.finished_at.as_deref(), Some("t"));
    let answer = done.cancel("id", "v".to_string()).unwrap_err();
    assert_eq!(
        answer.error.unwrap(),
        "Task 'id' is not running (status: Completed)"
    );
}

#[test]
fn cancelling_a_task_stops_its_own_run() {
    let tool = tool();
    let cleared = cleared(&tool);
    let stopped = open_background(&cleared, "p", "");
    let other = open_background(&cleared, "p", "");
    let token = stopped.worker.cancellation_token().clone();
    assert!(!token.is_cancelled());
    assert!(stopped.record.cancel_now("id", Some(&token)).is_ok());
    assert!(token.is_cancelled());
    assert!(!other.worker.cancellation_token().is_cancelled());
    assert!(!tool.cancellation_token().is_cancelled());
    // A task that has ended is not stopped again.
    let idle = tokio_util::sync::CancellationToken::new();
    assert!(record(BackgroundTaskStatus::Completed)
        .cancel_now("id", Some(&idle))
        .is_err());
    assert!(!idle.is_cancelled());
}

#[test]
fn background_runs_end_with_their_session() {
    let tool = tool();
    let task = open_background(&cleared(&tool), "p", "");
    tool.cancel_all_background_tasks();
    assert!(task.worker.cancellation_token().is_cancelled());
}

/// Takes a request through the guard, and its detached run once more: why the
/// second pass is refused, if it is.
fn second_pass(own_mode: DelegationMode) -> Option<String> {
    let agent = || AliasedAgentConfig {
        risk_profile: "rp".to_string(),
        ..Default::default()
    };
    let policy = |mode| {
        let mut policy = SecurityPolicy::default();
        policy.risk_profile_name = "rp".to_string();
        policy.delegation_policy.mode = mode;
        policy
    };
    let mut agents = AliasTable::new();
    agents.insert("researcher".to_string(), agent());
    let mut config = Config::default();
    config.agents.insert("researcher".to_string(), agent());
    let tool = DelegateTool::new(agents, None, Arc::new(policy(DelegationMode::Allow)))
        .with_root_config(Arc::new(config));
    let pass = |tool: &DelegateTool| {
        tool.clear_request(
            "researcher",
            Dispatch::Background,
            |_| Ok(()),
            &given(|_| Ok(policy(own_mode))),
        )
        .map(|cleared| open_background(&cleared, "p", "").worker)
    };
    let worker = pass(&tool).ok().unwrap();
    pass(&worker).err().map(|answer| answer.error.unwrap())
}

#[test]
fn detached_runs_need_a_target_that_may_delegate() {
    assert_eq!(second_pass(DelegationMode::Allow), None);
    assert_eq!(
        second_pass(DelegationMode::Forbidden).unwrap(),
        "delegation is forbidden by the caller's delegation_policy; set [risk_profiles.rp].delegation_policy mode = \"allow\""
    );
}

#[test]
fn check_result_retrieves_persisted_background_result() {
    let tool = tool();
    let task = open_background(&cleared(&tool), "retrieval test", "");
    let task_id = task.record.task_id.clone();
    let ended = task.record.settle_now(WorkerOutcome::Answered(ToolResult {
        success: false,
        output: String::new(),
        error: Some("no model".to_string()),
    }));
    let json = format!(r#"{{"action": "check_result", "task_id": "{task_id}"}}"#);
    let file = go(tool.handle_check_result(&call(&json)));
    assert_eq!(file.path, task.path);
    let stored = rendered(&ended);
    let check = ended.show(stored);
    assert!(check.output.contains(&task_id));
    assert!(check.output.contains("researcher"));
    assert!(!check.success);
    assert_eq!(check.error.as_deref(), Some("no model"));
}

#[test]
fn only_completed_tasks_are_shown_as_a_success() {
    let mut done = record(BackgroundTaskStatus::Completed);
    done.error = Some("left over".to_string());
    let stored = rendered(&done);
    let shown = done.show(stored.clone());
    assert!(shown.success);
    assert_eq!(shown.output, stored);
    assert_eq!(shown.error, None);

    let mut failed = record(BackgroundTaskStatus::Failed);
    failed.error = Some("no model".to_string());
    let shown = failed.show("{}".to_string());
    assert!(!shown.success);
    assert_eq!(shown.error.as_deref(), Some("no model"));

    let shown = record(BackgroundTaskStatus::Running).show("{}".to_string());
    assert!(!shown.success);
    assert_eq!(shown.error, None);
}

#[test]
fn list_results_empty() {
    let result = DelegateTool::handle_list_results(&vec![]).unwrap();
    assert!(result.success);
    assert!(result.output.contains("No background delegate results"));
    assert_eq!(result.output, "No background delegate results found.");
}

#[test]
fn list_results_includes_background_tasks() {
    let mut done = record(BackgroundTaskStatus::Completed);
    done.finished_at = Some("later".to_string());
    let rows = vec![record(BackgroundTaskStatus::Running), done];
    let list = DelegateTool::handle_list_results(&rows).unwrap();
    assert!(list.success);
    assert!(list.output.contains("researcher"));
    let parsed: serde_json::Value = serde_json::from_str(&list.output).unwrap();
    let items = parsed.as_array().unwrap();
    assert_eq!(items.len(), 2);
    assert_eq!(items[0]["status"].as_str(), Some("running"));
    assert!(items[0]["finished_at"].is_null());
    assert_eq!(items[1]["status"].as_str(), Some("completed"));
    assert_eq!(items[1]["finished_at"].as_str(), Some("later"));
    assert_eq!(
        items[1]["task_id"].as_str(),
        Some("550e8400-e29b-41d4-a716-446655440000")
    );
    assert_eq!(items[1].as_object().unwrap().len(), 5);
}

#[test]
fn record_files_are_told_by_their_names() {
    assert!(is_record_name("550e8400-e29b-41d4-a716-446655440000.json"));
    assert!(is_record_name("a.json"));
    assert!(!is_record_name(".json"));
    assert!(!is_record_name("a.json.tmp"));
    assert!(!is_record_name("ajson"));
    assert!(!is_record_name(""));
}
