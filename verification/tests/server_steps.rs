use orchestrator::activity::{ActivityEventType, ActivityId, ActivityName, ActivityRunId};
use orchestrator::inmemory_db::Db;
use orchestrator::server::{
    complete_activity_step, complete_workflow_step, enqueue_activity_step, enqueue_workflow_step,
    handle_rerun_workflow, handle_worker_event, poll_activity_completion_step, poll_activity_step,
    poll_workflow_completion_step, poll_workflow_step, register_activity_step,
    register_workflow_step, rerun_workflow_step, ServerStep,
};
use orchestrator::worker::{completion_outcome, outcome_to_completion};
use orchestrator::worker_events::{RerunWorkflowPayload, RerunWorkflowResponse, ServerEvent, WorkerEvent};
use orchestrator::workflow::{WorkflowEventType, WorkflowId, WorkflowName, WorkflowRunId};

fn wf_name(s: &str) -> WorkflowName {
    WorkflowName(s.to_string())
}

fn act_name(s: &str) -> ActivityName {
    ActivityName(s.to_string())
}

fn assert_general_success(r: &ServerEvent) {
    assert!(matches!(r, ServerEvent::GeneralSuccess { success: true }));
}

/// Runs one activity to completion through the full poll / handler /
/// complete cycle, with `handler` standing in for the registered code.
fn run_one_activity(
    db: &mut Db,
    name: &str,
    now: &mut i64,
    handler: impl Fn(&str) -> Result<String, String>,
) -> Result<String, String> {
    *now += 1;
    let poll = poll_activity_step(db, &act_name(name), *now).expect("activity work pending");
    let outcome = handler(&poll.input);
    let (result, error) = outcome_to_completion(outcome);
    *now += 1;
    let r = complete_activity_step(
        db,
        result,
        error,
        poll.activity_id,
        poll.activity_run_id,
        poll.workflow_run_id,
        poll.max_attempts,
        poll.attempt_number,
        *now,
    );
    assert_general_success(&r);
    let c = poll_activity_completion_step(db, poll.activity_run_id).expect("activity terminal");
    completion_outcome(c.result, c.error).expect("activity payload")
}

#[test]
fn register_ten_times_yields_one_activity() {
    let mut db = Db::new();
    for i in 0..10u128 {
        let r = register_activity_step(&mut db, act_name("A"), ActivityId(i));
        assert_general_success(&r);
    }
    assert_eq!(db.activities.len(), 1);
    for i in 0..10u128 {
        let r = register_workflow_step(&mut db, wf_name("W"), WorkflowId(100 + i));
        assert_general_success(&r);
    }
    assert_eq!(db.workflows.len(), 1);
}

#[test]
fn enqueue_unknown_name_is_absorbed_and_appends_nothing() {
    let mut db = Db::new();
    let r = enqueue_workflow_step(&mut db, &wf_name("Nope"), "x".to_string(), WorkflowRunId(9), 1);
    assert_general_success(&r);
    assert!(db.workflow_events.is_empty());
    assert!(db.workflow_runs.is_empty());
    // the completion poll for that run never resolves
    assert!(poll_workflow_completion_step(&db, WorkflowRunId(9)).is_none());
}

#[test]
fn poll_with_no_pending_work_yields_nothing() {
    let mut db = Db::new();
    register_workflow_step(&mut db, wf_name("W"), WorkflowId(1));
    assert!(poll_workflow_step(&mut db, &wf_name("W"), 5).is_none());
    assert!(poll_activity_step(&mut db, &act_name("A"), 5).is_none());
}

#[test]
fn complete_with_empty_result_and_error_is_an_empty_success() {
    let mut db = Db::new();
    register_workflow_step(&mut db, wf_name("W"), WorkflowId(1));
    enqueue_workflow_step(&mut db, &wf_name("W"), "in".to_string(), WorkflowRunId(7), 1);
    poll_workflow_step(&mut db, &wf_name("W"), 2).expect("pending run");
    let r = complete_workflow_step(
        &mut db,
        "".to_string(),
        "".to_string(),
        WorkflowId(1),
        WorkflowRunId(7),
        None,
        3,
    );
    assert_general_success(&r);
    let terminal = db.get_completed_workflow(WorkflowRunId(7)).unwrap();
    assert_eq!(terminal.event_type, WorkflowEventType::Succeeded);
    assert_eq!(terminal.payload, "");
    // the completion envelope carries two empty payload fields
    let c = poll_workflow_completion_step(&db, WorkflowRunId(7)).unwrap();
    assert_eq!(c.result, "");
    assert_eq!(c.error, "");
}

#[test]
fn rerun_of_a_non_failed_run_is_refused() {
    let mut db = Db::new();
    register_workflow_step(&mut db, wf_name("W"), WorkflowId(1));
    enqueue_workflow_step(&mut db, &wf_name("W"), "in".to_string(), WorkflowRunId(7), 1);
    // pending run: not failed
    let r = rerun_workflow_step(&mut db, WorkflowRunId(7), WorkflowRunId(70), 2);
    assert!(matches!(r, RerunWorkflowResponse::NotFound));
    // unknown run
    let r = rerun_workflow_step(&mut db, WorkflowRunId(999), WorkflowRunId(71), 3);
    assert!(matches!(r, RerunWorkflowResponse::NotFound));
    // succeeded run: not failed either
    poll_workflow_step(&mut db, &wf_name("W"), 4).unwrap();
    complete_workflow_step(
        &mut db,
        "ok".to_string(),
        "".to_string(),
        WorkflowId(1),
        WorkflowRunId(7),
        None,
        5,
    );
    let r = rerun_workflow_step(&mut db, WorkflowRunId(7), WorkflowRunId(72), 6);
    assert!(matches!(r, RerunWorkflowResponse::NotFound));
    let r = handle_rerun_workflow(&mut db, RerunWorkflowPayload { workflow_run_id: WorkflowRunId(7) });
    assert!(matches!(r, RerunWorkflowResponse::NotFound));
}

#[test]
fn happy_path_sums_twice_and_completes() {
    let mut db = Db::new();
    let mut now: i64 = 0;
    register_activity_step(&mut db, act_name("SumActivity"), ActivityId(2));
    register_workflow_step(&mut db, wf_name("SumAndPrintWorkflow"), WorkflowId(1));

    // the client enqueues a run and will poll for its completion
    let client_run = WorkflowRunId(7);
    enqueue_workflow_step(&mut db, &wf_name("SumAndPrintWorkflow"), "3".to_string(), client_run, 1);

    // the workflow poller claims the run
    let poll = poll_workflow_step(&mut db, &wf_name("SumAndPrintWorkflow"), 2).unwrap();
    assert_eq!(poll.workflow_run_id, client_run);
    assert_eq!(poll.input, "3");
    assert!(poll.rerun_of_workflow_run_id.is_none());

    // the handler runs SumActivity twice with the workflow input
    let sum = |input: &str| -> Result<String, String> {
        let n: i32 = input.parse().map_err(|_| "Invalid string".to_string())?;
        Ok(format!("{}", n + 1))
    };
    now = 10;
    enqueue_activity_step(&mut db, &act_name("SumActivity"), poll.input.clone(), ActivityRunId(20), client_run, 3, now);
    let res = run_one_activity(&mut db, "SumActivity", &mut now, sum).unwrap();
    enqueue_activity_step(&mut db, &act_name("SumActivity"), poll.input.clone(), ActivityRunId(21), client_run, 3, now + 1);
    now += 1;
    let res_2 = run_one_activity(&mut db, "SumActivity", &mut now, sum).unwrap();

    let output = format!("Processed {}, res_2 {}", res, res_2);
    let (result, error) = outcome_to_completion(Ok(output));
    complete_workflow_step(
        &mut db,
        result,
        error,
        poll.workflow_id,
        poll.workflow_run_id,
        poll.rerun_of_workflow_run_id,
        now + 1,
    );

    // the client's completion poll resolves with the workflow's outcome
    let c = poll_workflow_completion_step(&db, client_run).unwrap();
    let outcome = completion_outcome(c.result, c.error).unwrap();
    assert_eq!(outcome, Ok("Processed 4, res_2 4".to_string()));
}

#[test]
fn handler_failure_makes_the_run_terminal_with_the_error() {
    let mut db = Db::new();
    let mut now: i64 = 0;
    register_activity_step(&mut db, act_name("FailActivity"), ActivityId(3));
    register_workflow_step(&mut db, wf_name("W"), WorkflowId(1));
    let run = WorkflowRunId(7);
    enqueue_workflow_step(&mut db, &wf_name("W"), "in".to_string(), run, 1);
    let poll = poll_workflow_step(&mut db, &wf_name("W"), 2).unwrap();

    now = 10;
    enqueue_activity_step(&mut db, &act_name("FailActivity"), "Fail input".to_string(), ActivityRunId(30), run, 3, now);
    let res = run_one_activity(&mut db, "FailActivity", &mut now, |_| Err("Sadge".to_string()));
    assert_eq!(res, Err("Sadge".to_string()));

    // the handler error propagates into the workflow completion
    let (result, error) = outcome_to_completion(res);
    complete_workflow_step(&mut db, result, error, poll.workflow_id, run, None, now + 1);
    let terminal = db.get_completed_workflow(run).unwrap();
    assert_eq!(terminal.event_type, WorkflowEventType::Failed);
    assert_eq!(terminal.payload, "Sadge");
    let c = poll_workflow_completion_step(&db, run).unwrap();
    assert_eq!(completion_outcome(c.result, c.error), Some(Err("Sadge".to_string())));
}

#[test]
fn rerun_memoizes_a_matching_past_success_and_reruns_the_rest() {
    let mut db = Db::new();
    let mut now: i64 = 0;
    register_activity_step(&mut db, act_name("EchoActivity"), ActivityId(2));
    register_activity_step(&mut db, act_name("FailActivity"), ActivityId(3));
    register_workflow_step(&mut db, wf_name("W"), WorkflowId(1));
    let run = WorkflowRunId(7);
    enqueue_workflow_step(&mut db, &wf_name("W"), "x".to_string(), run, 1);
    let poll = poll_workflow_step(&mut db, &wf_name("W"), 2).unwrap();

    // first run: the echo succeeds with its own input, then the next
    // activity fails, failing the whole run
    now = 10;
    enqueue_activity_step(&mut db, &act_name("EchoActivity"), "x".to_string(), ActivityRunId(20), run, 1, now);
    let res = run_one_activity(&mut db, "EchoActivity", &mut now, |s| Ok(s.to_string()));
    assert_eq!(res, Ok("x".to_string()));
    enqueue_activity_step(&mut db, &act_name("FailActivity"), "f".to_string(), ActivityRunId(21), run, 1, now + 1);
    now += 1;
    let res = run_one_activity(&mut db, "FailActivity", &mut now, |_| Err("Sadge".to_string()));
    let (result, error) = outcome_to_completion(res);
    complete_workflow_step(&mut db, result, error, poll.workflow_id, run, None, now + 1);
    now += 2;

    // the failed run is rerun under a fresh id carrying the original input
    let new_run = WorkflowRunId(70);
    let r = rerun_workflow_step(&mut db, run, new_run, now);
    assert!(matches!(r, RerunWorkflowResponse::NewRun { new_workflow_id } if new_workflow_id == new_run));
    let poll2 = poll_workflow_step(&mut db, &wf_name("W"), now + 1).unwrap();
    now += 1;
    assert_eq!(poll2.workflow_run_id, new_run);
    assert_eq!(poll2.input, "x");
    assert_eq!(poll2.rerun_of_workflow_run_id, Some(run));

    // the echo call is short-circuited: its fresh run goes straight to
    // `Succeeded` with the remembered payload and is never dispatched
    enqueue_activity_step(&mut db, &act_name("EchoActivity"), "x".to_string(), ActivityRunId(40), new_run, 1, now + 1);
    now += 1;
    let log = db
        .activity_events
        .iter()
        .find(|l| l.run_id == ActivityRunId(40))
        .expect("memoized run recorded");
    assert_eq!(log.events.len(), 1);
    assert_eq!(log.events[0].event_type, ActivityEventType::Succeeded);
    assert_eq!(log.events[0].payload, "x");
    assert!(poll_activity_step(&mut db, &act_name("EchoActivity"), now + 1).is_none());
    now += 1;
    let c = poll_activity_completion_step(&db, ActivityRunId(40)).unwrap();
    assert_eq!(completion_outcome(c.result, c.error), Some(Ok("x".to_string())));

    // the failing call holds no matching success and is executed again
    enqueue_activity_step(&mut db, &act_name("FailActivity"), "f".to_string(), ActivityRunId(41), new_run, 1, now + 1);
    now += 1;
    let log = db.activity_events.iter().find(|l| l.run_id == ActivityRunId(41)).unwrap();
    assert_eq!(log.events[0].event_type, ActivityEventType::Pending);
    let res = run_one_activity(&mut db, "FailActivity", &mut now, |_| Err("Sadge".to_string()));
    assert_eq!(res, Err("Sadge".to_string()));
}

#[test]
fn dispatch_answers_registers_and_polls() {
    let mut db = Db::new();
    let r = handle_worker_event(&mut db, WorkerEvent::RegisterWorkflow { name: wf_name("W") });
    assert!(matches!(r, ServerStep::Respond(ServerEvent::GeneralSuccess { success: true })));
    // re-registration through the dispatcher stays idempotent
    let r = handle_worker_event(&mut db, WorkerEvent::RegisterWorkflow { name: wf_name("W") });
    assert!(matches!(r, ServerStep::Respond(ServerEvent::GeneralSuccess { success: true })));
    assert_eq!(db.workflows.len(), 1);
    let r = handle_worker_event(&mut db, WorkerEvent::PollWorkflow { name: wf_name("W") });
    assert!(matches!(r, ServerStep::Wait));
    let r = handle_worker_event(
        &mut db,
        WorkerEvent::EnqueueWorkflow {
            name: wf_name("W"),
            input: "in".to_string(),
            workflow_run_id: WorkflowRunId(7),
        },
    );
    assert!(matches!(r, ServerStep::Respond(ServerEvent::GeneralSuccess { success: true })));
    let r = handle_worker_event(&mut db, WorkerEvent::PollWorkflow { name: wf_name("W") });
    match r {
        ServerStep::Respond(ServerEvent::PollWorkflowResponse(p)) => {
            assert_eq!(p.workflow_run_id, WorkflowRunId(7));
            assert_eq!(p.input, "in");
        },
        _ => panic!("expected dispatched work"),
    }
    let r = handle_worker_event(
        &mut db,
        WorkerEvent::PollWorkflowCompletion { workflow_run_id: WorkflowRunId(7) },
    );
    assert!(matches!(r, ServerStep::Wait));
    // the completion travels through the dispatcher into the store and
    // back out through the completion poll
    let wid = db.get_workflow_by_name(&wf_name("W")).unwrap().id;
    let r = handle_worker_event(
        &mut db,
        WorkerEvent::CompleteWorkflow {
            result: "out".to_string(),
            error: "".to_string(),
            workflow_id: wid,
            workflow_run_id: WorkflowRunId(7),
            rerun_of_workflow_run_id: None,
        },
    );
    assert!(matches!(r, ServerStep::Respond(ServerEvent::GeneralSuccess { success: true })));
    let terminal = db.get_completed_workflow(WorkflowRunId(7)).unwrap();
    assert_eq!(terminal.event_type, WorkflowEventType::Succeeded);
    assert_eq!(terminal.payload, "out");
    let r = handle_worker_event(
        &mut db,
        WorkerEvent::PollWorkflowCompletion { workflow_run_id: WorkflowRunId(7) },
    );
    match r {
        ServerStep::Respond(ServerEvent::PollWorkflowCompletion(c)) => {
            assert_eq!(c.result, "out");
            assert_eq!(c.error, "");
        },
        _ => panic!("expected the completion envelope"),
    }
    // a terminal run is protected through the dispatcher as well
    let r = handle_worker_event(
        &mut db,
        WorkerEvent::CompleteWorkflow {
            result: "".to_string(),
            error: "late".to_string(),
            workflow_id: wid,
            workflow_run_id: WorkflowRunId(7),
            rerun_of_workflow_run_id: None,
        },
    );
    assert!(matches!(r, ServerStep::Respond(ServerEvent::GeneralSuccess { success: true })));
    let terminal = db.get_completed_workflow(WorkflowRunId(7)).unwrap();
    assert_eq!(terminal.event_type, WorkflowEventType::Succeeded);
    assert_eq!(terminal.payload, "out");
}

#[test]
fn rerun_of_a_failed_run_through_the_dispatcher_yields_a_fresh_run() {
    let mut db = Db::new();
    register_workflow_step(&mut db, wf_name("W"), WorkflowId(1));
    let run = WorkflowRunId(7);
    enqueue_workflow_step(&mut db, &wf_name("W"), "in".to_string(), run, 1);
    poll_workflow_step(&mut db, &wf_name("W"), 2).unwrap();
    complete_workflow_step(
        &mut db,
        "".to_string(),
        "boom".to_string(),
        WorkflowId(1),
        run,
        None,
        3,
    );
    let r = handle_rerun_workflow(&mut db, RerunWorkflowPayload { workflow_run_id: run });
    let new_run = match r {
        RerunWorkflowResponse::NewRun { new_workflow_id } => new_workflow_id,
        RerunWorkflowResponse::NotFound => panic!("rerun of a failed run must be accepted"),
    };
    assert_ne!(new_run, run);
    let pending = db.get_last_workflow_run_event(new_run).unwrap();
    assert_eq!(pending.event_type, WorkflowEventType::Pending);
    assert_eq!(pending.payload, "in");
    assert_eq!(pending.rerun_of, Some(run));
}

#[test]
fn activity_terminal_states_are_exclusive() {
    let mut db = Db::new();
    register_activity_step(&mut db, act_name("A"), ActivityId(2));
    enqueue_activity_step(&mut db, &act_name("A"), "x".to_string(), ActivityRunId(20), WorkflowRunId(7), 1, 1);
    // no parent workflow run is recorded, so the enqueue was absorbed
    assert!(db.activity_events.is_empty());
    // with a recorded parent run the enqueue lands
    enqueue_workflow_step(&mut db, &wf_name("W"), "in".to_string(), WorkflowRunId(7), 1);
    register_workflow_step(&mut db, wf_name("W"), WorkflowId(1));
    enqueue_workflow_step(&mut db, &wf_name("W"), "in".to_string(), WorkflowRunId(7), 2);
    enqueue_activity_step(&mut db, &act_name("A"), "x".to_string(), ActivityRunId(20), WorkflowRunId(7), 1, 3);
    poll_activity_step(&mut db, &act_name("A"), 4).unwrap();
    complete_activity_step(&mut db, "ok".to_string(), "".to_string(), ActivityId(2), ActivityRunId(20), WorkflowRunId(7), 1, 1, 5);
    // a second completion attempt is ignored
    complete_activity_step(&mut db, "".to_string(), "late".to_string(), ActivityId(2), ActivityRunId(20), WorkflowRunId(7), 1, 1, 6);
    let log = db.activity_events.iter().find(|l| l.run_id == ActivityRunId(20)).unwrap();
    let succ = log.events.iter().filter(|e| e.event_type == ActivityEventType::Succeeded).count();
    let fail = log.events.iter().filter(|e| e.event_type == ActivityEventType::Failed).count();
    assert_eq!(succ, 1);
    assert_eq!(fail, 0);
}
