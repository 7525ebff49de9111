use orchestrator::activity::{Activity, ActivityEvent, ActivityEventType, ActivityId, ActivityName, ActivityRunId};
use orchestrator::inmemory_db::Db;
use orchestrator::workflow::{Workflow, WorkflowEvent, WorkflowEventType, WorkflowId, WorkflowName, WorkflowRunId};

fn wf_name(s: &str) -> WorkflowName {
    WorkflowName(s.to_string())
}

fn act_name(s: &str) -> ActivityName {
    ActivityName(s.to_string())
}

fn wf_event(
    wid: u128,
    run: u128,
    t: WorkflowEventType,
    payload: &str,
    rerun_of: Option<u128>,
    at: i64,
) -> WorkflowEvent {
    WorkflowEvent {
        workflow_id: WorkflowId(wid),
        run_id: WorkflowRunId(run),
        event_type: t,
        payload: payload.to_string(),
        rerun_of: rerun_of.map(WorkflowRunId),
        created_at: at,
    }
}

fn act_event(
    aid: u128,
    arun: u128,
    wrun: u128,
    t: ActivityEventType,
    payload: &str,
    at: i64,
) -> ActivityEvent {
    ActivityEvent {
        activity_id: ActivityId(aid),
        activity_run_id: ActivityRunId(arun),
        workflow_run_id: WorkflowRunId(wrun),
        event_type: t,
        payload: payload.to_string(),
        created_at: at,
        attempt_number: 1,
        max_attempts: 1,
    }
}

#[test]
fn add_workflow_is_idempotent_on_name() {
    let mut db = Db::new();
    for i in 0..10u128 {
        db.add_workflow(Workflow { id: WorkflowId(i), name: wf_name("W") });
    }
    assert_eq!(db.workflows.len(), 1);
    // the first registration wins
    assert_eq!(db.get_workflow_by_name(&wf_name("W")).unwrap().id, WorkflowId(0));
    assert!(db.workflow_exists(&wf_name("W")));
    assert!(!db.workflow_exists(&wf_name("V")));
}

#[test]
fn add_activity_is_idempotent_on_name() {
    let mut db = Db::new();
    for i in 0..10u128 {
        db.add_activity(Activity { id: ActivityId(i), name: act_name("A") });
    }
    assert_eq!(db.activities.len(), 1);
    assert_eq!(db.get_activity_by_name(&act_name("A")).unwrap().id, ActivityId(0));
}

#[test]
fn events_append_and_run_is_listed_once() {
    let mut db = Db::new();
    db.add_workflow_event(wf_event(1, 7, WorkflowEventType::Pending, "in", None, 10));
    db.add_workflow_event(wf_event(1, 7, WorkflowEventType::Started, "", None, 20));
    // the run appears exactly once in its parent's run list
    assert_eq!(db.workflow_runs.len(), 1);
    let listed: Vec<_> = db.workflow_runs[0].runs.iter().filter(|r| **r == WorkflowRunId(7)).collect();
    assert_eq!(listed.len(), 1);
    let last = db.get_last_workflow_run_event(WorkflowRunId(7)).unwrap();
    assert_eq!(last.event_type, WorkflowEventType::Started);
    let first = db.get_first_workflow_run_event(WorkflowRunId(7)).unwrap();
    assert_eq!(first.event_type, WorkflowEventType::Pending);
    assert_eq!(first.payload, "in");
}

#[test]
fn stamps_are_monotone_even_when_the_clock_goes_back() {
    let mut db = Db::new();
    db.add_workflow_event(wf_event(1, 7, WorkflowEventType::Pending, "", None, 100));
    // the clock jumps backwards; the stored stamp must still move forward
    db.add_workflow_event(wf_event(1, 7, WorkflowEventType::Started, "", None, 5));
    let first = db.get_first_workflow_run_event(WorkflowRunId(7)).unwrap();
    let last = db.get_last_workflow_run_event(WorkflowRunId(7)).unwrap();
    assert_eq!(first.created_at, 100);
    assert_eq!(last.created_at, 101);
    assert_eq!(last.event_type, WorkflowEventType::Started);
}

#[test]
fn terminal_events_are_exclusive_and_final() {
    let mut db = Db::new();
    db.add_workflow_event(wf_event(1, 7, WorkflowEventType::Pending, "", None, 1));
    db.add_workflow_event(wf_event(1, 7, WorkflowEventType::Succeeded, "ok", None, 2));
    // further appends to a terminal run are ignored
    db.add_workflow_event(wf_event(1, 7, WorkflowEventType::Failed, "boom", None, 3));
    db.add_workflow_event(wf_event(1, 7, WorkflowEventType::Pending, "again", None, 4));
    let succ = db
        .workflow_events
        .iter()
        .find(|l| l.run_id == WorkflowRunId(7))
        .unwrap()
        .events
        .iter()
        .filter(|e| e.event_type == WorkflowEventType::Succeeded)
        .count();
    let fail = db
        .workflow_events
        .iter()
        .find(|l| l.run_id == WorkflowRunId(7))
        .unwrap()
        .events
        .iter()
        .filter(|e| e.event_type == WorkflowEventType::Failed)
        .count();
    assert_eq!(succ, 1);
    assert_eq!(fail, 0);
    let completed = db.get_completed_workflow(WorkflowRunId(7)).unwrap();
    assert_eq!(completed.event_type, WorkflowEventType::Succeeded);
    assert_eq!(completed.payload, "ok");
}

#[test]
fn first_pending_scans_runs_in_insertion_order() {
    let mut db = Db::new();
    db.add_workflow(Workflow { id: WorkflowId(1), name: wf_name("W") });
    db.add_workflow_event(wf_event(1, 10, WorkflowEventType::Pending, "a", None, 1));
    db.add_workflow_event(wf_event(1, 11, WorkflowEventType::Pending, "b", None, 2));
    let p = db.get_first_pending_workflow(wf_name("W")).unwrap();
    assert_eq!(p.run_id, WorkflowRunId(10));
    assert_eq!(p.payload, "a");
    // claiming the first run moves the scan to the second
    db.add_workflow_event(wf_event(1, 10, WorkflowEventType::Started, "", None, 3));
    let p2 = db.get_first_pending_workflow(wf_name("W")).unwrap();
    assert_eq!(p2.run_id, WorkflowRunId(11));
    // no pending work at all
    db.add_workflow_event(wf_event(1, 11, WorkflowEventType::Started, "", None, 4));
    assert!(db.get_first_pending_workflow(wf_name("W")).is_none());
    assert!(db.get_first_pending_workflow(wf_name("Nope")).is_none());
}

#[test]
fn first_pending_activity_works_like_the_workflow_side() {
    let mut db = Db::new();
    db.add_activity(Activity { id: ActivityId(2), name: act_name("A") });
    db.add_activity_event(act_event(2, 20, 7, ActivityEventType::Pending, "x", 1));
    let p = db.get_first_pending_activity(act_name("A")).unwrap();
    assert_eq!(p.activity_run_id, ActivityRunId(20));
    assert_eq!(p.payload, "x");
}

#[test]
fn memoization_lookup_matches_latest_event_by_run_and_payload() {
    let mut db = Db::new();
    db.add_activity(Activity { id: ActivityId(2), name: act_name("A") });
    // a finished run under workflow run 7 whose result equals the probe input
    db.add_activity_event(act_event(2, 20, 7, ActivityEventType::Pending, "x", 1));
    db.add_activity_event(act_event(2, 20, 7, ActivityEventType::Succeeded, "x", 2));
    // a finished run whose result differs from its input
    db.add_activity_event(act_event(2, 21, 7, ActivityEventType::Pending, "3", 3));
    db.add_activity_event(act_event(2, 21, 7, ActivityEventType::Succeeded, "4", 4));
    let hit = db
        .get_success_activity_event_for_run(WorkflowRunId(7), ActivityId(2), "x")
        .unwrap();
    assert_eq!(hit.activity_run_id, ActivityRunId(20));
    assert_eq!(hit.payload, "x");
    // the lookup goes by the latest event's payload, not by the run's input
    assert!(db
        .get_success_activity_event_for_run(WorkflowRunId(7), ActivityId(2), "3")
        .is_none());
    assert_eq!(
        db.get_success_activity_event_for_run(WorkflowRunId(7), ActivityId(2), "4")
            .unwrap()
            .activity_run_id,
        ActivityRunId(21)
    );
    // a different past workflow run never matches
    assert!(db
        .get_success_activity_event_for_run(WorkflowRunId(8), ActivityId(2), "x")
        .is_none());
}
