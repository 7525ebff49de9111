//! Server-side handling of worker events.
//!
//! Each request tag of the protocol has a step function that applies the
//! request to the event store and builds the response. The long-polling
//! requests (`PollWorkflow`, `PollActivity`, and the two completion polls)
//! are phrased as single steps: the step either delivers work and records
//! the transition, or reports that there is nothing to deliver yet, in
//! which case the surrounding process sleeps for the poll interval and
//! calls the step again.

use vstd::prelude::*;

use crate::activity::{Activity, ActivityEvent, ActivityEventType, ActivityId, ActivityName, ActivityRunId};
use crate::inmemory_db::{
    count_activities, count_workflows, has_act_terminal, has_wf_terminal,
    lemma_act_run_listed_exactly_once, lemma_find_count_activity, lemma_find_count_workflow,
    lemma_first_pending_act_props, lemma_first_pending_wf_props, lemma_memo_scan_props,
    lemma_wf_history_facts, lemma_wf_run_listed_exactly_once, next_stamp, Db,
};
use crate::text::str_eq;
use crate::trusted;
use crate::worker_events::{
    PollActivityCompletion, PollActivityResponse, PollWorkflowCompletion, PollWorkflowResponse,
    RerunWorkflowPayload, RerunWorkflowResponse, ServerEvent, WorkerEvent,
};
use crate::workflow::{
    Workflow, WorkflowEvent, WorkflowEventType, WorkflowId, WorkflowName, WorkflowRunId,
};

verus! {

/// What one application of a worker event to the store yields: a response
/// to send, or the instruction to wait out a poll interval and retry.
pub enum ServerStep {
    Respond(ServerEvent),
    Wait,
}

/// The store effect of registering a workflow under `name`: for some drawn
/// id the workflow table gains one entry, an existing name is left alone,
/// and afterwards exactly one workflow of that name exists.
pub open spec fn register_workflow_effect(s0: Db, s1: Db, name: WorkflowName) -> bool {
    &&& s0.spec_workflow_named(name@) is Some ==> s1 == s0
    &&& (s0.spec_workflow_named(name@) is None ==> exists|id: WorkflowId|
        s1.workflows@ == s0.workflows@.push((Workflow { id, name })))
    &&& s1.spec_workflow_named(name@) is Some
    &&& count_workflows(s1.workflows@, name@) == 1
    &&& forall|n: Seq<char>|
        n != name@ ==> #[trigger] s1.spec_workflow_named(n) == s0.spec_workflow_named(n)
    &&& s1.activities@ == s0.activities@
    &&& s1.workflow_runs@ == s0.workflow_runs@
    &&& s1.activity_runs@ == s0.activity_runs@
    &&& s1.workflow_events@ == s0.workflow_events@
    &&& s1.activity_events@ == s0.activity_events@
    &&& s1.last_stamp == s0.last_stamp
}

/// The store effect of registering an activity under `name`.
pub open spec fn register_activity_effect(s0: Db, s1: Db, name: ActivityName) -> bool {
    &&& s0.spec_activity_named(name@) is Some ==> s1 == s0
    &&& (s0.spec_activity_named(name@) is None ==> exists|id: ActivityId|
        s1.activities@ == s0.activities@.push((Activity { id, name })))
    &&& s1.spec_activity_named(name@) is Some
    &&& count_activities(s1.activities@, name@) == 1
    &&& forall|n: Seq<char>|
        n != name@ ==> #[trigger] s1.spec_activity_named(n) == s0.spec_activity_named(n)
    &&& s1.workflows@ == s0.workflows@
    &&& s1.workflow_runs@ == s0.workflow_runs@
    &&& s1.activity_runs@ == s0.activity_runs@
    &&& s1.workflow_events@ == s0.workflow_events@
    &&& s1.activity_events@ == s0.activity_events@
    &&& s1.last_stamp == s0.last_stamp
}

/// The store effect of enqueueing a workflow run: an unknown name or an
/// already terminal run leaves the store untouched; otherwise, for some
/// clock reading, exactly the `Pending` event is appended and the run is
/// listed.
pub open spec fn enqueue_workflow_effect(
    s0: Db,
    s1: Db,
    name: WorkflowName,
    input: String,
    run: WorkflowRunId,
) -> bool {
    &&& s0.spec_workflow_named(name@) is None ==> s1 == s0
    &&& (match s0.spec_workflow_named(name@) {
        Some(w0) => {
            &&& has_wf_terminal(s0.wf_history(run)) ==> s1 == s0
            &&& !has_wf_terminal(s0.wf_history(run)) ==> ({
                &&& exists|t: i64|
                    #![trigger next_stamp(s0.last_stamp, t)]
                    s1.wf_history(run) == s0.wf_history(run).push(
                        (WorkflowEvent {
                            workflow_id: w0.id,
                            run_id: run,
                            event_type: WorkflowEventType::Pending,
                            payload: input,
                            rerun_of: None,
                            created_at: next_stamp(s0.last_stamp, t),
                        }),
                    )
                &&& forall|r0: WorkflowRunId|
                    r0 != run ==> #[trigger] s1.wf_history(r0) == s0.wf_history(r0)
                &&& s1.wf_runs(w0.id) == (if s0.wf_runs(w0.id).contains(run) {
                    s0.wf_runs(w0.id)
                } else {
                    s0.wf_runs(w0.id).push(run)
                })
                &&& forall|w: WorkflowId| w != w0.id ==> #[trigger] s1.wf_runs(w) == s0.wf_runs(w)
            })
        },
        None => true,
    })
    &&& s1.workflows@ == s0.workflows@
    &&& s1.activities@ == s0.activities@
    &&& s1.activity_runs@ == s0.activity_runs@
    &&& s1.activity_events@ == s0.activity_events@
}

/// The store effect of enqueueing an activity run: unknown workflow run or
/// activity name or an already terminal activity run leaves the store
/// untouched; on a rerun with a remembered matching payload, for some clock
/// reading exactly the `Succeeded` event with that payload is appended —
/// the short-circuit — and otherwise exactly the `Pending` event.
pub open spec fn enqueue_activity_effect(
    s0: Db,
    s1: Db,
    name: ActivityName,
    input: String,
    arun: ActivityRunId,
    wrun: WorkflowRunId,
    max_attempts: i64,
) -> bool {
    &&& s0.spec_last_wf_event(wrun) is None ==> s1 == s0
    &&& s0.spec_last_wf_event(wrun) is Some && s0.spec_activity_named(name@) is None ==> s1 == s0
    &&& (match s0.spec_last_wf_event(wrun) {
        Some(le) => match s0.spec_activity_named(name@) {
            None => true,
            Some(a0) => ({
                let memo = (if le.rerun_of is Some {
                    s0.spec_memo_hit(le.rerun_of->0, a0.id, input@)
                } else {
                    None
                });
                &&& has_act_terminal(s0.act_history(arun)) ==> s1 == s0
                &&& !has_act_terminal(s0.act_history(arun)) ==> ({
                    &&& (match memo {
                        Some(hit) => exists|t: i64|
                            #![trigger next_stamp(s0.last_stamp, t)]
                            s1.act_history(arun) == s0.act_history(arun).push(
                                (ActivityEvent {
                                    activity_id: a0.id,
                                    activity_run_id: arun,
                                    workflow_run_id: wrun,
                                    event_type: ActivityEventType::Succeeded,
                                    payload: hit.payload,
                                    created_at: next_stamp(s0.last_stamp, t),
                                    attempt_number: 1,
                                    max_attempts,
                                }),
                            ),
                        None => exists|t: i64|
                            #![trigger next_stamp(s0.last_stamp, t)]
                            s1.act_history(arun) == s0.act_history(arun).push(
                                (ActivityEvent {
                                    activity_id: a0.id,
                                    activity_run_id: arun,
                                    workflow_run_id: wrun,
                                    event_type: ActivityEventType::Pending,
                                    payload: input,
                                    created_at: next_stamp(s0.last_stamp, t),
                                    attempt_number: 1,
                                    max_attempts,
                                }),
                            ),
                    })
                    &&& forall|r0: ActivityRunId|
                        r0 != arun ==> #[trigger] s1.act_history(r0) == s0.act_history(r0)
                })
            }),
        },
        None => true,
    })
    &&& s1.workflows@ == s0.workflows@
    &&& s1.activities@ == s0.activities@
    &&& s1.workflow_runs@ == s0.workflow_runs@
    &&& s1.workflow_events@ == s0.workflow_events@
}

/// The store effect of completing a workflow run: an already terminal run
/// is left untouched; otherwise, for some clock reading, exactly one
/// terminal event is appended — `Succeeded` carrying `result` when `error`
/// is empty (even when `result` is empty too), else `Failed` carrying
/// `error`.
pub open spec fn complete_workflow_effect(
    s0: Db,
    s1: Db,
    result: String,
    error: String,
    workflow_id: WorkflowId,
    run: WorkflowRunId,
    rerun_of: Option<WorkflowRunId>,
) -> bool {
    &&& has_wf_terminal(s0.wf_history(run)) ==> s1 == s0
    &&& !has_wf_terminal(s0.wf_history(run)) ==> ({
        &&& exists|t: i64|
            #![trigger next_stamp(s0.last_stamp, t)]
            s1.wf_history(run) == s0.wf_history(run).push(
                (WorkflowEvent {
                    workflow_id,
                    run_id: run,
                    event_type: (if error@.len() == 0 {
                        WorkflowEventType::Succeeded
                    } else {
                        WorkflowEventType::Failed
                    }),
                    payload: (if error@.len() == 0 {
                        result
                    } else {
                        error
                    }),
                    rerun_of,
                    created_at: next_stamp(s0.last_stamp, t),
                }),
            )
        &&& forall|r0: WorkflowRunId|
            r0 != run ==> #[trigger] s1.wf_history(r0) == s0.wf_history(r0)
    })
    &&& s1.workflows@ == s0.workflows@
    &&& s1.activities@ == s0.activities@
    &&& s1.activity_runs@ == s0.activity_runs@
    &&& s1.activity_events@ == s0.activity_events@
}

/// The store effect of completing an activity run; the same empty-string
/// convention and terminal protection as [`complete_workflow_effect`].
pub open spec fn complete_activity_effect(
    s0: Db,
    s1: Db,
    result: String,
    error: String,
    activity_id: ActivityId,
    arun: ActivityRunId,
    wrun: WorkflowRunId,
    max_attempts: i64,
    attempt_number: i64,
) -> bool {
    &&& has_act_terminal(s0.act_history(arun)) ==> s1 == s0
    &&& !has_act_terminal(s0.act_history(arun)) ==> ({
        &&& exists|t: i64|
            #![trigger next_stamp(s0.last_stamp, t)]
            s1.act_history(arun) == s0.act_history(arun).push(
                (ActivityEvent {
                    activity_id,
                    activity_run_id: arun,
                    workflow_run_id: wrun,
                    event_type: (if error@.len() == 0 {
                        ActivityEventType::Succeeded
                    } else {
                        ActivityEventType::Failed
                    }),
                    payload: (if error@.len() == 0 {
                        result
                    } else {
                        error
                    }),
                    created_at: next_stamp(s0.last_stamp, t),
                    attempt_number,
                    max_attempts,
                }),
            )
        &&& forall|r0: ActivityRunId|
            r0 != arun ==> #[trigger] s1.act_history(r0) == s0.act_history(r0)
    })
    &&& s1.workflows@ == s0.workflows@
    &&& s1.activities@ == s0.activities@
    &&& s1.workflow_runs@ == s0.workflow_runs@
    &&& s1.workflow_events@ == s0.workflow_events@
}

/// The store effect of claiming the pending workflow run whose latest
/// event is `p`: its history gains exactly one `Started` event, stamped at
/// some clock reading; nothing else moves.
pub open spec fn poll_workflow_claim_effect(s0: Db, s1: Db, p: WorkflowEvent) -> bool {
    &&& ({
        let h1 = s1.wf_history(p.run_id);
        &&& h1.len() == s0.wf_history(p.run_id).len() + 1
        &&& h1.drop_last() == s0.wf_history(p.run_id)
        &&& h1.last().workflow_id == p.workflow_id
        &&& h1.last().run_id == p.run_id
        &&& h1.last().event_type is Started
        &&& h1.last().payload@ == Seq::<char>::empty()
        &&& h1.last().rerun_of == p.rerun_of
        &&& exists|t: i64|
            #![trigger next_stamp(s0.last_stamp, t)]
            h1.last().created_at == next_stamp(s0.last_stamp, t)
    })
    &&& forall|r0: WorkflowRunId|
        r0 != p.run_id ==> #[trigger] s1.wf_history(r0) == s0.wf_history(r0)
    &&& forall|w: WorkflowId| #[trigger] s1.wf_runs(w) == s0.wf_runs(w)
    &&& s1.workflows@ == s0.workflows@
    &&& s1.activities@ == s0.activities@
    &&& s1.activity_runs@ == s0.activity_runs@
    &&& s1.activity_events@ == s0.activity_events@
}

/// The store effect of claiming the pending activity run whose latest
/// event is `p`.
pub open spec fn poll_activity_claim_effect(s0: Db, s1: Db, p: ActivityEvent) -> bool {
    &&& ({
        let h1 = s1.act_history(p.activity_run_id);
        &&& h1.len() == s0.act_history(p.activity_run_id).len() + 1
        &&& h1.drop_last() == s0.act_history(p.activity_run_id)
        &&& h1.last().activity_id == p.activity_id
        &&& h1.last().activity_run_id == p.activity_run_id
        &&& h1.last().workflow_run_id == p.workflow_run_id
        &&& h1.last().event_type is Started
        &&& h1.last().payload@ == Seq::<char>::empty()
        &&& h1.last().attempt_number == p.attempt_number
        &&& h1.last().max_attempts == p.max_attempts
        &&& exists|t: i64|
            #![trigger next_stamp(s0.last_stamp, t)]
            h1.last().created_at == next_stamp(s0.last_stamp, t)
    })
    &&& forall|r0: ActivityRunId|
        r0 != p.activity_run_id ==> #[trigger] s1.act_history(r0) == s0.act_history(r0)
    &&& forall|a: ActivityId| #[trigger] s1.act_runs(a) == s0.act_runs(a)
    &&& s1.workflows@ == s0.workflows@
    &&& s1.activities@ == s0.activities@
    &&& s1.workflow_runs@ == s0.workflow_runs@
    &&& s1.workflow_events@ == s0.workflow_events@
}

/// Registers a workflow under `name`, creating it with id `id` when the
/// name is new; issued any number of times, the store ends up with exactly
/// one workflow of that name.
pub fn register_workflow_step(db: &mut Db, name: WorkflowName, id: WorkflowId) -> (r: ServerEvent)
    requires
        old(db).wf(),
        old(db).populated(),
    ensures
        final(db).wf(),
        final(db).populated(),
        r == (ServerEvent::GeneralSuccess { success: true }),
        old(db).spec_workflow_named(name@) is Some ==> *final(db) == *old(db),
        old(db).spec_workflow_named(name@) is None ==> final(db).workflows@ == old(
            db,
        ).workflows@.push((Workflow { id, name })),
        final(db).spec_workflow_named(name@) is Some,
        count_workflows(final(db).workflows@, name@) == 1,
        forall|n: Seq<char>|
            n != name@ ==> #[trigger] final(db).spec_workflow_named(n) == old(
                db,
            ).spec_workflow_named(n),
        final(db).activities@ == old(db).activities@,
        final(db).workflow_runs@ == old(db).workflow_runs@,
        final(db).activity_runs@ == old(db).activity_runs@,
        final(db).workflow_events@ == old(db).workflow_events@,
        final(db).activity_events@ == old(db).activity_events@,
        final(db).last_stamp == old(db).last_stamp,
{
    let exists_already = db.workflow_exists(&name);
    if !exists_already {
        db.add_workflow(Workflow { id, name });
    } else {
        proof {
            lemma_find_count_workflow(db.workflows@, name@);
        }
    }
    ServerEvent::GeneralSuccess { success: true }
}

/// Registers an activity under `name`; idempotent like
/// [`register_workflow_step`].
pub fn register_activity_step(db: &mut Db, name: ActivityName, id: ActivityId) -> (r: ServerEvent)
    requires
        old(db).wf(),
        old(db).populated(),
    ensures
        final(db).wf(),
        final(db).populated(),
        r == (ServerEvent::GeneralSuccess { success: true }),
        old(db).spec_activity_named(name@) is Some ==> *final(db) == *old(db),
        old(db).spec_activity_named(name@) is None ==> final(db).activities@ == old(
            db,
        ).activities@.push((Activity { id, name })),
        final(db).spec_activity_named(name@) is Some,
        count_activities(final(db).activities@, name@) == 1,
        forall|n: Seq<char>|
            n != name@ ==> #[trigger] final(db).spec_activity_named(n) == old(
                db,
            ).spec_activity_named(n),
        final(db).workflows@ == old(db).workflows@,
        final(db).workflow_runs@ == old(db).workflow_runs@,
        final(db).activity_runs@ == old(db).activity_runs@,
        final(db).workflow_events@ == old(db).workflow_events@,
        final(db).activity_events@ == old(db).activity_events@,
        final(db).last_stamp == old(db).last_stamp,
{
    let exists_already = db.activity_exists(&name);
    if !exists_already {
        db.add_activity(Activity { id, name });
    } else {
        proof {
            lemma_find_count_activity(db.activities@, name@);
        }
    }
    ServerEvent::GeneralSuccess { success: true }
}

/// Enqueues a run of the workflow registered under `name`: appends a
/// `Pending` event carrying `input` for run `workflow_run_id`. A name with
/// no registered workflow is silently ignored, and so is a run that already
/// reached a terminal state.
pub fn enqueue_workflow_step(
    db: &mut Db,
    name: &WorkflowName,
    input: String,
    workflow_run_id: WorkflowRunId,
    now: i64,
) -> (r: ServerEvent)
    requires
        old(db).wf(),
        old(db).populated(),
    ensures
        final(db).wf(),
        final(db).populated(),
        r == (ServerEvent::GeneralSuccess { success: true }),
        old(db).spec_workflow_named(name@) is None ==> *final(db) == *old(db),
        old(db).spec_workflow_named(name@) matches Some(w0) ==> ({
            &&& has_wf_terminal(old(db).wf_history(workflow_run_id)) ==> *final(db) == *old(db)
            &&& !has_wf_terminal(old(db).wf_history(workflow_run_id)) ==> ({
                &&& final(db).wf_history(workflow_run_id) == old(db).wf_history(
                    workflow_run_id,
                ).push(
                    (WorkflowEvent {
                        workflow_id: w0.id,
                        run_id: workflow_run_id,
                        event_type: WorkflowEventType::Pending,
                        payload: input,
                        rerun_of: None,
                        created_at: next_stamp(old(db).last_stamp, now),
                    }),
                )
                &&& forall|r0: WorkflowRunId|
                    r0 != workflow_run_id ==> #[trigger] final(db).wf_history(r0) == old(
                        db,
                    ).wf_history(r0)
                &&& final(db).wf_runs(w0.id) == (if old(db).wf_runs(w0.id).contains(
                    workflow_run_id,
                ) {
                    old(db).wf_runs(w0.id)
                } else {
                    old(db).wf_runs(w0.id).push(workflow_run_id)
                })
                &&& forall|w: WorkflowId|
                    w != w0.id ==> #[trigger] final(db).wf_runs(w) == old(db).wf_runs(w)
            })
        }),
        final(db).workflows@ == old(db).workflows@,
        final(db).activities@ == old(db).activities@,
        final(db).activity_runs@ == old(db).activity_runs@,
        final(db).activity_events@ == old(db).activity_events@,
{
    match db.get_workflow_by_name(name) {
        Some(workflow) => {
            db.add_workflow_event(
                WorkflowEvent {
                    workflow_id: workflow.id,
                    run_id: workflow_run_id,
                    event_type: WorkflowEventType::Pending,
                    payload: input,
                    rerun_of: None,
                    created_at: now,
                },
            );
        },
        None => {},
    }
    ServerEvent::GeneralSuccess { success: true }
}

/// Enqueues a run of the activity registered under `name` on behalf of
/// workflow run `workflow_run_id`. When that workflow run is a rerun of a
/// past run which already holds a matching result for `input`, the new
/// activity run is appended directly as `Succeeded` with the remembered
/// payload and never dispatched; otherwise it is appended as `Pending`.
/// An unknown workflow run or activity name is silently ignored.
pub fn enqueue_activity_step(
    db: &mut Db,
    name: &ActivityName,
    input: String,
    activity_run_id: ActivityRunId,
    workflow_run_id: WorkflowRunId,
    max_attempts: i64,
    now: i64,
) -> (r: ServerEvent)
    requires
        old(db).wf(),
        old(db).populated(),
    ensures
        final(db).wf(),
        final(db).populated(),
        r == (ServerEvent::GeneralSuccess { success: true }),
        old(db).spec_last_wf_event(workflow_run_id) is None ==> *final(db) == *old(db),
        old(db).spec_last_wf_event(workflow_run_id) is Some && old(db).spec_activity_named(
            name@,
        ) is None ==> *final(db) == *old(db),
        (match old(db).spec_last_wf_event(workflow_run_id) {
            Some(le) => match old(db).spec_activity_named(name@) {
                None => true,
                Some(a0) => ({
                let memo = (if le.rerun_of is Some {
                    old(db).spec_memo_hit(le.rerun_of->0, a0.id, input@)
                } else {
                    None
                });
                &&& has_act_terminal(old(db).act_history(activity_run_id)) ==> *final(db) == *old(
                    db,
                )
                &&& !has_act_terminal(old(db).act_history(activity_run_id)) ==> ({
                    &&& memo matches Some(hit) ==> final(db).act_history(activity_run_id) == old(
                        db,
                    ).act_history(activity_run_id).push(
                        (ActivityEvent {
                            activity_id: a0.id,
                            activity_run_id,
                            workflow_run_id,
                            event_type: ActivityEventType::Succeeded,
                            payload: hit.payload,
                            created_at: next_stamp(old(db).last_stamp, now),
                            attempt_number: 1,
                            max_attempts,
                        }),
                    )
                    &&& memo is None ==> final(db).act_history(activity_run_id) == old(
                        db,
                    ).act_history(activity_run_id).push(
                        (ActivityEvent {
                            activity_id: a0.id,
                            activity_run_id,
                            workflow_run_id,
                            event_type: ActivityEventType::Pending,
                            payload: input,
                            created_at: next_stamp(old(db).last_stamp, now),
                            attempt_number: 1,
                            max_attempts,
                        }),
                    )
                    &&& forall|r0: ActivityRunId|
                        r0 != activity_run_id ==> #[trigger] final(db).act_history(r0) == old(
                            db,
                        ).act_history(r0)
                })
            }),
            },
            None => true,
        }),
        final(db).workflows@ == old(db).workflows@,
        final(db).activities@ == old(db).activities@,
        final(db).workflow_runs@ == old(db).workflow_runs@,
        final(db).workflow_events@ == old(db).workflow_events@,
{
    let last = db.get_last_workflow_run_event(workflow_run_id);
    match last {
        Some(workflow) => {
            match db.get_activity_by_name(name) {
                Some(activity) => {
                    match workflow.rerun_of {
                        Some(past_workflow_run_id) => {
                            let hit = db.get_success_activity_event_for_run(
                                past_workflow_run_id,
                                activity.id,
                                input.as_str(),
                            );
                            proof {
                                lemma_memo_scan_props(
                                    *db,
                                    db.act_runs(activity.id),
                                    past_workflow_run_id,
                                    input@,
                                );
                            }
                            match hit {
                                Some(past_success) => {
                                    if str_eq(past_success.payload.as_str(), input.as_str()) {
                                        db.add_activity_event(
                                            ActivityEvent {
                                                activity_id: activity.id,
                                                activity_run_id,
                                                workflow_run_id,
                                                event_type: ActivityEventType::Succeeded,
                                                payload: past_success.payload,
                                                created_at: now,
                                                attempt_number: 1,
                                                max_attempts,
                                            },
                                        );
                                        return ServerEvent::GeneralSuccess { success: true };
                                    }
                                },
                                None => {},
                            }
                        },
                        None => {},
                    }
                    db.add_activity_event(
                        ActivityEvent {
                            activity_id: activity.id,
                            activity_run_id,
                            workflow_run_id,
                            event_type: ActivityEventType::Pending,
                            payload: input,
                            created_at: now,
                            attempt_number: 1,
                            max_attempts,
                        },
                    );
                },
                None => {},
            }
        },
        None => {},
    }
    ServerEvent::GeneralSuccess { success: true }
}

/// One iteration of the `PollWorkflow` long poll: claims the first run of
/// the workflow registered under `name` whose latest event is `Pending`,
/// records `Started` for it, and hands it out; yields nothing when no run
/// is pending, in which case the store is untouched.
pub fn poll_workflow_step(db: &mut Db, name: &WorkflowName, now: i64) -> (r: Option<
    PollWorkflowResponse,
>)
    requires
        old(db).wf(),
        old(db).populated(),
    ensures
        final(db).wf(),
        final(db).populated(),
        r is None <==> old(db).spec_first_pending_wf(name@) is None,
        r is None ==> *final(db) == *old(db),
        old(db).spec_first_pending_wf(name@) matches Some(p) ==> ({
            &&& r matches Some(resp) && resp.workflow_run_id == p.run_id
                && resp.rerun_of_workflow_run_id == p.rerun_of && resp.workflow_id == p.workflow_id
                && resp.name@ == name@ && resp.input == p.payload
            &&& ({
                let h1 = final(db).wf_history(p.run_id);
                &&& h1.len() == old(db).wf_history(p.run_id).len() + 1
                &&& h1.drop_last() == old(db).wf_history(p.run_id)
                &&& h1.last().workflow_id == p.workflow_id
                &&& h1.last().run_id == p.run_id
                &&& h1.last().event_type is Started
                &&& h1.last().payload@ == Seq::<char>::empty()
                &&& h1.last().rerun_of == p.rerun_of
                &&& h1.last().created_at == next_stamp(old(db).last_stamp, now)
            })
            &&& forall|r0: WorkflowRunId|
                r0 != p.run_id ==> #[trigger] final(db).wf_history(r0) == old(db).wf_history(r0)
            &&& forall|w: WorkflowId| #[trigger] final(db).wf_runs(w) == old(db).wf_runs(w)
        }),
        final(db).workflows@ == old(db).workflows@,
        final(db).activities@ == old(db).activities@,
        final(db).activity_runs@ == old(db).activity_runs@,
        final(db).activity_events@ == old(db).activity_events@,
{
    match db.get_first_pending_workflow(name.clone()) {
        Some(pending) => {
            proof {
                let w0 = db.spec_workflow_named(name@)->Some_0;
                lemma_first_pending_wf_props(*db, db.wf_runs(w0.id));
                lemma_wf_run_listed_exactly_once(
                    *db,
                    pending.run_id,
                    db.wf_history(pending.run_id).len() - 1,
                );
            }
            let started = WorkflowEvent {
                workflow_id: pending.workflow_id,
                run_id: pending.run_id,
                event_type: WorkflowEventType::Started,
                rerun_of: pending.rerun_of,
                payload: String::new(),
                created_at: now,
            };
            db.add_workflow_event(started);
            proof {
                assert forall|w: WorkflowId| #[trigger]
                    db.wf_runs(w) == old(db).wf_runs(w) by {};
                assert(db.wf_history(pending.run_id).drop_last() =~= old(db).wf_history(
                    pending.run_id,
                ));
            }
            Some(
                PollWorkflowResponse {
                    workflow_run_id: pending.run_id,
                    rerun_of_workflow_run_id: pending.rerun_of,
                    workflow_id: pending.workflow_id,
                    name: name.clone(),
                    input: pending.payload,
                },
            )
        },
        None => None,
    }
}

/// One iteration of the `PollActivity` long poll; symmetric with
/// [`poll_workflow_step`]. The dispatched attempt number is the pending
/// event's own, since a freshly enqueued run is dispatched on its recorded
/// attempt; a latest event other than `Pending` would mark a retry left by
/// the caller and would be dispatched with the attempt number raised, but
/// the pending scan never yields one.
pub fn poll_activity_step(db: &mut Db, name: &ActivityName, now: i64) -> (r: Option<
    PollActivityResponse,
>)
    requires
        old(db).wf(),
        old(db).populated(),
    ensures
        final(db).wf(),
        final(db).populated(),
        r is None <==> old(db).spec_first_pending_act(name@) is None,
        r is None ==> *final(db) == *old(db),
        old(db).spec_first_pending_act(name@) matches Some(p) ==> ({
            &&& r matches Some(resp) && resp.activity_run_id == p.activity_run_id
                && resp.workflow_run_id == p.workflow_run_id && resp.activity_id == p.activity_id
                && resp.name@ == name@ && resp.input == p.payload && resp.max_attempts
                == p.max_attempts && resp.attempt_number == p.attempt_number
            &&& ({
                let h1 = final(db).act_history(p.activity_run_id);
                &&& h1.len() == old(db).act_history(p.activity_run_id).len() + 1
                &&& h1.drop_last() == old(db).act_history(p.activity_run_id)
                &&& h1.last().activity_id == p.activity_id
                &&& h1.last().activity_run_id == p.activity_run_id
                &&& h1.last().workflow_run_id == p.workflow_run_id
                &&& h1.last().event_type is Started
                &&& h1.last().payload@ == Seq::<char>::empty()
                &&& h1.last().attempt_number == p.attempt_number
                &&& h1.last().max_attempts == p.max_attempts
                &&& h1.last().created_at == next_stamp(old(db).last_stamp, now)
            })
            &&& forall|r0: ActivityRunId|
                r0 != p.activity_run_id ==> #[trigger] final(db).act_history(r0) == old(
                    db,
                ).act_history(r0)
            &&& forall|a: ActivityId| #[trigger] final(db).act_runs(a) == old(db).act_runs(a)
        }),
        final(db).workflows@ == old(db).workflows@,
        final(db).activities@ == old(db).activities@,
        final(db).workflow_runs@ == old(db).workflow_runs@,
        final(db).workflow_events@ == old(db).workflow_events@,
{
    match db.get_first_pending_activity(name.clone()) {
        Some(pending) => {
            proof {
                let a0 = db.spec_activity_named(name@)->Some_0;
                lemma_first_pending_act_props(*db, db.act_runs(a0.id));
                lemma_act_run_listed_exactly_once(
                    *db,
                    pending.activity_run_id,
                    db.act_history(pending.activity_run_id).len() - 1,
                );
            }
            let attempt_number = if pending.event_type == ActivityEventType::Pending {
                pending.attempt_number
            } else {
                pending.attempt_number + 1
            };
            let started = ActivityEvent {
                activity_id: pending.activity_id,
                activity_run_id: pending.activity_run_id,
                workflow_run_id: pending.workflow_run_id,
                event_type: ActivityEventType::Started,
                payload: String::new(),
                created_at: now,
                attempt_number,
                max_attempts: pending.max_attempts,
            };
            db.add_activity_event(started);
            proof {
                assert forall|a: ActivityId| #[trigger]
                    db.act_runs(a) == old(db).act_runs(a) by {};
                assert(db.act_history(pending.activity_run_id).drop_last() =~= old(
                    db,
                ).act_history(pending.activity_run_id));
            }
            Some(
                PollActivityResponse {
                    activity_run_id: pending.activity_run_id,
                    activity_id: pending.activity_id,
                    workflow_run_id: pending.workflow_run_id,
                    name: name.clone(),
                    input: pending.payload,
                    max_attempts: pending.max_attempts,
                    attempt_number,
                },
            )
        },
        None => None,
    }
}

/// Records a workflow run's outcome. An empty `error` means success and the
/// appended terminal event is `Succeeded` carrying `result` (even when
/// `result` is itself empty); a non-empty `error` appends `Failed` carrying
/// `error`. A run that is already terminal is left untouched, which keeps
/// terminal states exclusive.
pub fn complete_workflow_step(
    db: &mut Db,
    result: String,
    error: String,
    workflow_id: WorkflowId,
    workflow_run_id: WorkflowRunId,
    rerun_of_workflow_run_id: Option<WorkflowRunId>,
    now: i64,
) -> (r: ServerEvent)
    requires
        old(db).wf(),
        old(db).populated(),
    ensures
        final(db).wf(),
        final(db).populated(),
        r == (ServerEvent::GeneralSuccess { success: true }),
        has_wf_terminal(old(db).wf_history(workflow_run_id)) ==> *final(db) == *old(db),
        !has_wf_terminal(old(db).wf_history(workflow_run_id)) ==> ({
            &&& final(db).wf_history(workflow_run_id) == old(db).wf_history(workflow_run_id).push(
                (WorkflowEvent {
                    workflow_id,
                    run_id: workflow_run_id,
                    event_type: (if error@.len() == 0 {
                        WorkflowEventType::Succeeded
                    } else {
                        WorkflowEventType::Failed
                    }),
                    payload: (if error@.len() == 0 {
                        result
                    } else {
                        error
                    }),
                    rerun_of: rerun_of_workflow_run_id,
                    created_at: next_stamp(old(db).last_stamp, now),
                }),
            )
            &&& forall|r0: WorkflowRunId|
                r0 != workflow_run_id ==> #[trigger] final(db).wf_history(r0) == old(
                    db,
                ).wf_history(r0)
        }),
        final(db).workflows@ == old(db).workflows@,
        final(db).activities@ == old(db).activities@,
        final(db).activity_runs@ == old(db).activity_runs@,
        final(db).activity_events@ == old(db).activity_events@,
{
    if error.as_str().is_empty() {
        db.add_workflow_event(
            WorkflowEvent {
                workflow_id,
                run_id: workflow_run_id,
                event_type: WorkflowEventType::Succeeded,
                rerun_of: rerun_of_workflow_run_id,
                payload: result,
                created_at: now,
            },
        );
    } else {
        db.add_workflow_event(
            WorkflowEvent {
                workflow_id,
                run_id: workflow_run_id,
                event_type: WorkflowEventType::Failed,
                rerun_of: rerun_of_workflow_run_id,
                payload: error,
                created_at: now,
            },
        );
    }
    ServerEvent::GeneralSuccess { success: true }
}

/// Records an activity run's outcome, with the same empty-string convention
/// and terminal protection as [`complete_workflow_step`].
pub fn complete_activity_step(
    db: &mut Db,
    result: String,
    error: String,
    activity_id: ActivityId,
    activity_run_id: ActivityRunId,
    workflow_run_id: WorkflowRunId,
    max_attempts: i64,
    attempt_number: i64,
    now: i64,
) -> (r: ServerEvent)
    requires
        old(db).wf(),
        old(db).populated(),
    ensures
        final(db).wf(),
        final(db).populated(),
        r == (ServerEvent::GeneralSuccess { success: true }),
        has_act_terminal(old(db).act_history(activity_run_id)) ==> *final(db) == *old(db),
        !has_act_terminal(old(db).act_history(activity_run_id)) ==> ({
            &&& final(db).act_history(activity_run_id) == old(db).act_history(
                activity_run_id,
            ).push(
                (ActivityEvent {
                    activity_id,
                    activity_run_id,
                    workflow_run_id,
                    event_type: (if error@.len() == 0 {
                        ActivityEventType::Succeeded
                    } else {
                        ActivityEventType::Failed
                    }),
                    payload: (if error@.len() == 0 {
                        result
                    } else {
                        error
                    }),
                    created_at: next_stamp(old(db).last_stamp, now),
                    attempt_number,
                    max_attempts,
                }),
            )
            &&& forall|r0: ActivityRunId|
                r0 != activity_run_id ==> #[trigger] final(db).act_history(r0) == old(
                    db,
                ).act_history(r0)
        }),
        final(db).workflows@ == old(db).workflows@,
        final(db).activities@ == old(db).activities@,
        final(db).workflow_runs@ == old(db).workflow_runs@,
        final(db).workflow_events@ == old(db).workflow_events@,
{
    if error.as_str().is_empty() {
        db.add_activity_event(
            ActivityEvent {
                activity_id,
                activity_run_id,
                workflow_run_id,
                event_type: ActivityEventType::Succeeded,
                payload: result,
                created_at: now,
                max_attempts,
                attempt_number,
            },
        );
    } else {
        db.add_activity_event(
            ActivityEvent {
                activity_id,
                activity_run_id,
                workflow_run_id,
                event_type: ActivityEventType::Failed,
                payload: error,
                created_at: now,
                max_attempts,
                attempt_number,
            },
        );
    }
    ServerEvent::GeneralSuccess { success: true }
}

/// One iteration of the `PollWorkflowCompletion` long poll: yields the
/// completion envelope exactly when the run holds a terminal event. The
/// terminal payload travels in `result` for a success and in `error` for a
/// failure; the other field is the empty string.
pub fn poll_workflow_completion_step(db: &Db, workflow_run_id: WorkflowRunId) -> (r: Option<
    PollWorkflowCompletion,
>)
    requires
        db.wf(),
    ensures
        r is Some <==> has_wf_terminal(db.wf_history(workflow_run_id)),
        db.spec_completed_wf(workflow_run_id) matches Some(c) ==> ({
            &&& r matches Some(pc)
            &&& pc.workflow_run_id == workflow_run_id
            &&& c.event_type is Succeeded ==> pc.result == c.payload && pc.error@
                == Seq::<char>::empty()
            &&& c.event_type is Failed ==> pc.error == c.payload && pc.result@
                == Seq::<char>::empty()
        }),
{
    match db.get_completed_workflow(workflow_run_id) {
        Some(completed) => {
            if completed.event_type == WorkflowEventType::Succeeded {
                Some(
                    PollWorkflowCompletion {
                        workflow_run_id,
                        result: completed.payload,
                        error: String::new(),
                    },
                )
            } else {
                Some(
                    PollWorkflowCompletion {
                        workflow_run_id,
                        error: completed.payload,
                        result: String::new(),
                    },
                )
            }
        },
        None => None,
    }
}

/// One iteration of the `PollActivityCompletion` long poll.
pub fn poll_activity_completion_step(db: &Db, activity_run_id: ActivityRunId) -> (r: Option<
    PollActivityCompletion,
>)
    requires
        db.wf(),
    ensures
        r is Some <==> has_act_terminal(db.act_history(activity_run_id)),
        db.spec_completed_act(activity_run_id) matches Some(c) ==> ({
            &&& r matches Some(pc)
            &&& pc.activity_run_id == activity_run_id
            &&& c.event_type is Succeeded ==> pc.result == c.payload && pc.error@
                == Seq::<char>::empty()
            &&& c.event_type is Failed ==> pc.error == c.payload && pc.result@
                == Seq::<char>::empty()
        }),
{
    match db.get_completed_activity(activity_run_id) {
        Some(completed) => {
            if completed.event_type == ActivityEventType::Succeeded {
                Some(
                    PollActivityCompletion {
                        activity_run_id,
                        result: completed.payload,
                        error: String::new(),
                    },
                )
            } else {
                Some(
                    PollActivityCompletion {
                        activity_run_id,
                        error: completed.payload,
                        result: String::new(),
                    },
                )
            }
        },
        None => None,
    }
}

/// Reruns a failed workflow run: only when the latest event of
/// `workflow_run_id` is `Failed`, a `Pending` event for the fresh run
/// `new_run` is appended, carrying the original input (the payload of the
/// run's oldest event) and `rerun_of` pointing at the failed run. Any other
/// run, and any unknown one, is refused.
pub fn rerun_workflow_step(
    db: &mut Db,
    workflow_run_id: WorkflowRunId,
    new_run: WorkflowRunId,
    now: i64,
) -> (r: RerunWorkflowResponse)
    requires
        old(db).wf(),
        old(db).populated(),
    ensures
        final(db).wf(),
        final(db).populated(),
        (match old(db).spec_last_wf_event(workflow_run_id) {
            Some(le) => !(le.event_type is Failed),
            None => true,
        }) ==> r is NotFound && *final(db) == *old(db),
        (match old(db).spec_last_wf_event(workflow_run_id) {
            Some(le) => le.event_type is Failed ==> ({
            &&& r == (RerunWorkflowResponse::NewRun { new_workflow_id: new_run })
            &&& has_wf_terminal(old(db).wf_history(new_run)) ==> *final(db) == *old(db)
            &&& !has_wf_terminal(old(db).wf_history(new_run)) ==> ({
                &&& final(db).wf_history(new_run) == old(db).wf_history(new_run).push(
                    (WorkflowEvent {
                        workflow_id: le.workflow_id,
                        run_id: new_run,
                        event_type: WorkflowEventType::Pending,
                        payload: old(db).wf_history(workflow_run_id)[0].payload,
                        rerun_of: Some(workflow_run_id),
                        created_at: next_stamp(old(db).last_stamp, now),
                    }),
                )
                &&& forall|r0: WorkflowRunId|
                    r0 != new_run ==> #[trigger] final(db).wf_history(r0) == old(db).wf_history(
                        r0,
                    )
            })
        }),
            None => true,
        }),
        final(db).workflows@ == old(db).workflows@,
        final(db).activities@ == old(db).activities@,
        final(db).activity_runs@ == old(db).activity_runs@,
        final(db).activity_events@ == old(db).activity_events@,
{
    match db.get_last_workflow_run_event(workflow_run_id) {
        Some(last_event) => {
            match db.get_first_workflow_run_event(workflow_run_id) {
                Some(first_event) => {
                    if last_event.event_type == WorkflowEventType::Failed {
                        proof {
                            lemma_wf_history_facts(*db, workflow_run_id);
                        }
                        db.add_workflow_event(
                            WorkflowEvent {
                                workflow_id: last_event.workflow_id,
                                run_id: new_run,
                                event_type: WorkflowEventType::Pending,
                                rerun_of: Some(last_event.run_id),
                                payload: first_event.payload,
                                created_at: now,
                            },
                        );
                        return RerunWorkflowResponse::NewRun { new_workflow_id: new_run };
                    }
                },
                None => {},
            }
        },
        None => {},
    }
    RerunWorkflowResponse::NotFound
}

/// Applies one worker request to the store: the single dispatch point
/// behind the worker endpoint. Register, enqueue and complete requests are
/// answered at once with `GeneralSuccess` and their full store effect is
/// stated below, with the drawn id and clock reading existentially
/// quantified; the four poll requests either respond with their payload or
/// ask the caller to wait out one poll interval and apply the request
/// again.
pub fn handle_worker_event(db: &mut Db, event: WorkerEvent) -> (r: ServerStep)
    requires
        old(db).wf(),
        old(db).populated(),
    ensures
        final(db).wf(),
        final(db).populated(),
        match event {
            WorkerEvent::RegisterWorkflow { name } => r == ServerStep::Respond(
                ServerEvent::GeneralSuccess { success: true },
            ) && register_workflow_effect(*old(db), *final(db), name),
            WorkerEvent::RegisterActivity { name } => r == ServerStep::Respond(
                ServerEvent::GeneralSuccess { success: true },
            ) && register_activity_effect(*old(db), *final(db), name),
            WorkerEvent::EnqueueWorkflow { name, input, workflow_run_id } => r
                == ServerStep::Respond(ServerEvent::GeneralSuccess { success: true })
                && enqueue_workflow_effect(*old(db), *final(db), name, input, workflow_run_id),
            WorkerEvent::EnqueueActivity {
                name,
                input,
                activity_run_id,
                workflow_run_id,
                max_attempts,
            } => r == ServerStep::Respond(ServerEvent::GeneralSuccess { success: true })
                && enqueue_activity_effect(
                *old(db),
                *final(db),
                name,
                input,
                activity_run_id,
                workflow_run_id,
                max_attempts,
            ),
            WorkerEvent::CompleteWorkflow {
                result,
                error,
                workflow_id,
                workflow_run_id,
                rerun_of_workflow_run_id,
            } => r == ServerStep::Respond(ServerEvent::GeneralSuccess { success: true })
                && complete_workflow_effect(
                *old(db),
                *final(db),
                result,
                error,
                workflow_id,
                workflow_run_id,
                rerun_of_workflow_run_id,
            ),
            WorkerEvent::CompleteActivity {
                result,
                error,
                activity_id,
                activity_run_id,
                workflow_run_id,
                max_attempts,
                attempt_number,
            } => r == ServerStep::Respond(ServerEvent::GeneralSuccess { success: true })
                && complete_activity_effect(
                *old(db),
                *final(db),
                result,
                error,
                activity_id,
                activity_run_id,
                workflow_run_id,
                max_attempts,
                attempt_number,
            ),
            WorkerEvent::PollWorkflow { name } => {
                &&& (r is Wait <==> old(db).spec_first_pending_wf(name@) is None)
                &&& (r is Wait ==> *final(db) == *old(db))
                &&& (match old(db).spec_first_pending_wf(name@) {
                    Some(p) => match r {
                        ServerStep::Respond(ev) => match ev {
                            ServerEvent::PollWorkflowResponse(resp) => {
                                &&& resp.workflow_run_id == p.run_id
                                &&& resp.rerun_of_workflow_run_id == p.rerun_of
                                &&& resp.workflow_id == p.workflow_id
                                &&& resp.name@ == name@
                                &&& resp.input == p.payload
                                &&& poll_workflow_claim_effect(*old(db), *final(db), p)
                            },
                            _ => false,
                        },
                        ServerStep::Wait => false,
                    },
                    None => true,
                })
            },
            WorkerEvent::PollActivity { name } => {
                &&& (r is Wait <==> old(db).spec_first_pending_act(name@) is None)
                &&& (r is Wait ==> *final(db) == *old(db))
                &&& (match old(db).spec_first_pending_act(name@) {
                    Some(p) => match r {
                        ServerStep::Respond(ev) => match ev {
                            ServerEvent::PollActivityResponse(resp) => {
                                &&& resp.activity_run_id == p.activity_run_id
                                &&& resp.workflow_run_id == p.workflow_run_id
                                &&& resp.activity_id == p.activity_id
                                &&& resp.name@ == name@
                                &&& resp.input == p.payload
                                &&& resp.max_attempts == p.max_attempts
                                &&& resp.attempt_number == p.attempt_number
                                &&& poll_activity_claim_effect(*old(db), *final(db), p)
                            },
                            _ => false,
                        },
                        ServerStep::Wait => false,
                    },
                    None => true,
                })
            },
            WorkerEvent::PollWorkflowCompletion { workflow_run_id } => {
                &&& *final(db) == *old(db)
                &&& (r is Wait <==> !has_wf_terminal(old(db).wf_history(workflow_run_id)))
                &&& (match old(db).spec_completed_wf(workflow_run_id) {
                    Some(c) => match r {
                        ServerStep::Respond(ev) => match ev {
                            ServerEvent::PollWorkflowCompletion(pc) => {
                                &&& pc.workflow_run_id == workflow_run_id
                                &&& c.event_type is Succeeded ==> pc.result == c.payload
                                    && pc.error@ == Seq::<char>::empty()
                                &&& c.event_type is Failed ==> pc.error == c.payload && pc.result@
                                    == Seq::<char>::empty()
                            },
                            _ => false,
                        },
                        ServerStep::Wait => false,
                    },
                    None => true,
                })
            },
            WorkerEvent::PollActivityCompletion { activity_run_id } => {
                &&& *final(db) == *old(db)
                &&& (r is Wait <==> !has_act_terminal(old(db).act_history(activity_run_id)))
                &&& (match old(db).spec_completed_act(activity_run_id) {
                    Some(c) => match r {
                        ServerStep::Respond(ev) => match ev {
                            ServerEvent::PollActivityCompletion(pc) => {
                                &&& pc.activity_run_id == activity_run_id
                                &&& c.event_type is Succeeded ==> pc.result == c.payload
                                    && pc.error@ == Seq::<char>::empty()
                                &&& c.event_type is Failed ==> pc.error == c.payload && pc.result@
                                    == Seq::<char>::empty()
                            },
                            _ => false,
                        },
                        ServerStep::Wait => false,
                    },
                    None => true,
                })
            },
        },
{
    match event {
        WorkerEvent::RegisterWorkflow { name } => {
            let ghost gname = name;
            let id = WorkflowId::new();
            let resp = register_workflow_step(db, name, id);
            proof {
                if old(db).spec_workflow_named(gname@) is None {
                    assert(db.workflows@ == old(db).workflows@.push(
                        (Workflow { id, name: gname }),
                    ));
                }
                assert(register_workflow_effect(*old(db), *db, gname));
            }
            ServerStep::Respond(resp)
        },
        WorkerEvent::RegisterActivity { name } => {
            let ghost gname = name;
            let id = ActivityId::new();
            let resp = register_activity_step(db, name, id);
            proof {
                if old(db).spec_activity_named(gname@) is None {
                    assert(db.activities@ == old(db).activities@.push(
                        (Activity { id, name: gname }),
                    ));
                }
                assert(register_activity_effect(*old(db), *db, gname));
            }
            ServerStep::Respond(resp)
        },
        WorkerEvent::EnqueueWorkflow { name, input, workflow_run_id } => {
            let ghost ginput = input;
            let now = trusted::now_millis();
            let resp = enqueue_workflow_step(db, &name, input, workflow_run_id, now);
            proof {
                match old(db).spec_workflow_named(name@) {
                    Some(w0) => {
                        if !has_wf_terminal(old(db).wf_history(workflow_run_id)) {
                            assert(db.wf_history(workflow_run_id) == old(db).wf_history(
                                workflow_run_id,
                            ).push(
                                (WorkflowEvent {
                                    workflow_id: w0.id,
                                    run_id: workflow_run_id,
                                    event_type: WorkflowEventType::Pending,
                                    payload: ginput,
                                    rerun_of: None,
                                    created_at: next_stamp(old(db).last_stamp, now),
                                }),
                            ));
                        }
                    },
                    None => {},
                }
                assert(enqueue_workflow_effect(*old(db), *db, name, ginput, workflow_run_id));
            }
            ServerStep::Respond(resp)
        },
        WorkerEvent::EnqueueActivity { name, input, activity_run_id, workflow_run_id, max_attempts } => {
            let ghost ginput = input;
            let now = trusted::now_millis();
            let resp = enqueue_activity_step(
                db,
                &name,
                input,
                activity_run_id,
                workflow_run_id,
                max_attempts,
                now,
            );
            proof {
                match old(db).spec_last_wf_event(workflow_run_id) {
                    Some(le) => match old(db).spec_activity_named(name@) {
                        Some(a0) => {
                            let memo = (if le.rerun_of is Some {
                                old(db).spec_memo_hit(le.rerun_of->0, a0.id, ginput@)
                            } else {
                                None
                            });
                            if !has_act_terminal(old(db).act_history(activity_run_id)) {
                                match memo {
                                    Some(hit) => {
                                        assert(db.act_history(activity_run_id) == old(
                                            db,
                                        ).act_history(activity_run_id).push(
                                            (ActivityEvent {
                                                activity_id: a0.id,
                                                activity_run_id,
                                                workflow_run_id,
                                                event_type: ActivityEventType::Succeeded,
                                                payload: hit.payload,
                                                created_at: next_stamp(old(db).last_stamp, now),
                                                attempt_number: 1,
                                                max_attempts,
                                            }),
                                        ));
                                    },
                                    None => {
                                        assert(db.act_history(activity_run_id) == old(
                                            db,
                                        ).act_history(activity_run_id).push(
                                            (ActivityEvent {
                                                activity_id: a0.id,
                                                activity_run_id,
                                                workflow_run_id,
                                                event_type: ActivityEventType::Pending,
                                                payload: ginput,
                                                created_at: next_stamp(old(db).last_stamp, now),
                                                attempt_number: 1,
                                                max_attempts,
                                            }),
                                        ));
                                    },
                                }
                            }
                        },
                        None => {},
                    },
                    None => {},
                }
                assert(enqueue_activity_effect(
                    *old(db),
                    *db,
                    name,
                    ginput,
                    activity_run_id,
                    workflow_run_id,
                    max_attempts,
                ));
            }
            ServerStep::Respond(resp)
        },
        WorkerEvent::CompleteWorkflow {
            result,
            error,
            workflow_id,
            workflow_run_id,
            rerun_of_workflow_run_id,
        } => {
            let ghost gresult = result;
            let ghost gerror = error;
            let now = trusted::now_millis();
            let resp = complete_workflow_step(
                db,
                result,
                error,
                workflow_id,
                workflow_run_id,
                rerun_of_workflow_run_id,
                now,
            );
            proof {
                if !has_wf_terminal(old(db).wf_history(workflow_run_id)) {
                    assert(db.wf_history(workflow_run_id) == old(db).wf_history(
                        workflow_run_id,
                    ).push(
                        (WorkflowEvent {
                            workflow_id,
                            run_id: workflow_run_id,
                            event_type: (if gerror@.len() == 0 {
                                WorkflowEventType::Succeeded
                            } else {
                                WorkflowEventType::Failed
                            }),
                            payload: (if gerror@.len() == 0 {
                                gresult
                            } else {
                                gerror
                            }),
                            rerun_of: rerun_of_workflow_run_id,
                            created_at: next_stamp(old(db).last_stamp, now),
                        }),
                    ));
                }
                assert(complete_workflow_effect(
                    *old(db),
                    *db,
                    gresult,
                    gerror,
                    workflow_id,
                    workflow_run_id,
                    rerun_of_workflow_run_id,
                ));
            }
            ServerStep::Respond(resp)
        },
        WorkerEvent::CompleteActivity {
            result,
            error,
            activity_id,
            activity_run_id,
            workflow_run_id,
            max_attempts,
            attempt_number,
        } => {
            let ghost gresult = result;
            let ghost gerror = error;
            let now = trusted::now_millis();
            let resp = complete_activity_step(
                db,
                result,
                error,
                activity_id,
                activity_run_id,
                workflow_run_id,
                max_attempts,
                attempt_number,
                now,
            );
            proof {
                if !has_act_terminal(old(db).act_history(activity_run_id)) {
                    assert(db.act_history(activity_run_id) == old(db).act_history(
                        activity_run_id,
                    ).push(
                        (ActivityEvent {
                            activity_id,
                            activity_run_id,
                            workflow_run_id,
                            event_type: (if gerror@.len() == 0 {
                                ActivityEventType::Succeeded
                            } else {
                                ActivityEventType::Failed
                            }),
                            payload: (if gerror@.len() == 0 {
                                gresult
                            } else {
                                gerror
                            }),
                            created_at: next_stamp(old(db).last_stamp, now),
                            attempt_number,
                            max_attempts,
                        }),
                    ));
                }
                assert(complete_activity_effect(
                    *old(db),
                    *db,
                    gresult,
                    gerror,
                    activity_id,
                    activity_run_id,
                    workflow_run_id,
                    max_attempts,
                    attempt_number,
                ));
            }
            ServerStep::Respond(resp)
        },
        WorkerEvent::PollWorkflow { name } => {
            let now = trusted::now_millis();
            match poll_workflow_step(db, &name, now) {
                Some(resp) => {
                    proof {
                        let p = old(db).spec_first_pending_wf(name@)->Some_0;
                        assert(db.wf_history(p.run_id).last().created_at == next_stamp(
                            old(db).last_stamp,
                            now,
                        ));
                        assert(poll_workflow_claim_effect(*old(db), *db, p));
                    }
                    ServerStep::Respond(ServerEvent::PollWorkflowResponse(resp))
                },
                None => ServerStep::Wait,
            }
        },
        WorkerEvent::PollActivity { name } => {
            let now = trusted::now_millis();
            match poll_activity_step(db, &name, now) {
                Some(resp) => {
                    proof {
                        let p = old(db).spec_first_pending_act(name@)->Some_0;
                        assert(db.act_history(p.activity_run_id).last().created_at == next_stamp(
                            old(db).last_stamp,
                            now,
                        ));
                        assert(poll_activity_claim_effect(*old(db), *db, p));
                    }
                    ServerStep::Respond(ServerEvent::PollActivityResponse(resp))
                },
                None => ServerStep::Wait,
            }
        },
        WorkerEvent::PollWorkflowCompletion { workflow_run_id } => {
            match poll_workflow_completion_step(db, workflow_run_id) {
                Some(resp) => ServerStep::Respond(ServerEvent::PollWorkflowCompletion(resp)),
                None => ServerStep::Wait,
            }
        },
        WorkerEvent::PollActivityCompletion { activity_run_id } => {
            match poll_activity_completion_step(db, activity_run_id) {
                Some(resp) => ServerStep::Respond(ServerEvent::PollActivityCompletion(resp)),
                None => ServerStep::Wait,
            }
        },
    }
}

/// Applies a rerun request to the store, drawing the fresh run id: the
/// dispatch point behind the rerun endpoint. The refusal comes exactly
/// when the named run is absent or its latest event is not `Failed`; a
/// failed run yields a fresh run id and, for some drawn id and clock
/// reading, exactly the `Pending` rerun event carrying the original input.
pub fn handle_rerun_workflow(db: &mut Db, payload: RerunWorkflowPayload) -> (r:
    RerunWorkflowResponse)
    requires
        old(db).wf(),
        old(db).populated(),
    ensures
        final(db).wf(),
        final(db).populated(),
        r is NotFound <==> (match old(db).spec_last_wf_event(payload.workflow_run_id) {
            Some(le) => !(le.event_type is Failed),
            None => true,
        }),
        r is NotFound ==> *final(db) == *old(db),
        (match old(db).spec_last_wf_event(payload.workflow_run_id) {
            Some(le) => le.event_type is Failed ==> exists|n: WorkflowRunId|
                #![trigger old(db).wf_history(n)]
                ({
                    &&& r == (RerunWorkflowResponse::NewRun { new_workflow_id: n })
                    &&& has_wf_terminal(old(db).wf_history(n)) ==> *final(db) == *old(db)
                    &&& !has_wf_terminal(old(db).wf_history(n)) ==> ({
                        &&& exists|t: i64|
                            #![trigger next_stamp(old(db).last_stamp, t)]
                            final(db).wf_history(n) == old(db).wf_history(n).push(
                                (WorkflowEvent {
                                    workflow_id: le.workflow_id,
                                    run_id: n,
                                    event_type: WorkflowEventType::Pending,
                                    payload: old(db).wf_history(payload.workflow_run_id)[0].payload,
                                    rerun_of: Some(payload.workflow_run_id),
                                    created_at: next_stamp(old(db).last_stamp, t),
                                }),
                            )
                        &&& forall|r0: WorkflowRunId|
                            r0 != n ==> #[trigger] final(db).wf_history(r0) == old(db).wf_history(
                                r0,
                            )
                    })
                }),
            None => true,
        }),
        final(db).workflows@ == old(db).workflows@,
        final(db).activities@ == old(db).activities@,
        final(db).activity_runs@ == old(db).activity_runs@,
        final(db).activity_events@ == old(db).activity_events@,
{
    let new_run = WorkflowRunId::new();
    let now = trusted::now_millis();
    let r = rerun_workflow_step(db, payload.workflow_run_id, new_run, now);
    proof {
        match old(db).spec_last_wf_event(payload.workflow_run_id) {
            Some(le) => {
                if le.event_type is Failed {
                    if !has_wf_terminal(old(db).wf_history(new_run)) {
                        assert(db.wf_history(new_run) == old(db).wf_history(new_run).push(
                            (WorkflowEvent {
                                workflow_id: le.workflow_id,
                                run_id: new_run,
                                event_type: WorkflowEventType::Pending,
                                payload: old(db).wf_history(payload.workflow_run_id)[0].payload,
                                rerun_of: Some(payload.workflow_run_id),
                                created_at: next_stamp(old(db).last_stamp, now),
                            }),
                        ));
                    } else {
                        assert(old(db).wf_history(new_run).len() > 0);
                    }
                }
            },
            None => {},
        }
    }
    r
}

} // verus!
