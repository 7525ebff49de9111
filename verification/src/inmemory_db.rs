//! The in-memory event store.
//!
//! The store keeps registered workflows and activities (unique per name),
//! the ordered list of run ids of each workflow and activity, and the
//! append-only event history of each run. All queries the orchestrator
//! needs are answered from these six tables.
//!
//! Every operation requires and preserves [`Db::wf`], the store invariant:
//! names and keys are unique, run lists hold each run exactly once, every
//! history is non-empty and stamped in non-decreasing order, a terminal
//! event is always the last of its history, and every event's run id is
//! listed in its parent's run list.

use vstd::prelude::*;

use crate::activity::{act_terminal, Activity, ActivityEvent, ActivityEventType, ActivityId, ActivityName, ActivityRunId};
use crate::text::str_eq;
use crate::workflow::{wf_terminal, Workflow, WorkflowEvent, WorkflowEventType, WorkflowId, WorkflowName, WorkflowRunId};

verus! {

/// The ordered run ids of one workflow.
pub struct WorkflowRunList {
    pub workflow_id: WorkflowId,
    pub runs: Vec<WorkflowRunId>,
}

/// The ordered run ids of one activity.
pub struct ActivityRunList {
    pub activity_id: ActivityId,
    pub runs: Vec<ActivityRunId>,
}

/// The append-only event history of one workflow run.
pub struct WorkflowLog {
    pub run_id: WorkflowRunId,
    pub events: Vec<WorkflowEvent>,
}

/// The append-only event history of one activity run.
pub struct ActivityLog {
    pub run_id: ActivityRunId,
    pub events: Vec<ActivityEvent>,
}

/// The in-memory event store.
pub struct Db {
    pub workflows: Vec<Workflow>,
    pub activities: Vec<Activity>,
    pub workflow_runs: Vec<WorkflowRunList>,
    pub activity_runs: Vec<ActivityRunList>,
    pub workflow_events: Vec<WorkflowLog>,
    pub activity_events: Vec<ActivityLog>,
    /// The largest stamp handed out so far; appends never go below it.
    pub last_stamp: i64,
}

/// The first workflow in `s` registered under `name`.
pub open spec fn find_workflow(s: Seq<Workflow>, name: Seq<char>) -> Option<Workflow>
    decreases s.len(),
{
    if s.len() == 0 {
        None
    } else if s[0].name@ == name {
        Some(s[0])
    } else {
        find_workflow(s.drop_first(), name)
    }
}

/// The first activity in `s` registered under `name`.
pub open spec fn find_activity(s: Seq<Activity>, name: Seq<char>) -> Option<Activity>
    decreases s.len(),
{
    if s.len() == 0 {
        None
    } else if s[0].name@ == name {
        Some(s[0])
    } else {
        find_activity(s.drop_first(), name)
    }
}

/// The first run list in `s` keyed by `id`.
pub open spec fn find_workflow_runs(s: Seq<WorkflowRunList>, id: WorkflowId) -> Option<
    WorkflowRunList,
>
    decreases s.len(),
{
    if s.len() == 0 {
        None
    } else if s[0].workflow_id == id {
        Some(s[0])
    } else {
        find_workflow_runs(s.drop_first(), id)
    }
}

/// The first run list in `s` keyed by `id`.
pub open spec fn find_activity_runs(s: Seq<ActivityRunList>, id: ActivityId) -> Option<
    ActivityRunList,
>
    decreases s.len(),
{
    if s.len() == 0 {
        None
    } else if s[0].activity_id == id {
        Some(s[0])
    } else {
        find_activity_runs(s.drop_first(), id)
    }
}

/// The first history in `s` keyed by `run`.
pub open spec fn find_workflow_log(s: Seq<WorkflowLog>, run: WorkflowRunId) -> Option<WorkflowLog>
    decreases s.len(),
{
    if s.len() == 0 {
        None
    } else if s[0].run_id == run {
        Some(s[0])
    } else {
        find_workflow_log(s.drop_first(), run)
    }
}

/// The first history in `s` keyed by `run`.
pub open spec fn find_activity_log(s: Seq<ActivityLog>, run: ActivityRunId) -> Option<ActivityLog>
    decreases s.len(),
{
    if s.len() == 0 {
        None
    } else if s[0].run_id == run {
        Some(s[0])
    } else {
        find_activity_log(s.drop_first(), run)
    }
}

/// How many workflows in `s` are registered under `name`.
pub open spec fn count_workflows(s: Seq<Workflow>, name: Seq<char>) -> nat
    decreases s.len(),
{
    if s.len() == 0 {
        0
    } else {
        (if s[0].name@ == name {
            1nat
        } else {
            0nat
        }) + count_workflows(s.drop_first(), name)
    }
}

/// How many activities in `s` are registered under `name`.
pub open spec fn count_activities(s: Seq<Activity>, name: Seq<char>) -> nat
    decreases s.len(),
{
    if s.len() == 0 {
        0
    } else {
        (if s[0].name@ == name {
            1nat
        } else {
            0nat
        }) + count_activities(s.drop_first(), name)
    }
}

/// The stamp given to an appended event: the requested time where the
/// clock moved forward, one past the last stamp where it did not.
pub open spec fn next_stamp(last: i64, requested: i64) -> i64 {
    if requested > last {
        requested
    } else if last < i64::MAX {
        (last + 1) as i64
    } else {
        last
    }
}

/// Whether a workflow history holds a terminal event.
pub open spec fn has_wf_terminal(h: Seq<WorkflowEvent>) -> bool {
    exists|k: int| 0 <= k < h.len() && wf_terminal((#[trigger] h[k]).event_type)
}

/// Whether an activity history holds a terminal event.
pub open spec fn has_act_terminal(h: Seq<ActivityEvent>) -> bool {
    exists|k: int| 0 <= k < h.len() && act_terminal((#[trigger] h[k]).event_type)
}

/// The event as stored: unchanged but for its stamp.
pub open spec fn stamp_wf_event(e: WorkflowEvent, t: i64) -> WorkflowEvent {
    WorkflowEvent { created_at: t, ..e }
}

/// The event as stored: unchanged but for its stamp.
pub open spec fn stamp_act_event(e: ActivityEvent, t: i64) -> ActivityEvent {
    ActivityEvent { created_at: t, ..e }
}

impl Db {
    /// The workflow registered under `name`, if any.
    pub open spec fn spec_workflow_named(&self, name: Seq<char>) -> Option<Workflow> {
        find_workflow(self.workflows@, name)
    }

    /// The activity registered under `name`, if any.
    pub open spec fn spec_activity_named(&self, name: Seq<char>) -> Option<Activity> {
        find_activity(self.activities@, name)
    }

    /// The run ids of workflow `id`, in insertion order; empty when none.
    pub open spec fn wf_runs(&self, id: WorkflowId) -> Seq<WorkflowRunId> {
        match find_workflow_runs(self.workflow_runs@, id) {
            Some(rl) => rl.runs@,
            None => Seq::empty(),
        }
    }

    /// The run ids of activity `id`, in insertion order; empty when none.
    pub open spec fn act_runs(&self, id: ActivityId) -> Seq<ActivityRunId> {
        match find_activity_runs(self.activity_runs@, id) {
            Some(rl) => rl.runs@,
            None => Seq::empty(),
        }
    }

    /// The event history of workflow run `run`, oldest first; empty when none.
    pub open spec fn wf_history(&self, run: WorkflowRunId) -> Seq<WorkflowEvent> {
        match find_workflow_log(self.workflow_events@, run) {
            Some(l) => l.events@,
            None => Seq::empty(),
        }
    }

    /// The event history of activity run `run`, oldest first; empty when none.
    pub open spec fn act_history(&self, run: ActivityRunId) -> Seq<ActivityEvent> {
        match find_activity_log(self.activity_events@, run) {
            Some(l) => l.events@,
            None => Seq::empty(),
        }
    }

    /// Name and key uniqueness across the six tables.
    pub open spec fn keys_unique(&self) -> bool {
        &&& forall|i: int, j: int|
            0 <= i < j < self.workflows@.len() ==> (#[trigger] self.workflows@[i]).name@ != (
            #[trigger] self.workflows@[j]).name@
        &&& forall|i: int, j: int|
            0 <= i < j < self.activities@.len() ==> (#[trigger] self.activities@[i]).name@ != (
            #[trigger] self.activities@[j]).name@
        &&& forall|i: int, j: int|
            0 <= i < j < self.workflow_runs@.len() ==> (
            #[trigger] self.workflow_runs@[i]).workflow_id != (
            #[trigger] self.workflow_runs@[j]).workflow_id
        &&& forall|i: int, j: int|
            0 <= i < j < self.activity_runs@.len() ==> (
            #[trigger] self.activity_runs@[i]).activity_id != (
            #[trigger] self.activity_runs@[j]).activity_id
        &&& forall|i: int, j: int|
            0 <= i < j < self.workflow_events@.len() ==> (
            #[trigger] self.workflow_events@[i]).run_id != (
            #[trigger] self.workflow_events@[j]).run_id
        &&& forall|i: int, j: int|
            0 <= i < j < self.activity_events@.len() ==> (
            #[trigger] self.activity_events@[i]).run_id != (
            #[trigger] self.activity_events@[j]).run_id
    }

    /// Each run list holds distinct run ids.
    pub open spec fn run_lists_distinct(&self) -> bool {
        &&& forall|i: int, a: int, b: int|
            #![trigger self.workflow_runs@[i].runs@[a], self.workflow_runs@[i].runs@[b]]
            0 <= i < self.workflow_runs@.len() && 0 <= a < b
                < self.workflow_runs@[i].runs@.len() ==> self.workflow_runs@[i].runs@[a]
                != self.workflow_runs@[i].runs@[b]
        &&& forall|i: int, a: int, b: int|
            #![trigger self.activity_runs@[i].runs@[a], self.activity_runs@[i].runs@[b]]
            0 <= i < self.activity_runs@.len() && 0 <= a < b
                < self.activity_runs@[i].runs@.len() ==> self.activity_runs@[i].runs@[a]
                != self.activity_runs@[i].runs@[b]
    }

    /// One workflow history is well formed: non-empty, keyed consistently,
    /// stamped in non-decreasing order below `last_stamp`, terminal last.
    pub open spec fn wf_log_ok(l: WorkflowLog, last_stamp: i64) -> bool {
        &&& l.events@.len() > 0
        &&& forall|k: int| 0 <= k < l.events@.len() ==> (#[trigger] l.events@[k]).run_id == l.run_id
        &&& forall|k: int|
            0 <= k < l.events@.len() ==> (#[trigger] l.events@[k]).created_at <= last_stamp
        &&& forall|k1: int, k2: int|
            0 <= k1 <= k2 < l.events@.len() ==> (#[trigger] l.events@[k1]).created_at <= (
            #[trigger] l.events@[k2]).created_at
        &&& forall|k: int|
            0 <= k < l.events@.len() && wf_terminal((#[trigger] l.events@[k]).event_type) ==> k
                == l.events@.len() - 1
    }

    /// One activity history is well formed; see [`Db::wf_log_ok`].
    pub open spec fn act_log_ok(l: ActivityLog, last_stamp: i64) -> bool {
        &&& l.events@.len() > 0
        &&& forall|k: int|
            0 <= k < l.events@.len() ==> (#[trigger] l.events@[k]).activity_run_id == l.run_id
        &&& forall|k: int|
            0 <= k < l.events@.len() ==> (#[trigger] l.events@[k]).created_at <= last_stamp
        &&& forall|k1: int, k2: int|
            0 <= k1 <= k2 < l.events@.len() ==> (#[trigger] l.events@[k1]).created_at <= (
            #[trigger] l.events@[k2]).created_at
        &&& forall|k: int|
            0 <= k < l.events@.len() && act_terminal((#[trigger] l.events@[k]).event_type) ==> k
                == l.events@.len() - 1
    }

    /// All histories are well formed.
    pub open spec fn logs_ok(&self) -> bool {
        &&& forall|i: int|
            0 <= i < self.workflow_events@.len() ==> Self::wf_log_ok(
                #[trigger] self.workflow_events@[i],
                self.last_stamp,
            )
        &&& forall|i: int|
            0 <= i < self.activity_events@.len() ==> Self::act_log_ok(
                #[trigger] self.activity_events@[i],
                self.last_stamp,
            )
    }

    /// Every event's run id is listed in the run list of the parent named by
    /// the event itself.
    pub open spec fn runs_linked(&self) -> bool {
        &&& forall|i: int, k: int|
            #![trigger self.workflow_events@[i].events@[k]]
            0 <= i < self.workflow_events@.len() && 0 <= k
                < self.workflow_events@[i].events@.len() ==> self.wf_runs(
                self.workflow_events@[i].events@[k].workflow_id,
            ).contains(self.workflow_events@[i].run_id)
        &&& forall|i: int, k: int|
            #![trigger self.activity_events@[i].events@[k]]
            0 <= i < self.activity_events@.len() && 0 <= k
                < self.activity_events@[i].events@.len() ==> self.act_runs(
                self.activity_events@[i].events@[k].activity_id,
            ).contains(self.activity_events@[i].run_id)
    }

    /// Every run id listed in a run list has a non-empty history. The
    /// operations of the store keep this alongside [`Db::wf`].
    pub open spec fn populated(&self) -> bool {
        &&& forall|w: WorkflowId, k: int|
            0 <= k < self.wf_runs(w).len() ==> self.wf_history(
                #[trigger] self.wf_runs(w)[k],
            ).len() > 0
        &&& forall|a: ActivityId, k: int|
            0 <= k < self.act_runs(a).len() ==> self.act_history(
                #[trigger] self.act_runs(a)[k],
            ).len() > 0
    }

    /// The store invariant: established by [`Db::new`] and preserved by
    /// every operation.
    pub open spec fn wf(&self) -> bool {
        &&& self.keys_unique()
        &&& self.run_lists_distinct()
        &&& self.logs_ok()
        &&& self.runs_linked()
    }

    /// An empty store.
    pub fn new() -> (r: Self)
        ensures
            r.wf(),
            r.populated(),
            r.workflows@ =~= Seq::<Workflow>::empty(),
            r.activities@ =~= Seq::<Activity>::empty(),
            r.workflow_runs@ =~= Seq::<WorkflowRunList>::empty(),
            r.activity_runs@ =~= Seq::<ActivityRunList>::empty(),
            r.workflow_events@ =~= Seq::<WorkflowLog>::empty(),
            r.activity_events@ =~= Seq::<ActivityLog>::empty(),
            r.last_stamp == 0,
    {
        Db {
            workflows: Vec::new(),
            activities: Vec::new(),
            workflow_runs: Vec::new(),
            activity_runs: Vec::new(),
            workflow_events: Vec::new(),
            activity_events: Vec::new(),
            last_stamp: 0,
        }
    }

    /// Index of the workflow registered under `name`, if any.
    fn workflow_index(&self, name: &WorkflowName) -> (r: Option<usize>)
        ensures
            match r {
                Some(i) => i < self.workflows@.len() && self.spec_workflow_named(name@) == Some(
                    self.workflows@[i as int],
                ) && self.workflows@[i as int].name@ == name@,
                None => self.spec_workflow_named(name@) is None,
            },
    {
        let n = self.workflows.len();
        proof {
            assert(self.workflows@.skip(0) =~= self.workflows@);
        }
        for i in 0..n
            invariant
                n == self.workflows@.len(),
                find_workflow(self.workflows@, name@) == find_workflow(
                    self.workflows@.skip(i as int),
                    name@,
                ),
        {
            proof {
                assert(self.workflows@.skip(i as int)[0] == self.workflows@[i as int]);
            }
            if self.workflows[i].name.same(name) {
                return Some(i);
            }
            proof {
                assert(self.workflows@.skip(i as int).drop_first() =~= self.workflows@.skip(
                    i as int + 1,
                ));
            }
        }
        None
    }

    /// Index of the activity registered under `name`, if any.
    fn activity_index(&self, name: &ActivityName) -> (r: Option<usize>)
        ensures
            match r {
                Some(i) => i < self.activities@.len() && self.spec_activity_named(name@) == Some(
                    self.activities@[i as int],
                ) && self.activities@[i as int].name@ == name@,
                None => self.spec_activity_named(name@) is None,
            },
    {
        let n = self.activities.len();
        proof {
            assert(self.activities@.skip(0) =~= self.activities@);
        }
        for i in 0..n
            invariant
                n == self.activities@.len(),
                find_activity(self.activities@, name@) == find_activity(
                    self.activities@.skip(i as int),
                    name@,
                ),
        {
            proof {
                assert(self.activities@.skip(i as int)[0] == self.activities@[i as int]);
            }
            if self.activities[i].name.same(name) {
                return Some(i);
            }
            proof {
                assert(self.activities@.skip(i as int).drop_first() =~= self.activities@.skip(
                    i as int + 1,
                ));
            }
        }
        None
    }

    /// Whether a workflow is registered under `name`.
    pub fn workflow_exists(&self, name: &WorkflowName) -> (r: bool)
        ensures
            r == (self.spec_workflow_named(name@) is Some),
    {
        self.workflow_index(name).is_some()
    }

    /// Whether an activity is registered under `name`.
    pub fn activity_exists(&self, name: &ActivityName) -> (r: bool)
        ensures
            r == (self.spec_activity_named(name@) is Some),
    {
        self.activity_index(name).is_some()
    }

    /// The workflow registered under `name`, if any.
    pub fn get_workflow_by_name(&self, name: &WorkflowName) -> (r: Option<Workflow>)
        ensures
            r == self.spec_workflow_named(name@),
    {
        match self.workflow_index(name) {
            Some(i) => Some(self.workflows[i].clone()),
            None => None,
        }
    }

    /// The activity registered under `name`, if any.
    pub fn get_activity_by_name(&self, name: &ActivityName) -> (r: Option<Activity>)
        ensures
            r == self.spec_activity_named(name@),
    {
        match self.activity_index(name) {
            Some(i) => Some(self.activities[i].clone()),
            None => None,
        }
    }

    /// Registers `w` unless a workflow of the same name exists; idempotent
    /// on the name.
    pub fn add_workflow(&mut self, w: Workflow)
        requires
            old(self).wf(),
            old(self).populated(),
        ensures
            final(self).wf(),
            final(self).populated(),
            old(self).spec_workflow_named(w.name@) is Some ==> *final(self) == *old(self),
            old(self).spec_workflow_named(w.name@) is None ==> final(self).workflows@ == old(self).workflows@.push(w) && final(self).activities@ == old(self).activities@ && final(self).workflow_runs@ == old(self).workflow_runs@ && final(self).activity_runs@ == old(self).activity_runs@ && final(self).workflow_events@ == old(self).workflow_events@ && final(self).activity_events@ == old(self).activity_events@ && final(self).last_stamp == old(self).last_stamp,
            final(self).spec_workflow_named(w.name@) is Some,
            count_workflows(final(self).workflows@, w.name@) == 1,
            forall|n: Seq<char>|
                n != w.name@ ==> #[trigger] final(self).spec_workflow_named(n) == old(self).spec_workflow_named(n),
    {
        let ghost old_ws = self.workflows@;
        let ghost gw = w;
        let ghost wname = w.name@;
        match self.workflow_index(&w.name) {
            Some(_) => {
                proof {
                    lemma_find_count_workflow(old_ws, wname);
                }
            },
            None => {
                proof {
                    lemma_find_none_workflow(old_ws, wname);
                }
                self.workflows.push(w);
                proof {
                    lemma_workflow_push(old_ws, gw, wname);
                    lemma_find_count_workflow(self.workflows@, wname);
                    assert(self.populated()) by {
                        assert forall|w0: WorkflowId, k: int|
                            0 <= k < self.wf_runs(w0).len() implies self.wf_history(
                            #[trigger] self.wf_runs(w0)[k],
                        ).len() > 0 by {
                            assert(self.wf_runs(w0) == old(self).wf_runs(w0));
                            assert(self.wf_history(old(self).wf_runs(w0)[k]) == old(
                                self,
                            ).wf_history(old(self).wf_runs(w0)[k]));
                        };
                        assert forall|a0: ActivityId, k: int|
                            0 <= k < self.act_runs(a0).len() implies self.act_history(
                            #[trigger] self.act_runs(a0)[k],
                        ).len() > 0 by {
                            assert(self.act_runs(a0) == old(self).act_runs(a0));
                            assert(self.act_history(old(self).act_runs(a0)[k]) == old(
                                self,
                            ).act_history(old(self).act_runs(a0)[k]));
                        };
                    };
                    assert forall|n: Seq<char>|
                        n != wname implies #[trigger] self.spec_workflow_named(n) == find_workflow(
                        old_ws,
                        n,
                    ) by {
                        lemma_workflow_push(old_ws, gw, n);
                    };
                }
            },
        }
    }

    /// Registers `a` unless an activity of the same name exists; idempotent
    /// on the name.
    pub fn add_activity(&mut self, a: Activity)
        requires
            old(self).wf(),
            old(self).populated(),
        ensures
            final(self).wf(),
            final(self).populated(),
            old(self).spec_activity_named(a.name@) is Some ==> *final(self) == *old(self),
            old(self).spec_activity_named(a.name@) is None ==> final(self).activities@ == old(self).activities@.push(a) && final(self).workflows@ == old(self).workflows@ && final(self).workflow_runs@ == old(self).workflow_runs@ && final(self).activity_runs@ == old(self).activity_runs@ && final(self).workflow_events@ == old(self).workflow_events@ && final(self).activity_events@ == old(self).activity_events@ && final(self).last_stamp == old(self).last_stamp,
            final(self).spec_activity_named(a.name@) is Some,
            count_activities(final(self).activities@, a.name@) == 1,
            forall|n: Seq<char>|
                n != a.name@ ==> #[trigger] final(self).spec_activity_named(n) == old(self).spec_activity_named(n),
    {
        let ghost old_as = self.activities@;
        let ghost ga = a;
        let ghost aname = a.name@;
        match self.activity_index(&a.name) {
            Some(_) => {
                proof {
                    lemma_find_count_activity(old_as, aname);
                }
            },
            None => {
                proof {
                    lemma_find_none_activity(old_as, aname);
                }
                self.activities.push(a);
                proof {
                    lemma_activity_push(old_as, ga, aname);
                    lemma_find_count_activity(self.activities@, aname);
                    assert(self.populated()) by {
                        assert forall|w0: WorkflowId, k: int|
                            0 <= k < self.wf_runs(w0).len() implies self.wf_history(
                            #[trigger] self.wf_runs(w0)[k],
                        ).len() > 0 by {
                            assert(self.wf_runs(w0) == old(self).wf_runs(w0));
                            assert(self.wf_history(old(self).wf_runs(w0)[k]) == old(
                                self,
                            ).wf_history(old(self).wf_runs(w0)[k]));
                        };
                        assert forall|a0: ActivityId, k: int|
                            0 <= k < self.act_runs(a0).len() implies self.act_history(
                            #[trigger] self.act_runs(a0)[k],
                        ).len() > 0 by {
                            assert(self.act_runs(a0) == old(self).act_runs(a0));
                            assert(self.act_history(old(self).act_runs(a0)[k]) == old(
                                self,
                            ).act_history(old(self).act_runs(a0)[k]));
                        };
                    };
                    assert forall|n: Seq<char>|
                        n != aname implies #[trigger] self.spec_activity_named(n) == find_activity(
                        old_as,
                        n,
                    ) by {
                        lemma_activity_push(old_as, ga, n);
                    };
                }
            },
        }
    }
}


/// Appending an element changes no workflow lookup but its own name's,
/// which it resolves when it was unresolved before; counts grow only for
/// that name.
proof fn lemma_workflow_push(s: Seq<Workflow>, w: Workflow, n: Seq<char>)
    ensures
        find_workflow(s.push(w), n) == if find_workflow(s, n) is Some {
            find_workflow(s, n)
        } else if w.name@ == n {
            Some(w)
        } else {
            None
        },
        count_workflows(s.push(w), n) == count_workflows(s, n) + (if w.name@ == n {
            1int
        } else {
            0int
        }),
    decreases s.len(),
{
    assert(s.push(w)[0] == if s.len() == 0 {
        w
    } else {
        s[0]
    });
    if s.len() == 0 {
        assert(s.push(w).drop_first() =~= Seq::<Workflow>::empty());
        assert(count_workflows(s.push(w).drop_first(), n) == 0);
        assert(find_workflow(s.push(w).drop_first(), n) is None);
        assert(find_workflow(s, n) is None);
        if w.name@ == n {
            assert(find_workflow(s.push(w), n) == Some(w));
        } else {
            assert(find_workflow(s.push(w), n) is None);
        }
    } else {
        lemma_workflow_push(s.drop_first(), w, n);
        assert(s.push(w).drop_first() =~= s.drop_first().push(w));
        assert(count_workflows(s.push(w), n) == (if s[0].name@ == n {
            1nat
        } else {
            0nat
        }) + count_workflows(s.drop_first().push(w), n));
        assert(count_workflows(s, n) == (if s[0].name@ == n {
            1nat
        } else {
            0nat
        }) + count_workflows(s.drop_first(), n));
        if s[0].name@ == n {
            assert(find_workflow(s, n) == Some(s[0]));
            assert(find_workflow(s.push(w), n) == Some(s[0]));
        } else {
            assert(find_workflow(s, n) == find_workflow(s.drop_first(), n));
            assert(find_workflow(s.push(w), n) == find_workflow(s.drop_first().push(w), n));
        }
    }
}

/// Appending an element changes no activity lookup but its own name's.
proof fn lemma_activity_push(s: Seq<Activity>, a: Activity, n: Seq<char>)
    ensures
        find_activity(s.push(a), n) == if find_activity(s, n) is Some {
            find_activity(s, n)
        } else if a.name@ == n {
            Some(a)
        } else {
            None
        },
        count_activities(s.push(a), n) == count_activities(s, n) + (if a.name@ == n {
            1int
        } else {
            0int
        }),
    decreases s.len(),
{
    assert(s.push(a)[0] == if s.len() == 0 {
        a
    } else {
        s[0]
    });
    if s.len() == 0 {
        assert(s.push(a).drop_first() =~= Seq::<Activity>::empty());
        assert(count_activities(s.push(a).drop_first(), n) == 0);
        assert(find_activity(s.push(a).drop_first(), n) is None);
        assert(find_activity(s, n) is None);
        if a.name@ == n {
            assert(find_activity(s.push(a), n) == Some(a));
        } else {
            assert(find_activity(s.push(a), n) is None);
        }
    } else {
        lemma_activity_push(s.drop_first(), a, n);
        assert(s.push(a).drop_first() =~= s.drop_first().push(a));
        assert(count_activities(s.push(a), n) == (if s[0].name@ == n {
            1nat
        } else {
            0nat
        }) + count_activities(s.drop_first().push(a), n));
        assert(count_activities(s, n) == (if s[0].name@ == n {
            1nat
        } else {
            0nat
        }) + count_activities(s.drop_first(), n));
        if s[0].name@ == n {
            assert(find_activity(s, n) == Some(s[0]));
            assert(find_activity(s.push(a), n) == Some(s[0]));
        } else {
            assert(find_activity(s, n) == find_activity(s.drop_first(), n));
            assert(find_activity(s.push(a), n) == find_activity(s.drop_first().push(a), n));
        }
    }
}

/// An unresolved workflow name matches no element at all.
proof fn lemma_find_none_workflow(s: Seq<Workflow>, n: Seq<char>)
    requires
        find_workflow(s, n) is None,
    ensures
        forall|i: int| 0 <= i < s.len() ==> (#[trigger] s[i]).name@ != n,
    decreases s.len(),
{
    if s.len() > 0 {
        lemma_find_none_workflow(s.drop_first(), n);
        assert forall|i: int| 0 <= i < s.len() implies (#[trigger] s[i]).name@ != n by {
            if i > 0 {
                assert(s.drop_first()[i - 1] == s[i]);
            }
        };
    }
}

/// An unresolved activity name matches no element at all.
proof fn lemma_find_none_activity(s: Seq<Activity>, n: Seq<char>)
    requires
        find_activity(s, n) is None,
    ensures
        forall|i: int| 0 <= i < s.len() ==> (#[trigger] s[i]).name@ != n,
    decreases s.len(),
{
    if s.len() > 0 {
        lemma_find_none_activity(s.drop_first(), n);
        assert forall|i: int| 0 <= i < s.len() implies (#[trigger] s[i]).name@ != n by {
            if i > 0 {
                assert(s.drop_first()[i - 1] == s[i]);
            }
        };
    }
}

/// With distinct names, a resolved workflow name is counted exactly once,
/// an unresolved one zero times.
pub proof fn lemma_find_count_workflow(s: Seq<Workflow>, n: Seq<char>)
    requires
        forall|i: int, j: int| 0 <= i < j < s.len() ==> (#[trigger] s[i]).name@ != (
        #[trigger] s[j]).name@,
    ensures
        find_workflow(s, n) is Some ==> count_workflows(s, n) == 1,
        find_workflow(s, n) is None ==> count_workflows(s, n) == 0,
    decreases s.len(),
{
    if s.len() > 0 {
        assert forall|i: int, j: int|
            0 <= i < j < s.drop_first().len() implies (#[trigger] s.drop_first()[i]).name@ != (
        #[trigger] s.drop_first()[j]).name@ by {
            assert(s.drop_first()[i] == s[i + 1]);
            assert(s.drop_first()[j] == s[j + 1]);
        };
        lemma_find_count_workflow(s.drop_first(), n);
        if s[0].name@ == n {
            assert forall|i: int|
                0 <= i < s.drop_first().len() implies (#[trigger] s.drop_first()[i]).name@
                != n by {
                assert(s.drop_first()[i] == s[i + 1]);
                assert(s[0].name@ != s[i + 1].name@);
            };
            lemma_no_match_count_workflow(s.drop_first(), n);
        }
    }
}

/// A workflow name matching no element is counted zero times.
proof fn lemma_no_match_count_workflow(s: Seq<Workflow>, n: Seq<char>)
    requires
        forall|i: int| 0 <= i < s.len() ==> (#[trigger] s[i]).name@ != n,
    ensures
        count_workflows(s, n) == 0,
    decreases s.len(),
{
    if s.len() > 0 {
        assert forall|i: int|
            0 <= i < s.drop_first().len() implies (#[trigger] s.drop_first()[i]).name@ != n by {
            assert(s.drop_first()[i] == s[i + 1]);
        };
        lemma_no_match_count_workflow(s.drop_first(), n);
        assert(s[0].name@ != n);
    }
}

/// With distinct names, a resolved activity name is counted exactly once,
/// an unresolved one zero times.
pub proof fn lemma_find_count_activity(s: Seq<Activity>, n: Seq<char>)
    requires
        forall|i: int, j: int| 0 <= i < j < s.len() ==> (#[trigger] s[i]).name@ != (
        #[trigger] s[j]).name@,
    ensures
        find_activity(s, n) is Some ==> count_activities(s, n) == 1,
        find_activity(s, n) is None ==> count_activities(s, n) == 0,
    decreases s.len(),
{
    if s.len() > 0 {
        assert forall|i: int, j: int|
            0 <= i < j < s.drop_first().len() implies (#[trigger] s.drop_first()[i]).name@ != (
        #[trigger] s.drop_first()[j]).name@ by {
            assert(s.drop_first()[i] == s[i + 1]);
            assert(s.drop_first()[j] == s[j + 1]);
        };
        lemma_find_count_activity(s.drop_first(), n);
        if s[0].name@ == n {
            assert forall|i: int|
                0 <= i < s.drop_first().len() implies (#[trigger] s.drop_first()[i]).name@
                != n by {
                assert(s.drop_first()[i] == s[i + 1]);
                assert(s[0].name@ != s[i + 1].name@);
            };
            lemma_no_match_count_activity(s.drop_first(), n);
        }
    }
}

/// An activity name matching no element is counted zero times.
proof fn lemma_no_match_count_activity(s: Seq<Activity>, n: Seq<char>)
    requires
        forall|i: int| 0 <= i < s.len() ==> (#[trigger] s[i]).name@ != n,
    ensures
        count_activities(s, n) == 0,
    decreases s.len(),
{
    if s.len() > 0 {
        assert forall|i: int|
            0 <= i < s.drop_first().len() implies (#[trigger] s.drop_first()[i]).name@ != n by {
            assert(s.drop_first()[i] == s[i + 1]);
        };
        lemma_no_match_count_activity(s.drop_first(), n);
        assert(s[0].name@ != n);
    }
}

impl Db {
    /// Index of the run list of workflow `id`, if any.
    fn workflow_runs_index(&self, id: WorkflowId) -> (r: Option<usize>)
        ensures
            match r {
                Some(i) => i < self.workflow_runs@.len() && find_workflow_runs(
                    self.workflow_runs@,
                    id,
                ) == Some(self.workflow_runs@[i as int]) && self.workflow_runs@[i as int].workflow_id
                    == id,
                None => find_workflow_runs(self.workflow_runs@, id) is None,
            },
    {
        let n = self.workflow_runs.len();
        proof {
            assert(self.workflow_runs@.skip(0) =~= self.workflow_runs@);
        }
        for i in 0..n
            invariant
                n == self.workflow_runs@.len(),
                find_workflow_runs(self.workflow_runs@, id) == find_workflow_runs(
                    self.workflow_runs@.skip(i as int),
                    id,
                ),
        {
            proof {
                assert(self.workflow_runs@.skip(i as int)[0] == self.workflow_runs@[i as int]);
            }
            if self.workflow_runs[i].workflow_id == id {
                return Some(i);
            }
            proof {
                assert(self.workflow_runs@.skip(i as int).drop_first() =~= self.workflow_runs@.skip(
                    i as int + 1,
                ));
            }
        }
        None
    }

    /// Index of the history of workflow run `run`, if any.
    fn workflow_log_index(&self, run: WorkflowRunId) -> (r: Option<usize>)
        ensures
            match r {
                Some(i) => i < self.workflow_events@.len() && find_workflow_log(
                    self.workflow_events@,
                    run,
                ) == Some(self.workflow_events@[i as int]) && self.workflow_events@[i as int].run_id
                    == run,
                None => find_workflow_log(self.workflow_events@, run) is None,
            },
    {
        let n = self.workflow_events.len();
        proof {
            assert(self.workflow_events@.skip(0) =~= self.workflow_events@);
        }
        for i in 0..n
            invariant
                n == self.workflow_events@.len(),
                find_workflow_log(self.workflow_events@, run) == find_workflow_log(
                    self.workflow_events@.skip(i as int),
                    run,
                ),
        {
            proof {
                assert(self.workflow_events@.skip(i as int)[0] == self.workflow_events@[i as int]);
            }
            if self.workflow_events[i].run_id == run {
                return Some(i);
            }
            proof {
                assert(self.workflow_events@.skip(i as int).drop_first()
                    =~= self.workflow_events@.skip(i as int + 1));
            }
        }
        None
    }

    /// Makes sure `rid` is listed, exactly once, in the run list of
    /// workflow `wid`.
    fn link_workflow_run(&mut self, wid: WorkflowId, rid: WorkflowRunId)
        requires
            old(self).wf(),
        ensures
            final(self).wf(),
            final(self).workflows@ == old(self).workflows@,
            final(self).activities@ == old(self).activities@,
            final(self).workflow_events@ == old(self).workflow_events@,
            final(self).activity_runs@ == old(self).activity_runs@,
            final(self).activity_events@ == old(self).activity_events@,
            final(self).last_stamp == old(self).last_stamp,
            final(self).wf_runs(wid) == (if old(self).wf_runs(wid).contains(rid) {
                old(self).wf_runs(wid)
            } else {
                old(self).wf_runs(wid).push(rid)
            }),
            forall|w: WorkflowId|
                w != wid ==> #[trigger] final(self).wf_runs(w) == old(self).wf_runs(w),
            final(self).wf_runs(wid).contains(rid),
    {
        let ghost old_rl = self.workflow_runs@;
        match self.workflow_runs_index(wid) {
            Some(ri) => {
                let present = wf_run_list_contains(&self.workflow_runs[ri].runs, rid);
                if present {
                    return ;
                }
                let ghost oldlist = self.workflow_runs@[ri as int];
                let rl = &mut self.workflow_runs[ri];
                rl.runs.push(rid);
                proof {
                    let newlist = self.workflow_runs@[ri as int];
                    assert(self.workflow_runs@ == old_rl.update(ri as int, newlist));
                    assert(newlist.workflow_id == wid);
                    assert(newlist.runs@ == oldlist.runs@.push(rid));
                    assert(newlist.runs@[oldlist.runs@.len() as int] == rid);
                    assert(newlist.runs@.contains(rid));
                    assert forall|w: WorkflowId| #[trigger]
                        find_workflow_runs(self.workflow_runs@, w) == (if w == wid {
                            Some(newlist)
                        } else {
                            find_workflow_runs(old_rl, w)
                        }) by {
                        lemma_wfruns_update(old_rl, ri as int, newlist, w);
                    };
                    assert(old(self).wf_runs(wid) == oldlist.runs@);
                    assert(self.wf_runs(wid) == newlist.runs@);
                    assert forall|a: int| 0 <= a < oldlist.runs@.len() implies oldlist.runs@[a]
                        != rid by {
                        if oldlist.runs@[a] == rid {
                            assert(oldlist.runs@.contains(rid));
                        }
                    };
                    assert(self.keys_unique()) by {
                        assert(forall|x: int|
                            0 <= x < self.workflow_runs@.len() ==> (
                            #[trigger] self.workflow_runs@[x]).workflow_id == old_rl[x].workflow_id);
                    };
                    assert(self.run_lists_distinct()) by {
                        assert(forall|x: int|
                            0 <= x < self.workflow_runs@.len() && x != ri as int ==> (
                            #[trigger] self.workflow_runs@[x]) == old_rl[x]);
                    };
                    assert(self.logs_ok());
                    assert(self.runs_linked()) by {
                        assert forall|i: int, k: int|
                            #![trigger self.workflow_events@[i].events@[k]]
                            0 <= i < self.workflow_events@.len() && 0 <= k
                                < self.workflow_events@[i].events@.len() implies self.wf_runs(
                            self.workflow_events@[i].events@[k].workflow_id,
                        ).contains(self.workflow_events@[i].run_id) by {
                            let w = self.workflow_events@[i].events@[k].workflow_id;
                            let r0 = self.workflow_events@[i].run_id;
                            assert(old(self).wf_runs(w).contains(r0));
                            if w == wid {
                                let k0 = choose|k0: int|
                                    0 <= k0 < oldlist.runs@.len() && oldlist.runs@[k0] == r0;
                                assert(newlist.runs@[k0] == r0);
                            }
                        };
                    };
                }
            },
            None => {
                let mut rs: Vec<WorkflowRunId> = Vec::new();
                rs.push(rid);
                self.workflow_runs.push(WorkflowRunList { workflow_id: wid, runs: rs });
                proof {
                    let newlist = self.workflow_runs@[old_rl.len() as int];
                    assert(self.workflow_runs@ == old_rl.push(newlist));
                    assert(newlist.workflow_id == wid);
                    assert(newlist.runs@ =~= Seq::<WorkflowRunId>::empty().push(rid));
                    assert(newlist.runs@[0] == rid);
                    assert(newlist.runs@.contains(rid));
                    assert forall|w: WorkflowId| #[trigger]
                        find_workflow_runs(self.workflow_runs@, w) == (if find_workflow_runs(
                            old_rl,
                            w,
                        ) is Some {
                            find_workflow_runs(old_rl, w)
                        } else if w == wid {
                            Some(newlist)
                        } else {
                            None
                        }) by {
                        lemma_wfruns_push(old_rl, newlist, w);
                    };
                    assert(old(self).wf_runs(wid) =~= Seq::<WorkflowRunId>::empty());
                    assert(self.wf_runs(wid) == newlist.runs@);
                    lemma_find_none_wfruns(old_rl, wid);
                    assert(self.keys_unique()) by {
                        assert(forall|x: int|
                            0 <= x < old_rl.len() ==> (#[trigger] self.workflow_runs@[x])
                                == old_rl[x]);
                    };
                    assert(self.run_lists_distinct()) by {
                        assert(forall|x: int|
                            0 <= x < old_rl.len() ==> (#[trigger] self.workflow_runs@[x])
                                == old_rl[x]);
                    };
                    assert(self.logs_ok());
                    assert(self.runs_linked()) by {
                        assert forall|i: int, k: int|
                            #![trigger self.workflow_events@[i].events@[k]]
                            0 <= i < self.workflow_events@.len() && 0 <= k
                                < self.workflow_events@[i].events@.len() implies self.wf_runs(
                            self.workflow_events@[i].events@[k].workflow_id,
                        ).contains(self.workflow_events@[i].run_id) by {
                            let w = self.workflow_events@[i].events@[k].workflow_id;
                            let r0 = self.workflow_events@[i].run_id;
                            assert(old(self).wf_runs(w).contains(r0));
                        };
                    };
                }
            },
        }
    }

    /// Appends `e` to its run's history, which must not be terminal yet;
    /// `e` carries the already assigned stamp.
    fn append_workflow_log(&mut self, e: WorkflowEvent)
        requires
            old(self).wf(),
            e.created_at >= old(self).last_stamp,
            old(self).wf_runs(e.workflow_id).contains(e.run_id),
            !has_wf_terminal(old(self).wf_history(e.run_id)),
        ensures
            final(self).wf(),
            final(self).workflows@ == old(self).workflows@,
            final(self).activities@ == old(self).activities@,
            final(self).workflow_runs@ == old(self).workflow_runs@,
            final(self).activity_runs@ == old(self).activity_runs@,
            final(self).activity_events@ == old(self).activity_events@,
            final(self).last_stamp == e.created_at,
            final(self).wf_history(e.run_id) == old(self).wf_history(e.run_id).push(e),
            forall|r: WorkflowRunId|
                r != e.run_id ==> #[trigger] final(self).wf_history(r) == old(self).wf_history(r),
    {
        let rid = e.run_id;
        let stamp = e.created_at;
        let ghost old_logs = self.workflow_events@;
        let ghost ge = e;
        match self.workflow_log_index(rid) {
            Some(li) => {
                let ghost oldlog = self.workflow_events@[li as int];
                let lg = &mut self.workflow_events[li];
                lg.events.push(e);
                self.last_stamp = stamp;
                proof {
                    let newlog = self.workflow_events@[li as int];
                    assert(self.workflow_events@ == old_logs.update(li as int, newlog));
                    assert(newlog.run_id == rid);
                    assert(newlog.events@ == oldlog.events@.push(ge));
                    assert forall|r: WorkflowRunId| #[trigger]
                        find_workflow_log(self.workflow_events@, r) == (if r == rid {
                            Some(newlog)
                        } else {
                            find_workflow_log(old_logs, r)
                        }) by {
                        lemma_wflog_update(old_logs, li as int, newlog, r);
                    };
                    assert(old(self).wf_history(rid) == oldlog.events@);
                    assert(self.wf_history(rid) == newlog.events@);
                    assert forall|k: int|
                        0 <= k < oldlog.events@.len() implies !wf_terminal(
                        (#[trigger] oldlog.events@[k]).event_type,
                    ) by {
                        if wf_terminal(oldlog.events@[k].event_type) {
                            assert(has_wf_terminal(old(self).wf_history(rid)));
                        }
                    };
                    assert(self.keys_unique()) by {
                        assert(forall|x: int|
                            0 <= x < self.workflow_events@.len() ==> (
                            #[trigger] self.workflow_events@[x]).run_id == old_logs[x].run_id);
                    };
                    assert(self.run_lists_distinct());
                    assert(self.logs_ok()) by {
                        assert(Self::wf_log_ok(oldlog, old(self).last_stamp));
                        assert forall|x: int|
                            0 <= x < self.workflow_events@.len() implies Self::wf_log_ok(
                            #[trigger] self.workflow_events@[x],
                            self.last_stamp,
                        ) by {
                            if x != li as int {
                                assert(self.workflow_events@[x] == old_logs[x]);
                                assert(Self::wf_log_ok(old_logs[x], old(self).last_stamp));
                            } else {
                                assert(forall|k: int|
                                    0 <= k < oldlog.events@.len() ==> (
                                    #[trigger] newlog.events@[k]) == oldlog.events@[k]);
                                assert(newlog.events@[oldlog.events@.len() as int] == ge);
                            }
                        };
                        assert forall|x: int|
                            0 <= x < self.activity_events@.len() implies Self::act_log_ok(
                            #[trigger] self.activity_events@[x],
                            self.last_stamp,
                        ) by {
                            assert(Self::act_log_ok(self.activity_events@[x], old(self).last_stamp));
                        };
                    };
                    assert(self.runs_linked()) by {
                        assert forall|i: int, k: int|
                            #![trigger self.workflow_events@[i].events@[k]]
                            0 <= i < self.workflow_events@.len() && 0 <= k
                                < self.workflow_events@[i].events@.len() implies self.wf_runs(
                            self.workflow_events@[i].events@[k].workflow_id,
                        ).contains(self.workflow_events@[i].run_id) by {
                            if i == li as int {
                                if k < oldlog.events@.len() {
                                    assert(self.workflow_events@[i].events@[k]
                                        == oldlog.events@[k]);
                                    assert(old(self).wf_runs(
                                        oldlog.events@[k].workflow_id,
                                    ).contains(oldlog.run_id));
                                } else {
                                    assert(self.workflow_events@[i].events@[k] == ge);
                                }
                            } else {
                                assert(self.workflow_events@[i] == old_logs[i]);
                                assert(old(self).wf_runs(
                                    old_logs[i].events@[k].workflow_id,
                                ).contains(old_logs[i].run_id));
                            }
                        };
                    };
                }
            },
            None => {
                let mut evs: Vec<WorkflowEvent> = Vec::new();
                evs.push(e);
                self.workflow_events.push(WorkflowLog { run_id: rid, events: evs });
                self.last_stamp = stamp;
                proof {
                    let newlog = self.workflow_events@[old_logs.len() as int];
                    assert(self.workflow_events@ == old_logs.push(newlog));
                    assert(newlog.run_id == rid);
                    assert(newlog.events@ =~= Seq::<WorkflowEvent>::empty().push(ge));
                    assert(newlog.events@[0] == ge);
                    assert forall|r: WorkflowRunId| #[trigger]
                        find_workflow_log(self.workflow_events@, r) == (if find_workflow_log(
                            old_logs,
                            r,
                        ) is Some {
                            find_workflow_log(old_logs, r)
                        } else if r == rid {
                            Some(newlog)
                        } else {
                            None
                        }) by {
                        lemma_wflog_push(old_logs, newlog, r);
                    };
                    assert(old(self).wf_history(rid) =~= Seq::<WorkflowEvent>::empty());
                    assert(self.wf_history(rid) == newlog.events@);
                    assert(self.wf_history(rid) =~= old(self).wf_history(rid).push(ge));
                    lemma_find_none_wflog(old_logs, rid);
                    assert(self.keys_unique()) by {
                        assert(forall|x: int|
                            0 <= x < old_logs.len() ==> (#[trigger] self.workflow_events@[x])
                                == old_logs[x]);
                    };
                    assert(self.run_lists_distinct());
                    assert(self.logs_ok()) by {
                        assert forall|x: int|
                            0 <= x < self.workflow_events@.len() implies Self::wf_log_ok(
                            #[trigger] self.workflow_events@[x],
                            self.last_stamp,
                        ) by {
                            if x < old_logs.len() {
                                assert(self.workflow_events@[x] == old_logs[x]);
                                assert(Self::wf_log_ok(old_logs[x], old(self).last_stamp));
                            }
                        };
                        assert forall|x: int|
                            0 <= x < self.activity_events@.len() implies Self::act_log_ok(
                            #[trigger] self.activity_events@[x],
                            self.last_stamp,
                        ) by {
                            assert(Self::act_log_ok(self.activity_events@[x], old(self).last_stamp));
                        };
                    };
                    assert(self.runs_linked()) by {
                        assert forall|i: int, k: int|
                            #![trigger self.workflow_events@[i].events@[k]]
                            0 <= i < self.workflow_events@.len() && 0 <= k
                                < self.workflow_events@[i].events@.len() implies self.wf_runs(
                            self.workflow_events@[i].events@[k].workflow_id,
                        ).contains(self.workflow_events@[i].run_id) by {
                            if i < old_logs.len() {
                                assert(self.workflow_events@[i] == old_logs[i]);
                                assert(old(self).wf_runs(
                                    old_logs[i].events@[k].workflow_id,
                                ).contains(old_logs[i].run_id));
                            } else {
                                assert(self.workflow_events@[i].events@[k] == ge);
                            }
                        };
                    };
                }
            },
        }
    }

    /// Appends `e` to the history of its workflow run, creating the run and
    /// listing it in the parent workflow's run list when new. The stored
    /// event is stamped monotonically; an append to a run that already
    /// reached a terminal state is ignored, which keeps terminal states
    /// final.
    pub fn add_workflow_event(&mut self, e: WorkflowEvent)
        requires
            old(self).wf(),
            old(self).populated(),
        ensures
            final(self).wf(),
            final(self).populated(),
            final(self).workflows@ == old(self).workflows@,
            final(self).activities@ == old(self).activities@,
            final(self).activity_runs@ == old(self).activity_runs@,
            final(self).activity_events@ == old(self).activity_events@,
            has_wf_terminal(old(self).wf_history(e.run_id)) ==> *final(self) == *old(self),
            !has_wf_terminal(old(self).wf_history(e.run_id)) ==> ({
                &&& final(self).last_stamp == next_stamp(old(self).last_stamp, e.created_at)
                &&& final(self).wf_history(e.run_id) == old(self).wf_history(e.run_id).push(
                    stamp_wf_event(e, next_stamp(old(self).last_stamp, e.created_at)),
                )
                &&& forall|r: WorkflowRunId|
                    r != e.run_id ==> #[trigger] final(self).wf_history(r) == old(self).wf_history(
                        r,
                    )
                &&& final(self).wf_runs(e.workflow_id) == (if old(self).wf_runs(
                    e.workflow_id,
                ).contains(e.run_id) {
                    old(self).wf_runs(e.workflow_id)
                } else {
                    old(self).wf_runs(e.workflow_id).push(e.run_id)
                })
                &&& forall|w: WorkflowId|
                    w != e.workflow_id ==> #[trigger] final(self).wf_runs(w) == old(self).wf_runs(
                        w,
                    )
            }),
    {
        let rid = e.run_id;
        let wid = e.workflow_id;
        match self.workflow_log_index(rid) {
            Some(li) => {
                let m = self.workflow_events[li].events.len();
                proof {
                    assert(Self::wf_log_ok(self.workflow_events@[li as int], self.last_stamp));
                }
                let lt = self.workflow_events[li].events[m - 1].event_type;
                if lt == WorkflowEventType::Succeeded || lt == WorkflowEventType::Failed {
                    proof {
                        assert(wf_terminal(self.wf_history(rid)[m - 1].event_type));
                        assert(has_wf_terminal(self.wf_history(rid)));
                    }
                    return ;
                }
                proof {
                    assert(!has_wf_terminal(self.wf_history(rid))) by {
                        if has_wf_terminal(self.wf_history(rid)) {
                            let k = choose|k: int|
                                0 <= k < self.wf_history(rid).len() && wf_terminal(
                                    self.wf_history(rid)[k].event_type,
                                );
                            assert(k == m - 1);
                        }
                    };
                }
            },
            None => {
                proof {
                    assert(self.wf_history(rid) =~= Seq::<WorkflowEvent>::empty());
                }
            },
        }
        let stamp: i64 = if e.created_at > self.last_stamp {
            e.created_at
        } else if self.last_stamp < i64::MAX {
            self.last_stamp + 1
        } else {
            self.last_stamp
        };
        proof {
            assert(stamp == next_stamp(self.last_stamp, e.created_at));
            assert(stamp >= self.last_stamp);
        }
        self.link_workflow_run(wid, rid);
        let ghost mid = *self;
        let e2 = WorkflowEvent {
            workflow_id: e.workflow_id,
            run_id: e.run_id,
            event_type: e.event_type,
            payload: e.payload,
            rerun_of: e.rerun_of,
            created_at: stamp,
        };
        proof {
            assert(e2 == stamp_wf_event(e, next_stamp(old(self).last_stamp, e.created_at)));
        }
        self.append_workflow_log(e2);
        proof {
            assert forall|w: WorkflowId|
                w != wid implies #[trigger] self.wf_runs(w) == old(self).wf_runs(w) by {
                assert(mid.wf_runs(w) == old(self).wf_runs(w));
                assert(self.workflow_runs@ == mid.workflow_runs@);
            };
            assert(self.populated()) by {
                assert forall|w: WorkflowId, k: int|
                    0 <= k < self.wf_runs(w).len() implies self.wf_history(
                    #[trigger] self.wf_runs(w)[k],
                ).len() > 0 by {
                    let r0 = self.wf_runs(w)[k];
                    if r0 == rid {
                        assert(self.wf_history(rid).len() > 0);
                    } else {
                        assert(self.wf_history(r0) == old(self).wf_history(r0));
                        if w == wid {
                            if old(self).wf_runs(wid).contains(rid) {
                                assert(old(self).wf_runs(w)[k] == r0);
                            } else {
                                assert(k < old(self).wf_runs(wid).len());
                                assert(old(self).wf_runs(w)[k] == r0);
                            }
                        } else {
                            assert(self.wf_runs(w) == old(self).wf_runs(w));
                        }
                        assert(old(self).wf_history(r0).len() > 0);
                    }
                };
                assert forall|a0: ActivityId, k: int|
                    0 <= k < self.act_runs(a0).len() implies self.act_history(
                    #[trigger] self.act_runs(a0)[k],
                ).len() > 0 by {
                    assert(self.activity_runs@ == old(self).activity_runs@);
                    assert(self.act_runs(a0) == old(self).act_runs(a0));
                    assert(self.act_history(self.act_runs(a0)[k]) == old(self).act_history(
                        old(self).act_runs(a0)[k],
                    ));
                };
            };
        }
    }
}

/// After a push, a run-list lookup resolves as before, or to the new list
/// for its own key.
proof fn lemma_wfruns_push(s: Seq<WorkflowRunList>, x: WorkflowRunList, r: WorkflowId)
    ensures
        find_workflow_runs(s.push(x), r) == if find_workflow_runs(s, r) is Some {
            find_workflow_runs(s, r)
        } else if x.workflow_id == r {
            Some(x)
        } else {
            None
        },
    decreases s.len(),
{
    assert(s.push(x)[0] == if s.len() == 0 {
        x
    } else {
        s[0]
    });
    if s.len() == 0 {
        assert(s.push(x).drop_first() =~= Seq::<WorkflowRunList>::empty());
        if x.workflow_id == r {
            assert(find_workflow_runs(s.push(x), r) == Some(x));
        } else {
            assert(find_workflow_runs(s.push(x).drop_first(), r) is None);
            assert(find_workflow_runs(s.push(x), r) is None);
        }
    } else {
        lemma_wfruns_push(s.drop_first(), x, r);
        assert(s.push(x).drop_first() =~= s.drop_first().push(x));
        if s[0].workflow_id == r {
            assert(find_workflow_runs(s, r) == Some(s[0]));
            assert(find_workflow_runs(s.push(x), r) == Some(s[0]));
        } else {
            assert(find_workflow_runs(s, r) == find_workflow_runs(s.drop_first(), r));
            assert(find_workflow_runs(s.push(x), r) == find_workflow_runs(
                s.drop_first().push(x),
                r,
            ));
        }
    }
}

/// After an update that keeps the key, a run-list lookup resolves as
/// before, or to the new list for that key.
proof fn lemma_wfruns_update(s: Seq<WorkflowRunList>, i: int, x: WorkflowRunList, r: WorkflowId)
    requires
        0 <= i < s.len(),
        x.workflow_id == s[i].workflow_id,
        forall|a: int, b: int| 0 <= a < b < s.len() ==> (#[trigger] s[a]).workflow_id != (
        #[trigger] s[b]).workflow_id,
    ensures
        find_workflow_runs(s.update(i, x), r) == if s[i].workflow_id == r {
            Some(x)
        } else {
            find_workflow_runs(s, r)
        },
    decreases s.len(),
{
    assert(s.update(i, x)[0] == if i == 0 {
        x
    } else {
        s[0]
    });
    if i == 0 {
        if x.workflow_id == r {
            assert(find_workflow_runs(s.update(i, x), r) == Some(x));
        } else {
            assert(s.update(0, x).drop_first() =~= s.drop_first());
            assert(find_workflow_runs(s.update(i, x), r) == find_workflow_runs(
                s.drop_first(),
                r,
            ));
            assert(find_workflow_runs(s, r) == find_workflow_runs(s.drop_first(), r));
        }
    } else {
        assert(s.update(i, x).drop_first() =~= s.drop_first().update(i - 1, x));
        assert forall|a: int, b: int|
            0 <= a < b < s.drop_first().len() implies (#[trigger] s.drop_first()[a]).workflow_id
            != (#[trigger] s.drop_first()[b]).workflow_id by {
            assert(s.drop_first()[a] == s[a + 1]);
            assert(s.drop_first()[b] == s[b + 1]);
        };
        assert(s.drop_first()[i - 1] == s[i]);
        lemma_wfruns_update(s.drop_first(), i - 1, x, r);
        if s[0].workflow_id == r {
            assert(s[0].workflow_id != s[i].workflow_id);
            assert(find_workflow_runs(s, r) == Some(s[0]));
            assert(find_workflow_runs(s.update(i, x), r) == Some(s[0]));
        } else {
            assert(find_workflow_runs(s, r) == find_workflow_runs(s.drop_first(), r));
            assert(find_workflow_runs(s.update(i, x), r) == find_workflow_runs(
                s.drop_first().update(i - 1, x),
                r,
            ));
        }
    }
}

/// An unresolved run-list key matches no element at all.
proof fn lemma_find_none_wfruns(s: Seq<WorkflowRunList>, r: WorkflowId)
    requires
        find_workflow_runs(s, r) is None,
    ensures
        forall|i: int| 0 <= i < s.len() ==> (#[trigger] s[i]).workflow_id != r,
    decreases s.len(),
{
    if s.len() > 0 {
        lemma_find_none_wfruns(s.drop_first(), r);
        assert forall|i: int| 0 <= i < s.len() implies (#[trigger] s[i]).workflow_id != r by {
            if i > 0 {
                assert(s.drop_first()[i - 1] == s[i]);
            }
        };
    }
}

/// After a push, a history lookup resolves as before, or to the new
/// history for its own key.
proof fn lemma_wflog_push(s: Seq<WorkflowLog>, x: WorkflowLog, r: WorkflowRunId)
    ensures
        find_workflow_log(s.push(x), r) == if find_workflow_log(s, r) is Some {
            find_workflow_log(s, r)
        } else if x.run_id == r {
            Some(x)
        } else {
            None
        },
    decreases s.len(),
{
    assert(s.push(x)[0] == if s.len() == 0 {
        x
    } else {
        s[0]
    });
    if s.len() == 0 {
        assert(s.push(x).drop_first() =~= Seq::<WorkflowLog>::empty());
        if x.run_id == r {
            assert(find_workflow_log(s.push(x), r) == Some(x));
        } else {
            assert(find_workflow_log(s.push(x).drop_first(), r) is None);
            assert(find_workflow_log(s.push(x), r) is None);
        }
    } else {
        lemma_wflog_push(s.drop_first(), x, r);
        assert(s.push(x).drop_first() =~= s.drop_first().push(x));
        if s[0].run_id == r {
            assert(find_workflow_log(s, r) == Some(s[0]));
            assert(find_workflow_log(s.push(x), r) == Some(s[0]));
        } else {
            assert(find_workflow_log(s, r) == find_workflow_log(s.drop_first(), r));
            assert(find_workflow_log(s.push(x), r) == find_workflow_log(
                s.drop_first().push(x),
                r,
            ));
        }
    }
}

/// After an update that keeps the key, a history lookup resolves as
/// before, or to the new history for that key.
proof fn lemma_wflog_update(s: Seq<WorkflowLog>, i: int, x: WorkflowLog, r: WorkflowRunId)
    requires
        0 <= i < s.len(),
        x.run_id == s[i].run_id,
        forall|a: int, b: int| 0 <= a < b < s.len() ==> (#[trigger] s[a]).run_id != (
        #[trigger] s[b]).run_id,
    ensures
        find_workflow_log(s.update(i, x), r) == if s[i].run_id == r {
            Some(x)
        } else {
            find_workflow_log(s, r)
        },
    decreases s.len(),
{
    assert(s.update(i, x)[0] == if i == 0 {
        x
    } else {
        s[0]
    });
    if i == 0 {
        if x.run_id == r {
            assert(find_workflow_log(s.update(i, x), r) == Some(x));
        } else {
            assert(s.update(0, x).drop_first() =~= s.drop_first());
            assert(find_workflow_log(s.update(i, x), r) == find_workflow_log(s.drop_first(), r));
            assert(find_workflow_log(s, r) == find_workflow_log(s.drop_first(), r));
        }
    } else {
        assert(s.update(i, x).drop_first() =~= s.drop_first().update(i - 1, x));
        assert forall|a: int, b: int|
            0 <= a < b < s.drop_first().len() implies (#[trigger] s.drop_first()[a]).run_id != (
        #[trigger] s.drop_first()[b]).run_id by {
            assert(s.drop_first()[a] == s[a + 1]);
            assert(s.drop_first()[b] == s[b + 1]);
        };
        assert(s.drop_first()[i - 1] == s[i]);
        lemma_wflog_update(s.drop_first(), i - 1, x, r);
        if s[0].run_id == r {
            assert(s[0].run_id != s[i].run_id);
            assert(find_workflow_log(s, r) == Some(s[0]));
            assert(find_workflow_log(s.update(i, x), r) == Some(s[0]));
        } else {
            assert(find_workflow_log(s, r) == find_workflow_log(s.drop_first(), r));
            assert(find_workflow_log(s.update(i, x), r) == find_workflow_log(
                s.drop_first().update(i - 1, x),
                r,
            ));
        }
    }
}

/// An unresolved history key matches no element at all.
proof fn lemma_find_none_wflog(s: Seq<WorkflowLog>, r: WorkflowRunId)
    requires
        find_workflow_log(s, r) is None,
    ensures
        forall|i: int| 0 <= i < s.len() ==> (#[trigger] s[i]).run_id != r,
    decreases s.len(),
{
    if s.len() > 0 {
        lemma_find_none_wflog(s.drop_first(), r);
        assert forall|i: int| 0 <= i < s.len() implies (#[trigger] s[i]).run_id != r by {
            if i > 0 {
                assert(s.drop_first()[i - 1] == s[i]);
            }
        };
    }
}

/// Whether `r` occurs in `runs`.
fn wf_run_list_contains(runs: &Vec<WorkflowRunId>, r: WorkflowRunId) -> (res: bool)
    ensures
        res == runs@.contains(r),
{
    let n = runs.len();
    for i in 0..n
        invariant
            n == runs@.len(),
            forall|j: int| 0 <= j < i ==> runs@[j] != r,
    {
        if runs[i] == r {
            proof {
                assert(runs@[i as int] == r);
            }
            return true;
        }
    }
    false
}

impl Db {
    /// Index of the run list of activity `id`, if any.
    fn activity_runs_index(&self, id: ActivityId) -> (r: Option<usize>)
        ensures
            match r {
                Some(i) => i < self.activity_runs@.len() && find_activity_runs(
                    self.activity_runs@,
                    id,
                ) == Some(self.activity_runs@[i as int]) && self.activity_runs@[i as int].activity_id
                    == id,
                None => find_activity_runs(self.activity_runs@, id) is None,
            },
    {
        let n = self.activity_runs.len();
        proof {
            assert(self.activity_runs@.skip(0) =~= self.activity_runs@);
        }
        for i in 0..n
            invariant
                n == self.activity_runs@.len(),
                find_activity_runs(self.activity_runs@, id) == find_activity_runs(
                    self.activity_runs@.skip(i as int),
                    id,
                ),
        {
            proof {
                assert(self.activity_runs@.skip(i as int)[0] == self.activity_runs@[i as int]);
            }
            if self.activity_runs[i].activity_id == id {
                return Some(i);
            }
            proof {
                assert(self.activity_runs@.skip(i as int).drop_first() =~= self.activity_runs@.skip(
                    i as int + 1,
                ));
            }
        }
        None
    }

    /// Index of the history of activity run `run`, if any.
    fn activity_log_index(&self, run: ActivityRunId) -> (r: Option<usize>)
        ensures
            match r {
                Some(i) => i < self.activity_events@.len() && find_activity_log(
                    self.activity_events@,
                    run,
                ) == Some(self.activity_events@[i as int]) && self.activity_events@[i as int].run_id
                    == run,
                None => find_activity_log(self.activity_events@, run) is None,
            },
    {
        let n = self.activity_events.len();
        proof {
            assert(self.activity_events@.skip(0) =~= self.activity_events@);
        }
        for i in 0..n
            invariant
                n == self.activity_events@.len(),
                find_activity_log(self.activity_events@, run) == find_activity_log(
                    self.activity_events@.skip(i as int),
                    run,
                ),
        {
            proof {
                assert(self.activity_events@.skip(i as int)[0] == self.activity_events@[i as int]);
            }
            if self.activity_events[i].run_id == run {
                return Some(i);
            }
            proof {
                assert(self.activity_events@.skip(i as int).drop_first()
                    =~= self.activity_events@.skip(i as int + 1));
            }
        }
        None
    }

    /// Makes sure `rid` is listed, exactly once, in the run list of
    /// activity `wid`.
    fn link_activity_run(&mut self, wid: ActivityId, rid: ActivityRunId)
        requires
            old(self).wf(),
        ensures
            final(self).wf(),
            final(self).workflows@ == old(self).workflows@,
            final(self).activities@ == old(self).activities@,
            final(self).activity_events@ == old(self).activity_events@,
            final(self).workflow_runs@ == old(self).workflow_runs@,
            final(self).workflow_events@ == old(self).workflow_events@,
            final(self).last_stamp == old(self).last_stamp,
            final(self).act_runs(wid) == (if old(self).act_runs(wid).contains(rid) {
                old(self).act_runs(wid)
            } else {
                old(self).act_runs(wid).push(rid)
            }),
            forall|w: ActivityId|
                w != wid ==> #[trigger] final(self).act_runs(w) == old(self).act_runs(w),
            final(self).act_runs(wid).contains(rid),
    {
        let ghost old_rl = self.activity_runs@;
        match self.activity_runs_index(wid) {
            Some(ri) => {
                let present = act_run_list_contains(&self.activity_runs[ri].runs, rid);
                if present {
                    return ;
                }
                let ghost oldlist = self.activity_runs@[ri as int];
                let rl = &mut self.activity_runs[ri];
                rl.runs.push(rid);
                proof {
                    let newlist = self.activity_runs@[ri as int];
                    assert(self.activity_runs@ == old_rl.update(ri as int, newlist));
                    assert(newlist.activity_id == wid);
                    assert(newlist.runs@ == oldlist.runs@.push(rid));
                    assert(newlist.runs@[oldlist.runs@.len() as int] == rid);
                    assert(newlist.runs@.contains(rid));
                    assert forall|w: ActivityId| #[trigger]
                        find_activity_runs(self.activity_runs@, w) == (if w == wid {
                            Some(newlist)
                        } else {
                            find_activity_runs(old_rl, w)
                        }) by {
                        lemma_actruns_update(old_rl, ri as int, newlist, w);
                    };
                    assert(old(self).act_runs(wid) == oldlist.runs@);
                    assert(self.act_runs(wid) == newlist.runs@);
                    assert forall|a: int| 0 <= a < oldlist.runs@.len() implies oldlist.runs@[a]
                        != rid by {
                        if oldlist.runs@[a] == rid {
                            assert(oldlist.runs@.contains(rid));
                        }
                    };
                    assert(self.keys_unique()) by {
                        assert(forall|x: int|
                            0 <= x < self.activity_runs@.len() ==> (
                            #[trigger] self.activity_runs@[x]).activity_id == old_rl[x].activity_id);
                    };
                    assert(self.run_lists_distinct()) by {
                        assert(forall|x: int|
                            0 <= x < self.activity_runs@.len() && x != ri as int ==> (
                            #[trigger] self.activity_runs@[x]) == old_rl[x]);
                    };
                    assert(self.logs_ok());
                    assert(self.runs_linked()) by {
                        assert forall|i: int, k: int|
                            #![trigger self.activity_events@[i].events@[k]]
                            0 <= i < self.activity_events@.len() && 0 <= k
                                < self.activity_events@[i].events@.len() implies self.act_runs(
                            self.activity_events@[i].events@[k].activity_id,
                        ).contains(self.activity_events@[i].run_id) by {
                            let w = self.activity_events@[i].events@[k].activity_id;
                            let r0 = self.activity_events@[i].run_id;
                            assert(old(self).act_runs(w).contains(r0));
                            if w == wid {
                                let k0 = choose|k0: int|
                                    0 <= k0 < oldlist.runs@.len() && oldlist.runs@[k0] == r0;
                                assert(newlist.runs@[k0] == r0);
                            }
                        };
                    };
                }
            },
            None => {
                let mut rs: Vec<ActivityRunId> = Vec::new();
                rs.push(rid);
                self.activity_runs.push(ActivityRunList { activity_id: wid, runs: rs });
                proof {
                    let newlist = self.activity_runs@[old_rl.len() as int];
                    assert(self.activity_runs@ == old_rl.push(newlist));
                    assert(newlist.activity_id == wid);
                    assert(newlist.runs@ =~= Seq::<ActivityRunId>::empty().push(rid));
                    assert(newlist.runs@[0] == rid);
                    assert(newlist.runs@.contains(rid));
                    assert forall|w: ActivityId| #[trigger]
                        find_activity_runs(self.activity_runs@, w) == (if find_activity_runs(
                            old_rl,
                            w,
                        ) is Some {
                            find_activity_runs(old_rl, w)
                        } else if w == wid {
                            Some(newlist)
                        } else {
                            None
                        }) by {
                        lemma_actruns_push(old_rl, newlist, w);
                    };
                    assert(old(self).act_runs(wid) =~= Seq::<ActivityRunId>::empty());
                    assert(self.act_runs(wid) == newlist.runs@);
                    lemma_find_none_actruns(old_rl, wid);
                    assert(self.keys_unique()) by {
                        assert(forall|x: int|
                            0 <= x < old_rl.len() ==> (#[trigger] self.activity_runs@[x])
                                == old_rl[x]);
                    };
                    assert(self.run_lists_distinct()) by {
                        assert(forall|x: int|
                            0 <= x < old_rl.len() ==> (#[trigger] self.activity_runs@[x])
                                == old_rl[x]);
                    };
                    assert(self.logs_ok());
                    assert(self.runs_linked()) by {
                        assert forall|i: int, k: int|
                            #![trigger self.activity_events@[i].events@[k]]
                            0 <= i < self.activity_events@.len() && 0 <= k
                                < self.activity_events@[i].events@.len() implies self.act_runs(
                            self.activity_events@[i].events@[k].activity_id,
                        ).contains(self.activity_events@[i].run_id) by {
                            let w = self.activity_events@[i].events@[k].activity_id;
                            let r0 = self.activity_events@[i].run_id;
                            assert(old(self).act_runs(w).contains(r0));
                        };
                    };
                }
            },
        }
    }

    /// Appends `e` to its run's history, which must not be terminal yet;
    /// `e` carries the already assigned stamp.
    fn append_activity_log(&mut self, e: ActivityEvent)
        requires
            old(self).wf(),
            e.created_at >= old(self).last_stamp,
            old(self).act_runs(e.activity_id).contains(e.activity_run_id),
            !has_act_terminal(old(self).act_history(e.activity_run_id)),
        ensures
            final(self).wf(),
            final(self).workflows@ == old(self).workflows@,
            final(self).activities@ == old(self).activities@,
            final(self).activity_runs@ == old(self).activity_runs@,
            final(self).workflow_runs@ == old(self).workflow_runs@,
            final(self).workflow_events@ == old(self).workflow_events@,
            final(self).last_stamp == e.created_at,
            final(self).act_history(e.activity_run_id) == old(self).act_history(e.activity_run_id).push(e),
            forall|r: ActivityRunId|
                r != e.activity_run_id ==> #[trigger] final(self).act_history(r) == old(self).act_history(r),
    {
        let rid = e.activity_run_id;
        let stamp = e.created_at;
        let ghost old_logs = self.activity_events@;
        let ghost ge = e;
        match self.activity_log_index(rid) {
            Some(li) => {
                let ghost oldlog = self.activity_events@[li as int];
                let lg = &mut self.activity_events[li];
                lg.events.push(e);
                self.last_stamp = stamp;
                proof {
                    let newlog = self.activity_events@[li as int];
                    assert(self.activity_events@ == old_logs.update(li as int, newlog));
                    assert(newlog.run_id == rid);
                    assert(newlog.events@ == oldlog.events@.push(ge));
                    assert forall|r: ActivityRunId| #[trigger]
                        find_activity_log(self.activity_events@, r) == (if r == rid {
                            Some(newlog)
                        } else {
                            find_activity_log(old_logs, r)
                        }) by {
                        lemma_actlog_update(old_logs, li as int, newlog, r);
                    };
                    assert(old(self).act_history(rid) == oldlog.events@);
                    assert(self.act_history(rid) == newlog.events@);
                    assert forall|k: int|
                        0 <= k < oldlog.events@.len() implies !act_terminal(
                        (#[trigger] oldlog.events@[k]).event_type,
                    ) by {
                        if act_terminal(oldlog.events@[k].event_type) {
                            assert(has_act_terminal(old(self).act_history(rid)));
                        }
                    };
                    assert(self.keys_unique()) by {
                        assert(forall|x: int|
                            0 <= x < self.activity_events@.len() ==> (
                            #[trigger] self.activity_events@[x]).run_id == old_logs[x].run_id);
                    };
                    assert(self.run_lists_distinct());
                    assert(self.logs_ok()) by {
                        assert(Self::act_log_ok(oldlog, old(self).last_stamp));
                        assert forall|x: int|
                            0 <= x < self.activity_events@.len() implies Self::act_log_ok(
                            #[trigger] self.activity_events@[x],
                            self.last_stamp,
                        ) by {
                            if x != li as int {
                                assert(self.activity_events@[x] == old_logs[x]);
                                assert(Self::act_log_ok(old_logs[x], old(self).last_stamp));
                            } else {
                                assert(forall|k: int|
                                    0 <= k < oldlog.events@.len() ==> (
                                    #[trigger] newlog.events@[k]) == oldlog.events@[k]);
                                assert(newlog.events@[oldlog.events@.len() as int] == ge);
                            }
                        };
                        assert forall|x: int|
                            0 <= x < self.workflow_events@.len() implies Self::wf_log_ok(
                            #[trigger] self.workflow_events@[x],
                            self.last_stamp,
                        ) by {
                            assert(Self::wf_log_ok(self.workflow_events@[x], old(self).last_stamp));
                        };
                    };
                    assert(self.runs_linked()) by {
                        assert forall|i: int, k: int|
                            #![trigger self.activity_events@[i].events@[k]]
                            0 <= i < self.activity_events@.len() && 0 <= k
                                < self.activity_events@[i].events@.len() implies self.act_runs(
                            self.activity_events@[i].events@[k].activity_id,
                        ).contains(self.activity_events@[i].run_id) by {
                            if i == li as int {
                                if k < oldlog.events@.len() {
                                    assert(self.activity_events@[i].events@[k]
                                        == oldlog.events@[k]);
                                    assert(old(self).act_runs(
                                        oldlog.events@[k].activity_id,
                                    ).contains(oldlog.run_id));
                                } else {
                                    assert(self.activity_events@[i].events@[k] == ge);
                                }
                            } else {
                                assert(self.activity_events@[i] == old_logs[i]);
                                assert(old(self).act_runs(
                                    old_logs[i].events@[k].activity_id,
                                ).contains(old_logs[i].run_id));
                            }
                        };
                    };
                }
            },
            None => {
                let mut evs: Vec<ActivityEvent> = Vec::new();
                evs.push(e);
                self.activity_events.push(ActivityLog { run_id: rid, events: evs });
                self.last_stamp = stamp;
                proof {
                    let newlog = self.activity_events@[old_logs.len() as int];
                    assert(self.activity_events@ == old_logs.push(newlog));
                    assert(newlog.run_id == rid);
                    assert(newlog.events@ =~= Seq::<ActivityEvent>::empty().push(ge));
                    assert(newlog.events@[0] == ge);
                    assert forall|r: ActivityRunId| #[trigger]
                        find_activity_log(self.activity_events@, r) == (if find_activity_log(
                            old_logs,
                            r,
                        ) is Some {
                            find_activity_log(old_logs, r)
                        } else if r == rid {
                            Some(newlog)
                        } else {
                            None
                        }) by {
                        lemma_actlog_push(old_logs, newlog, r);
                    };
                    assert(old(self).act_history(rid) =~= Seq::<ActivityEvent>::empty());
                    assert(self.act_history(rid) == newlog.events@);
                    assert(self.act_history(rid) =~= old(self).act_history(rid).push(ge));
                    lemma_find_none_actlog(old_logs, rid);
                    assert(self.keys_unique()) by {
                        assert(forall|x: int|
                            0 <= x < old_logs.len() ==> (#[trigger] self.activity_events@[x])
                                == old_logs[x]);
                    };
                    assert(self.run_lists_distinct());
                    assert(self.logs_ok()) by {
                        assert forall|x: int|
                            0 <= x < self.activity_events@.len() implies Self::act_log_ok(
                            #[trigger] self.activity_events@[x],
                            self.last_stamp,
                        ) by {
                            if x < old_logs.len() {
                                assert(self.activity_events@[x] == old_logs[x]);
                                assert(Self::act_log_ok(old_logs[x], old(self).last_stamp));
                            }
                        };
                        assert forall|x: int|
                            0 <= x < self.workflow_events@.len() implies Self::wf_log_ok(
                            #[trigger] self.workflow_events@[x],
                            self.last_stamp,
                        ) by {
                            assert(Self::wf_log_ok(self.workflow_events@[x], old(self).last_stamp));
                        };
                    };
                    assert(self.runs_linked()) by {
                        assert forall|i: int, k: int|
                            #![trigger self.activity_events@[i].events@[k]]
                            0 <= i < self.activity_events@.len() && 0 <= k
                                < self.activity_events@[i].events@.len() implies self.act_runs(
                            self.activity_events@[i].events@[k].activity_id,
                        ).contains(self.activity_events@[i].run_id) by {
                            if i < old_logs.len() {
                                assert(self.activity_events@[i] == old_logs[i]);
                                assert(old(self).act_runs(
                                    old_logs[i].events@[k].activity_id,
                                ).contains(old_logs[i].run_id));
                            } else {
                                assert(self.activity_events@[i].events@[k] == ge);
                            }
                        };
                    };
                }
            },
        }
    }

    /// Appends `e` to the history of its activity run, creating the run and
    /// listing it in the parent activity's run list when new. The stored
    /// event is stamped monotonically; an append to a run that already
    /// reached a terminal state is ignored, which keeps terminal states
    /// final.
    pub fn add_activity_event(&mut self, e: ActivityEvent)
        requires
            old(self).wf(),
            old(self).populated(),
        ensures
            final(self).wf(),
            final(self).populated(),
            final(self).workflows@ == old(self).workflows@,
            final(self).activities@ == old(self).activities@,
            final(self).workflow_runs@ == old(self).workflow_runs@,
            final(self).workflow_events@ == old(self).workflow_events@,
            has_act_terminal(old(self).act_history(e.activity_run_id)) ==> *final(self) == *old(self),
            !has_act_terminal(old(self).act_history(e.activity_run_id)) ==> ({
                &&& final(self).last_stamp == next_stamp(old(self).last_stamp, e.created_at)
                &&& final(self).act_history(e.activity_run_id) == old(self).act_history(e.activity_run_id).push(
                    stamp_act_event(e, next_stamp(old(self).last_stamp, e.created_at)),
                )
                &&& forall|r: ActivityRunId|
                    r != e.activity_run_id ==> #[trigger] final(self).act_history(r) == old(self).act_history(
                        r,
                    )
                &&& final(self).act_runs(e.activity_id) == (if old(self).act_runs(
                    e.activity_id,
                ).contains(e.activity_run_id) {
                    old(self).act_runs(e.activity_id)
                } else {
                    old(self).act_runs(e.activity_id).push(e.activity_run_id)
                })
                &&& forall|w: ActivityId|
                    w != e.activity_id ==> #[trigger] final(self).act_runs(w) == old(self).act_runs(
                        w,
                    )
            }),
    {
        let rid = e.activity_run_id;
        let wid = e.activity_id;
        match self.activity_log_index(rid) {
            Some(li) => {
                let m = self.activity_events[li].events.len();
                proof {
                    assert(Self::act_log_ok(self.activity_events@[li as int], self.last_stamp));
                }
                let lt = self.activity_events[li].events[m - 1].event_type;
                if lt == ActivityEventType::Succeeded || lt == ActivityEventType::Failed {
                    proof {
                        assert(act_terminal(self.act_history(rid)[m - 1].event_type));
                        assert(has_act_terminal(self.act_history(rid)));
                    }
                    return ;
                }
                proof {
                    assert(!has_act_terminal(self.act_history(rid))) by {
                        if has_act_terminal(self.act_history(rid)) {
                            let k = choose|k: int|
                                0 <= k < self.act_history(rid).len() && act_terminal(
                                    self.act_history(rid)[k].event_type,
                                );
                            assert(k == m - 1);
                        }
                    };
                }
            },
            None => {
                proof {
                    assert(self.act_history(rid) =~= Seq::<ActivityEvent>::empty());
                }
            },
        }
        let stamp: i64 = if e.created_at > self.last_stamp {
            e.created_at
        } else if self.last_stamp < i64::MAX {
            self.last_stamp + 1
        } else {
            self.last_stamp
        };
        proof {
            assert(stamp == next_stamp(self.last_stamp, e.created_at));
            assert(stamp >= self.last_stamp);
        }
        self.link_activity_run(wid, rid);
        let ghost mid = *self;
        let e2 = ActivityEvent {
            activity_id: e.activity_id,
            activity_run_id: e.activity_run_id,
            workflow_run_id: e.workflow_run_id,
            event_type: e.event_type,
            payload: e.payload,
            created_at: stamp,
            attempt_number: e.attempt_number,
            max_attempts: e.max_attempts,
        };
        proof {
            assert(e2 == stamp_act_event(e, next_stamp(old(self).last_stamp, e.created_at)));
        }
        self.append_activity_log(e2);
        proof {
            assert forall|w: ActivityId|
                w != wid implies #[trigger] self.act_runs(w) == old(self).act_runs(w) by {
                assert(mid.act_runs(w) == old(self).act_runs(w));
                assert(self.activity_runs@ == mid.activity_runs@);
            };
            assert(self.populated()) by {
                assert forall|a0: ActivityId, k: int|
                    0 <= k < self.act_runs(a0).len() implies self.act_history(
                    #[trigger] self.act_runs(a0)[k],
                ).len() > 0 by {
                    let r0 = self.act_runs(a0)[k];
                    if r0 == rid {
                        assert(self.act_history(rid).len() > 0);
                    } else {
                        assert(self.act_history(r0) == old(self).act_history(r0));
                        if a0 == wid {
                            if old(self).act_runs(wid).contains(rid) {
                                assert(old(self).act_runs(a0)[k] == r0);
                            } else {
                                assert(k < old(self).act_runs(wid).len());
                                assert(old(self).act_runs(a0)[k] == r0);
                            }
                        } else {
                            assert(self.act_runs(a0) == old(self).act_runs(a0));
                        }
                        assert(old(self).act_history(r0).len() > 0);
                    }
                };
                assert forall|w0: WorkflowId, k: int|
                    0 <= k < self.wf_runs(w0).len() implies self.wf_history(
                    #[trigger] self.wf_runs(w0)[k],
                ).len() > 0 by {
                    assert(self.workflow_runs@ == old(self).workflow_runs@);
                    assert(self.wf_runs(w0) == old(self).wf_runs(w0));
                    assert(self.wf_history(self.wf_runs(w0)[k]) == old(self).wf_history(
                        old(self).wf_runs(w0)[k],
                    ));
                };
            };
        }
    }
}

/// After a push, a run-list lookup resolves as before, or to the new list
/// for its own key.
proof fn lemma_actruns_push(s: Seq<ActivityRunList>, x: ActivityRunList, r: ActivityId)
    ensures
        find_activity_runs(s.push(x), r) == if find_activity_runs(s, r) is Some {
            find_activity_runs(s, r)
        } else if x.activity_id == r {
            Some(x)
        } else {
            None
        },
    decreases s.len(),
{
    assert(s.push(x)[0] == if s.len() == 0 {
        x
    } else {
        s[0]
    });
    if s.len() == 0 {
        assert(s.push(x).drop_first() =~= Seq::<ActivityRunList>::empty());
        if x.activity_id == r {
            assert(find_activity_runs(s.push(x), r) == Some(x));
        } else {
            assert(find_activity_runs(s.push(x).drop_first(), r) is None);
            assert(find_activity_runs(s.push(x), r) is None);
        }
    } else {
        lemma_actruns_push(s.drop_first(), x, r);
        assert(s.push(x).drop_first() =~= s.drop_first().push(x));
        if s[0].activity_id == r {
            assert(find_activity_runs(s, r) == Some(s[0]));
            assert(find_activity_runs(s.push(x), r) == Some(s[0]));
        } else {
            assert(find_activity_runs(s, r) == find_activity_runs(s.drop_first(), r));
            assert(find_activity_runs(s.push(x), r) == find_activity_runs(
                s.drop_first().push(x),
                r,
            ));
        }
    }
}

/// After an update that keeps the key, a run-list lookup resolves as
/// before, or to the new list for that key.
proof fn lemma_actruns_update(s: Seq<ActivityRunList>, i: int, x: ActivityRunList, r: ActivityId)
    requires
        0 <= i < s.len(),
        x.activity_id == s[i].activity_id,
        forall|a: int, b: int| 0 <= a < b < s.len() ==> (#[trigger] s[a]).activity_id != (
        #[trigger] s[b]).activity_id,
    ensures
        find_activity_runs(s.update(i, x), r) == if s[i].activity_id == r {
            Some(x)
        } else {
            find_activity_runs(s, r)
        },
    decreases s.len(),
{
    assert(s.update(i, x)[0] == if i == 0 {
        x
    } else {
        s[0]
    });
    if i == 0 {
        if x.activity_id == r {
            assert(find_activity_runs(s.update(i, x), r) == Some(x));
        } else {
            assert(s.update(0, x).drop_first() =~= s.drop_first());
            assert(find_activity_runs(s.update(i, x), r) == find_activity_runs(
                s.drop_first(),
                r,
            ));
            assert(find_activity_runs(s, r) == find_activity_runs(s.drop_first(), r));
        }
    } else {
        assert(s.update(i, x).drop_first() =~= s.drop_first().update(i - 1, x));
        assert forall|a: int, b: int|
            0 <= a < b < s.drop_first().len() implies (#[trigger] s.drop_first()[a]).activity_id
            != (#[trigger] s.drop_first()[b]).activity_id by {
            assert(s.drop_first()[a] == s[a + 1]);
            assert(s.drop_first()[b] == s[b + 1]);
        };
        assert(s.drop_first()[i - 1] == s[i]);
        lemma_actruns_update(s.drop_first(), i - 1, x, r);
        if s[0].activity_id == r {
            assert(s[0].activity_id != s[i].activity_id);
            assert(find_activity_runs(s, r) == Some(s[0]));
            assert(find_activity_runs(s.update(i, x), r) == Some(s[0]));
        } else {
            assert(find_activity_runs(s, r) == find_activity_runs(s.drop_first(), r));
            assert(find_activity_runs(s.update(i, x), r) == find_activity_runs(
                s.drop_first().update(i - 1, x),
                r,
            ));
        }
    }
}

/// An unresolved run-list key matches no element at all.
proof fn lemma_find_none_actruns(s: Seq<ActivityRunList>, r: ActivityId)
    requires
        find_activity_runs(s, r) is None,
    ensures
        forall|i: int| 0 <= i < s.len() ==> (#[trigger] s[i]).activity_id != r,
    decreases s.len(),
{
    if s.len() > 0 {
        lemma_find_none_actruns(s.drop_first(), r);
        assert forall|i: int| 0 <= i < s.len() implies (#[trigger] s[i]).activity_id != r by {
            if i > 0 {
                assert(s.drop_first()[i - 1] == s[i]);
            }
        };
    }
}

/// After a push, a history lookup resolves as before, or to the new
/// history for its own key.
proof fn lemma_actlog_push(s: Seq<ActivityLog>, x: ActivityLog, r: ActivityRunId)
    ensures
        find_activity_log(s.push(x), r) == if find_activity_log(s, r) is Some {
            find_activity_log(s, r)
        } else if x.run_id == r {
            Some(x)
        } else {
            None
        },
    decreases s.len(),
{
    assert(s.push(x)[0] == if s.len() == 0 {
        x
    } else {
        s[0]
    });
    if s.len() == 0 {
        assert(s.push(x).drop_first() =~= Seq::<ActivityLog>::empty());
        if x.run_id == r {
            assert(find_activity_log(s.push(x), r) == Some(x));
        } else {
            assert(find_activity_log(s.push(x).drop_first(), r) is None);
            assert(find_activity_log(s.push(x), r) is None);
        }
    } else {
        lemma_actlog_push(s.drop_first(), x, r);
        assert(s.push(x).drop_first() =~= s.drop_first().push(x));
        if s[0].run_id == r {
            assert(find_activity_log(s, r) == Some(s[0]));
            assert(find_activity_log(s.push(x), r) == Some(s[0]));
        } else {
            assert(find_activity_log(s, r) == find_activity_log(s.drop_first(), r));
            assert(find_activity_log(s.push(x), r) == find_activity_log(
                s.drop_first().push(x),
                r,
            ));
        }
    }
}

/// After an update that keeps the key, a history lookup resolves as
/// before, or to the new history for that key.
proof fn lemma_actlog_update(s: Seq<ActivityLog>, i: int, x: ActivityLog, r: ActivityRunId)
    requires
        0 <= i < s.len(),
        x.run_id == s[i].run_id,
        forall|a: int, b: int| 0 <= a < b < s.len() ==> (#[trigger] s[a]).run_id != (
        #[trigger] s[b]).run_id,
    ensures
        find_activity_log(s.update(i, x), r) == if s[i].run_id == r {
            Some(x)
        } else {
            find_activity_log(s, r)
        },
    decreases s.len(),
{
    assert(s.update(i, x)[0] == if i == 0 {
        x
    } else {
        s[0]
    });
    if i == 0 {
        if x.run_id == r {
            assert(find_activity_log(s.update(i, x), r) == Some(x));
        } else {
            assert(s.update(0, x).drop_first() =~= s.drop_first());
            assert(find_activity_log(s.update(i, x), r) == find_activity_log(s.drop_first(), r));
            assert(find_activity_log(s, r) == find_activity_log(s.drop_first(), r));
        }
    } else {
        assert(s.update(i, x).drop_first() =~= s.drop_first().update(i - 1, x));
        assert forall|a: int, b: int|
            0 <= a < b < s.drop_first().len() implies (#[trigger] s.drop_first()[a]).run_id != (
        #[trigger] s.drop_first()[b]).run_id by {
            assert(s.drop_first()[a] == s[a + 1]);
            assert(s.drop_first()[b] == s[b + 1]);
        };
        assert(s.drop_first()[i - 1] == s[i]);
        lemma_actlog_update(s.drop_first(), i - 1, x, r);
        if s[0].run_id == r {
            assert(s[0].run_id != s[i].run_id);
            assert(find_activity_log(s, r) == Some(s[0]));
            assert(find_activity_log(s.update(i, x), r) == Some(s[0]));
        } else {
            assert(find_activity_log(s, r) == find_activity_log(s.drop_first(), r));
            assert(find_activity_log(s.update(i, x), r) == find_activity_log(
                s.drop_first().update(i - 1, x),
                r,
            ));
        }
    }
}

/// An unresolved history key matches no element at all.
proof fn lemma_find_none_actlog(s: Seq<ActivityLog>, r: ActivityRunId)
    requires
        find_activity_log(s, r) is None,
    ensures
        forall|i: int| 0 <= i < s.len() ==> (#[trigger] s[i]).run_id != r,
    decreases s.len(),
{
    if s.len() > 0 {
        lemma_find_none_actlog(s.drop_first(), r);
        assert forall|i: int| 0 <= i < s.len() implies (#[trigger] s[i]).run_id != r by {
            if i > 0 {
                assert(s.drop_first()[i - 1] == s[i]);
            }
        };
    }
}

/// Whether `r` occurs in `runs`.
fn act_run_list_contains(runs: &Vec<ActivityRunId>, r: ActivityRunId) -> (res: bool)
    ensures
        res == runs@.contains(r),
{
    let n = runs.len();
    for i in 0..n
        invariant
            n == runs@.len(),
            forall|j: int| 0 <= j < i ==> runs@[j] != r,
    {
        if runs[i] == r {
            proof {
                assert(runs@[i as int] == r);
            }
            return true;
        }
    }
    false
}

/// The first event in `h` of type `t`.
pub open spec fn find_wf_by_type(h: Seq<WorkflowEvent>, t: WorkflowEventType) -> Option<
    WorkflowEvent,
>
    decreases h.len(),
{
    if h.len() == 0 {
        None
    } else if h[0].event_type == t {
        Some(h[0])
    } else {
        find_wf_by_type(h.drop_first(), t)
    }
}

/// The first event in `h` of type `t`.
pub open spec fn find_act_by_type(h: Seq<ActivityEvent>, t: ActivityEventType) -> Option<
    ActivityEvent,
>
    decreases h.len(),
{
    if h.len() == 0 {
        None
    } else if h[0].event_type == t {
        Some(h[0])
    } else {
        find_act_by_type(h.drop_first(), t)
    }
}

/// The first run in `runs` whose latest event is `Pending`, as that event;
/// the scan stops short at a run without a history.
pub open spec fn first_pending_wf_in(db: Db, runs: Seq<WorkflowRunId>) -> Option<WorkflowEvent>
    decreases runs.len(),
{
    if runs.len() == 0 {
        None
    } else {
        let h = db.wf_history(runs[0]);
        if h.len() == 0 {
            None
        } else if h.last().event_type is Pending {
            Some(h.last())
        } else {
            first_pending_wf_in(db, runs.drop_first())
        }
    }
}

/// The first run in `runs` whose latest event is `Pending`, as that event;
/// the scan stops short at a run without a history.
pub open spec fn first_pending_act_in(db: Db, runs: Seq<ActivityRunId>) -> Option<ActivityEvent>
    decreases runs.len(),
{
    if runs.len() == 0 {
        None
    } else {
        let h = db.act_history(runs[0]);
        if h.len() == 0 {
            None
        } else if h.last().event_type is Pending {
            Some(h.last())
        } else {
            first_pending_act_in(db, runs.drop_first())
        }
    }
}

/// The first run in `runs` whose latest event belongs to workflow run
/// `past` and carries payload `input`, as that event; the scan stops short
/// at a run without a history.
pub open spec fn memo_scan(
    db: Db,
    runs: Seq<ActivityRunId>,
    past: WorkflowRunId,
    input: Seq<char>,
) -> Option<ActivityEvent>
    decreases runs.len(),
{
    if runs.len() == 0 {
        None
    } else {
        let h = db.act_history(runs[0]);
        if h.len() == 0 {
            None
        } else if h.last().workflow_run_id == past && h.last().payload@ == input {
            Some(h.last())
        } else {
            memo_scan(db, runs.drop_first(), past, input)
        }
    }
}

impl Db {
    /// The latest event of workflow run `run`, if any.
    pub open spec fn spec_last_wf_event(&self, run: WorkflowRunId) -> Option<WorkflowEvent> {
        if self.wf_history(run).len() == 0 {
            None
        } else {
            Some(self.wf_history(run).last())
        }
    }

    /// The latest event of activity run `run`, if any.
    pub open spec fn spec_last_act_event(&self, run: ActivityRunId) -> Option<ActivityEvent> {
        if self.act_history(run).len() == 0 {
            None
        } else {
            Some(self.act_history(run).last())
        }
    }

    /// The oldest event of workflow run `run`, if any.
    pub open spec fn spec_first_wf_event(&self, run: WorkflowRunId) -> Option<WorkflowEvent> {
        if self.wf_history(run).len() == 0 {
            None
        } else {
            Some(self.wf_history(run)[0])
        }
    }

    /// The terminal outcome of workflow run `run`: its `Succeeded` event if
    /// one exists, else its `Failed` event if one exists.
    pub open spec fn spec_completed_wf(&self, run: WorkflowRunId) -> Option<WorkflowEvent> {
        if find_wf_by_type(self.wf_history(run), WorkflowEventType::Succeeded) is Some {
            find_wf_by_type(self.wf_history(run), WorkflowEventType::Succeeded)
        } else {
            find_wf_by_type(self.wf_history(run), WorkflowEventType::Failed)
        }
    }

    /// The terminal outcome of activity run `run`.
    pub open spec fn spec_completed_act(&self, run: ActivityRunId) -> Option<ActivityEvent> {
        if find_act_by_type(self.act_history(run), ActivityEventType::Succeeded) is Some {
            find_act_by_type(self.act_history(run), ActivityEventType::Succeeded)
        } else {
            find_act_by_type(self.act_history(run), ActivityEventType::Failed)
        }
    }

    /// The dispatchable work of the workflow registered under `name`: the
    /// latest event of its first run still in `Pending`.
    pub open spec fn spec_first_pending_wf(&self, name: Seq<char>) -> Option<WorkflowEvent> {
        match self.spec_workflow_named(name) {
            Some(w) => first_pending_wf_in(*self, self.wf_runs(w.id)),
            None => None,
        }
    }

    /// The dispatchable work of the activity registered under `name`.
    pub open spec fn spec_first_pending_act(&self, name: Seq<char>) -> Option<ActivityEvent> {
        match self.spec_activity_named(name) {
            Some(a) => first_pending_act_in(*self, self.act_runs(a.id)),
            None => None,
        }
    }

    /// The event that lets a rerun short-circuit activity `aid` on `input`:
    /// the latest event of the first run of `aid` recorded under the past
    /// workflow run `past` with payload `input`.
    pub open spec fn spec_memo_hit(
        &self,
        past: WorkflowRunId,
        aid: ActivityId,
        input: Seq<char>,
    ) -> Option<ActivityEvent> {
        memo_scan(*self, self.act_runs(aid), past, input)
    }

    /// The latest event of workflow run `run`: the last of its history,
    /// which the store keeps sorted by stamp.
    pub fn get_last_workflow_run_event(&self, run: WorkflowRunId) -> (r: Option<WorkflowEvent>)
        requires
            self.wf(),
        ensures
            r == self.spec_last_wf_event(run),
            match r {
                Some(e) => forall|k: int|
                    0 <= k < self.wf_history(run).len() ==> (
                    #[trigger] self.wf_history(run)[k]).created_at <= e.created_at,
                None => self.wf_history(run).len() == 0,
            },
    {
        match self.workflow_log_index(run) {
            Some(li) => {
                proof {
                    assert(Self::wf_log_ok(self.workflow_events@[li as int], self.last_stamp));
                }
                let m = self.workflow_events[li].events.len();
                Some(self.workflow_events[li].events[m - 1].clone())
            },
            None => None,
        }
    }

    /// The latest event of activity run `run`.
    pub fn get_last_activity_run_event(&self, run: ActivityRunId) -> (r: Option<ActivityEvent>)
        requires
            self.wf(),
        ensures
            r == self.spec_last_act_event(run),
            match r {
                Some(e) => forall|k: int|
                    0 <= k < self.act_history(run).len() ==> (
                    #[trigger] self.act_history(run)[k]).created_at <= e.created_at,
                None => self.act_history(run).len() == 0,
            },
    {
        match self.activity_log_index(run) {
            Some(li) => {
                proof {
                    assert(Self::act_log_ok(self.activity_events@[li as int], self.last_stamp));
                }
                let m = self.activity_events[li].events.len();
                Some(self.activity_events[li].events[m - 1].clone())
            },
            None => None,
        }
    }

    /// The oldest event of workflow run `run`, which carries the run's
    /// original input; used to recover it for a rerun.
    pub fn get_first_workflow_run_event(&self, run: WorkflowRunId) -> (r: Option<WorkflowEvent>)
        requires
            self.wf(),
        ensures
            r == self.spec_first_wf_event(run),
            match r {
                Some(e) => forall|k: int|
                    0 <= k < self.wf_history(run).len() ==> e.created_at <= (
                    #[trigger] self.wf_history(run)[k]).created_at,
                None => self.wf_history(run).len() == 0,
            },
    {
        match self.workflow_log_index(run) {
            Some(li) => {
                proof {
                    assert(Self::wf_log_ok(self.workflow_events@[li as int], self.last_stamp));
                }
                Some(self.workflow_events[li].events[0].clone())
            },
            None => None,
        }
    }

    /// The run's `Succeeded` event if present, else its `Failed` event,
    /// else nothing. Under the store invariant this is exactly the terminal
    /// event of the run, so it exists if and only if the run is terminal.
    pub fn get_completed_workflow(&self, run: WorkflowRunId) -> (r: Option<WorkflowEvent>)
        requires
            self.wf(),
        ensures
            r == self.spec_completed_wf(run),
            r is Some <==> has_wf_terminal(self.wf_history(run)),
            match r {
                Some(e) => wf_terminal(e.event_type) && self.wf_history(run).contains(e),
                None => true,
            },
    {
        let ghost h = self.wf_history(run);
        let s = self.find_workflow_event_of_type(run, WorkflowEventType::Succeeded);
        proof {
            lemma_find_wf_by_type(h, WorkflowEventType::Succeeded);
        }
        if s.is_some() {
            proof {
                let e = find_wf_by_type(h, WorkflowEventType::Succeeded).unwrap();
                assert(wf_terminal(e.event_type) && h.contains(e));
                let k = choose|k: int| 0 <= k < h.len() && h[k] == e;
                assert(has_wf_terminal(h));
            }
            return s;
        }
        let f = self.find_workflow_event_of_type(run, WorkflowEventType::Failed);
        proof {
            lemma_find_wf_by_type(h, WorkflowEventType::Failed);
            match find_wf_by_type(h, WorkflowEventType::Failed) {
                Some(e) => {
                    assert(wf_terminal(e.event_type) && h.contains(e));
                    let k = choose|k: int| 0 <= k < h.len() && h[k] == e;
                    assert(has_wf_terminal(h));
                },
                None => {
                    assert(!has_wf_terminal(h)) by {
                        if has_wf_terminal(h) {
                            let k = choose|k: int|
                                0 <= k < h.len() && wf_terminal(h[k].event_type);
                            assert(h[k].event_type != WorkflowEventType::Succeeded);
                            assert(h[k].event_type != WorkflowEventType::Failed);
                        }
                    };
                },
            }
        }
        f
    }

    /// The run's `Succeeded` event if present, else its `Failed` event,
    /// else nothing.
    pub fn get_completed_activity(&self, run: ActivityRunId) -> (r: Option<ActivityEvent>)
        requires
            self.wf(),
        ensures
            r == self.spec_completed_act(run),
            r is Some <==> has_act_terminal(self.act_history(run)),
            match r {
                Some(e) => act_terminal(e.event_type) && self.act_history(run).contains(e),
                None => true,
            },
    {
        let ghost h = self.act_history(run);
        let s = self.find_activity_event_of_type(run, ActivityEventType::Succeeded);
        proof {
            lemma_find_act_by_type(h, ActivityEventType::Succeeded);
        }
        if s.is_some() {
            proof {
                let e = find_act_by_type(h, ActivityEventType::Succeeded).unwrap();
                assert(act_terminal(e.event_type) && h.contains(e));
                let k = choose|k: int| 0 <= k < h.len() && h[k] == e;
                assert(has_act_terminal(h));
            }
            return s;
        }
        let f = self.find_activity_event_of_type(run, ActivityEventType::Failed);
        proof {
            lemma_find_act_by_type(h, ActivityEventType::Failed);
            match find_act_by_type(h, ActivityEventType::Failed) {
                Some(e) => {
                    assert(act_terminal(e.event_type) && h.contains(e));
                    let k = choose|k: int| 0 <= k < h.len() && h[k] == e;
                    assert(has_act_terminal(h));
                },
                None => {
                    assert(!has_act_terminal(h)) by {
                        if has_act_terminal(h) {
                            let k = choose|k: int|
                                0 <= k < h.len() && act_terminal(h[k].event_type);
                            assert(h[k].event_type != ActivityEventType::Succeeded);
                            assert(h[k].event_type != ActivityEventType::Failed);
                        }
                    };
                },
            }
        }
        f
    }

    /// The first event of type `t` in the history of `run`.
    fn find_workflow_event_of_type(&self, run: WorkflowRunId, t: WorkflowEventType) -> (r: Option<
        WorkflowEvent,
    >)
        ensures
            r == find_wf_by_type(self.wf_history(run), t),
    {
        match self.workflow_log_index(run) {
            Some(li) => {
                let ghost h = self.wf_history(run);
                let n = self.workflow_events[li].events.len();
                proof {
                    assert(h.skip(0) =~= h);
                }
                for k in 0..n
                    invariant
                        li < self.workflow_events@.len(),
                        h == self.wf_history(run),
                        h == self.workflow_events@[li as int].events@,
                        n == h.len(),
                        find_wf_by_type(h, t) == find_wf_by_type(h.skip(k as int), t),
                {
                    proof {
                        assert(h.skip(k as int)[0] == h[k as int]);
                    }
                    if self.workflow_events[li].events[k].event_type == t {
                        return Some(self.workflow_events[li].events[k].clone());
                    }
                    proof {
                        assert(h.skip(k as int).drop_first() =~= h.skip(k as int + 1));
                    }
                }
                None
            },
            None => {
                proof {
                    assert(self.wf_history(run) =~= Seq::<WorkflowEvent>::empty());
                }
                None
            },
        }
    }

    /// The first event of type `t` in the history of `run`.
    fn find_activity_event_of_type(&self, run: ActivityRunId, t: ActivityEventType) -> (r: Option<
        ActivityEvent,
    >)
        ensures
            r == find_act_by_type(self.act_history(run), t),
    {
        match self.activity_log_index(run) {
            Some(li) => {
                let ghost h = self.act_history(run);
                let n = self.activity_events[li].events.len();
                proof {
                    assert(h.skip(0) =~= h);
                }
                for k in 0..n
                    invariant
                        li < self.activity_events@.len(),
                        h == self.act_history(run),
                        h == self.activity_events@[li as int].events@,
                        n == h.len(),
                        find_act_by_type(h, t) == find_act_by_type(h.skip(k as int), t),
                {
                    proof {
                        assert(h.skip(k as int)[0] == h[k as int]);
                    }
                    if self.activity_events[li].events[k].event_type == t {
                        return Some(self.activity_events[li].events[k].clone());
                    }
                    proof {
                        assert(h.skip(k as int).drop_first() =~= h.skip(k as int + 1));
                    }
                }
                None
            },
            None => {
                proof {
                    assert(self.act_history(run) =~= Seq::<ActivityEvent>::empty());
                }
                None
            },
        }
    }

    /// The latest event of the first run of the workflow registered under
    /// `name` that still waits in `Pending`.
    pub fn get_first_pending_workflow(&self, name: WorkflowName) -> (r: Option<WorkflowEvent>)
        requires
            self.wf(),
        ensures
            r == self.spec_first_pending_wf(name@),
    {
        let wid = match self.get_workflow_by_name(&name) {
            Some(w) => w.id,
            None => {
                return None;
            },
        };
        let ri = match self.workflow_runs_index(wid) {
            Some(ri) => ri,
            None => {
                proof {
                    assert(self.wf_runs(wid) =~= Seq::<WorkflowRunId>::empty());
                }
                return None;
            },
        };
        let ghost runs = self.wf_runs(wid);
        let n = self.workflow_runs[ri].runs.len();
        proof {
            assert(runs.skip(0) =~= runs);
        }
        for i in 0..n
            invariant
                self.wf(),
                ri < self.workflow_runs@.len(),
                runs == self.wf_runs(wid),
                runs == self.workflow_runs@[ri as int].runs@,
                n == runs.len(),
                self.spec_workflow_named(name@) matches Some(w0) && w0.id == wid,
                first_pending_wf_in(*self, runs) == first_pending_wf_in(
                    *self,
                    runs.skip(i as int),
                ),
        {
            proof {
                assert(runs.skip(i as int)[0] == runs[i as int]);
            }
            let run = self.workflow_runs[ri].runs[i];
            let last = self.get_last_workflow_run_event(run);
            match last {
                None => {
                    return None;
                },
                Some(e) => {
                    if e.event_type == WorkflowEventType::Pending {
                        return Some(e);
                    }
                },
            }
            proof {
                assert(runs.skip(i as int).drop_first() =~= runs.skip(i as int + 1));
            }
        }
        None
    }

    /// The latest event of the first run of the activity registered under
    /// `name` that still waits in `Pending`.
    pub fn get_first_pending_activity(&self, name: ActivityName) -> (r: Option<ActivityEvent>)
        requires
            self.wf(),
        ensures
            r == self.spec_first_pending_act(name@),
    {
        let aid = match self.get_activity_by_name(&name) {
            Some(a) => a.id,
            None => {
                return None;
            },
        };
        let ri = match self.activity_runs_index(aid) {
            Some(ri) => ri,
            None => {
                proof {
                    assert(self.act_runs(aid) =~= Seq::<ActivityRunId>::empty());
                }
                return None;
            },
        };
        let ghost runs = self.act_runs(aid);
        let n = self.activity_runs[ri].runs.len();
        proof {
            assert(runs.skip(0) =~= runs);
        }
        for i in 0..n
            invariant
                self.wf(),
                ri < self.activity_runs@.len(),
                runs == self.act_runs(aid),
                runs == self.activity_runs@[ri as int].runs@,
                n == runs.len(),
                self.spec_activity_named(name@) matches Some(a0) && a0.id == aid,
                first_pending_act_in(*self, runs) == first_pending_act_in(
                    *self,
                    runs.skip(i as int),
                ),
        {
            proof {
                assert(runs.skip(i as int)[0] == runs[i as int]);
            }
            let run = self.activity_runs[ri].runs[i];
            let last = self.get_last_activity_run_event(run);
            match last {
                None => {
                    return None;
                },
                Some(e) => {
                    if e.event_type == ActivityEventType::Pending {
                        return Some(e);
                    }
                },
            }
            proof {
                assert(runs.skip(i as int).drop_first() =~= runs.skip(i as int + 1));
            }
        }
        None
    }

    /// The rerun short-circuit lookup: the latest event of the first run of
    /// activity `aid` that was recorded under the past workflow run `past`
    /// with payload `input`.
    pub fn get_success_activity_event_for_run(
        &self,
        past: WorkflowRunId,
        aid: ActivityId,
        input: &str,
    ) -> (r: Option<ActivityEvent>)
        requires
            self.wf(),
        ensures
            r == self.spec_memo_hit(past, aid, input@),
    {
        let ri = match self.activity_runs_index(aid) {
            Some(ri) => ri,
            None => {
                proof {
                    assert(self.act_runs(aid) =~= Seq::<ActivityRunId>::empty());
                }
                return None;
            },
        };
        let ghost runs = self.act_runs(aid);
        let n = self.activity_runs[ri].runs.len();
        proof {
            assert(runs.skip(0) =~= runs);
        }
        for i in 0..n
            invariant
                self.wf(),
                ri < self.activity_runs@.len(),
                runs == self.act_runs(aid),
                runs == self.activity_runs@[ri as int].runs@,
                n == runs.len(),
                memo_scan(*self, runs, past, input@) == memo_scan(
                    *self,
                    runs.skip(i as int),
                    past,
                    input@,
                ),
        {
            proof {
                assert(runs.skip(i as int)[0] == runs[i as int]);
            }
            let run = self.activity_runs[ri].runs[i];
            let last = self.get_last_activity_run_event(run);
            match last {
                None => {
                    return None;
                },
                Some(e) => {
                    if e.workflow_run_id == past && str_eq(e.payload.as_str(), input) {
                        return Some(e);
                    }
                },
            }
            proof {
                assert(runs.skip(i as int).drop_first() =~= runs.skip(i as int + 1));
            }
        }
        None
    }
}

/// What a type lookup in a history yields: an event of that type that the
/// history holds, or the assurance that no position holds one.
proof fn lemma_find_wf_by_type(h: Seq<WorkflowEvent>, t: WorkflowEventType)
    ensures
        match find_wf_by_type(h, t) {
            Some(e) => e.event_type == t && h.contains(e),
            None => forall|k: int| 0 <= k < h.len() ==> (#[trigger] h[k]).event_type != t,
        },
    decreases h.len(),
{
    if h.len() > 0 {
        lemma_find_wf_by_type(h.drop_first(), t);
        if h[0].event_type == t {
        } else {
            match find_wf_by_type(h.drop_first(), t) {
                Some(e) => {
                    let k = choose|k: int|
                        0 <= k < h.drop_first().len() && h.drop_first()[k] == e;
                    assert(h[k + 1] == e);
                    assert(h.contains(e));
                },
                None => {
                    assert forall|k: int| 0 <= k < h.len() implies (#[trigger] h[k]).event_type
                        != t by {
                        if k > 0 {
                            assert(h.drop_first()[k - 1] == h[k]);
                        }
                    };
                },
            }
        }
    }
}

/// What a type lookup in a history yields.
proof fn lemma_find_act_by_type(h: Seq<ActivityEvent>, t: ActivityEventType)
    ensures
        match find_act_by_type(h, t) {
            Some(e) => e.event_type == t && h.contains(e),
            None => forall|k: int| 0 <= k < h.len() ==> (#[trigger] h[k]).event_type != t,
        },
    decreases h.len(),
{
    if h.len() > 0 {
        lemma_find_act_by_type(h.drop_first(), t);
        if h[0].event_type == t {
        } else {
            match find_act_by_type(h.drop_first(), t) {
                Some(e) => {
                    let k = choose|k: int|
                        0 <= k < h.drop_first().len() && h.drop_first()[k] == e;
                    assert(h[k + 1] == e);
                    assert(h.contains(e));
                },
                None => {
                    assert forall|k: int| 0 <= k < h.len() implies (#[trigger] h[k]).event_type
                        != t by {
                        if k > 0 {
                            assert(h.drop_first()[k - 1] == h[k]);
                        }
                    };
                },
            }
        }
    }
}

/// A resolved history lookup names an element of the table, keyed by the
/// run that was looked up.
proof fn lemma_wflog_find_index(s: Seq<WorkflowLog>, r: WorkflowRunId)
    requires
        find_workflow_log(s, r) is Some,
    ensures
        find_workflow_log(s, r)->Some_0.run_id == r,
        exists|i: int| 0 <= i < s.len() && s[i] == find_workflow_log(s, r)->Some_0,
    decreases s.len(),
{
    if s[0].run_id == r {
        assert(s[0] == find_workflow_log(s, r)->Some_0);
    } else {
        lemma_wflog_find_index(s.drop_first(), r);
        let i0 = choose|i0: int|
            0 <= i0 < s.drop_first().len() && s.drop_first()[i0] == find_workflow_log(
                s.drop_first(),
                r,
            )->Some_0;
        assert(s[i0 + 1] == s.drop_first()[i0]);
    }
}

/// A resolved history lookup names an element of the table.
proof fn lemma_actlog_find_index(s: Seq<ActivityLog>, r: ActivityRunId)
    requires
        find_activity_log(s, r) is Some,
    ensures
        find_activity_log(s, r)->Some_0.run_id == r,
        exists|i: int| 0 <= i < s.len() && s[i] == find_activity_log(s, r)->Some_0,
    decreases s.len(),
{
    if s[0].run_id == r {
        assert(s[0] == find_activity_log(s, r)->Some_0);
    } else {
        lemma_actlog_find_index(s.drop_first(), r);
        let i0 = choose|i0: int|
            0 <= i0 < s.drop_first().len() && s.drop_first()[i0] == find_activity_log(
                s.drop_first(),
                r,
            )->Some_0;
        assert(s[i0 + 1] == s.drop_first()[i0]);
    }
}

/// A resolved run-list lookup names an element of the table.
proof fn lemma_wfruns_find_index(s: Seq<WorkflowRunList>, w: WorkflowId)
    requires
        find_workflow_runs(s, w) is Some,
    ensures
        find_workflow_runs(s, w)->Some_0.workflow_id == w,
        exists|i: int| 0 <= i < s.len() && s[i] == find_workflow_runs(s, w)->Some_0,
    decreases s.len(),
{
    if s[0].workflow_id == w {
        assert(s[0] == find_workflow_runs(s, w)->Some_0);
    } else {
        lemma_wfruns_find_index(s.drop_first(), w);
        let i0 = choose|i0: int|
            0 <= i0 < s.drop_first().len() && s.drop_first()[i0] == find_workflow_runs(
                s.drop_first(),
                w,
            )->Some_0;
        assert(s[i0 + 1] == s.drop_first()[i0]);
    }
}

/// A resolved run-list lookup names an element of the table.
proof fn lemma_actruns_find_index(s: Seq<ActivityRunList>, a: ActivityId)
    requires
        find_activity_runs(s, a) is Some,
    ensures
        find_activity_runs(s, a)->Some_0.activity_id == a,
        exists|i: int| 0 <= i < s.len() && s[i] == find_activity_runs(s, a)->Some_0,
    decreases s.len(),
{
    if s[0].activity_id == a {
        assert(s[0] == find_activity_runs(s, a)->Some_0);
    } else {
        lemma_actruns_find_index(s.drop_first(), a);
        let i0 = choose|i0: int|
            0 <= i0 < s.drop_first().len() && s.drop_first()[i0] == find_activity_runs(
                s.drop_first(),
                a,
            )->Some_0;
        assert(s[i0 + 1] == s.drop_first()[i0]);
    }
}

/// The per-history guarantees of the store invariant, at the level of
/// [`Db::wf_history`]: every event carries the run it is filed under, a
/// terminal event is the last, and stamps never decrease.
pub proof fn lemma_wf_history_facts(db: Db, run: WorkflowRunId)
    requires
        db.wf(),
    ensures
        forall|k: int|
            0 <= k < db.wf_history(run).len() ==> (#[trigger] db.wf_history(run)[k]).run_id
                == run,
        forall|k: int|
            0 <= k < db.wf_history(run).len() && wf_terminal(
                (#[trigger] db.wf_history(run)[k]).event_type,
            ) ==> k == db.wf_history(run).len() - 1,
        forall|k1: int, k2: int|
            #![trigger db.wf_history(run)[k1].created_at, db.wf_history(run)[k2].created_at]
            0 <= k1 <= k2 < db.wf_history(run).len() ==> db.wf_history(run)[k1].created_at
                <= db.wf_history(run)[k2].created_at,
{
    if db.wf_history(run).len() > 0 {
        lemma_wflog_find_index(db.workflow_events@, run);
        let i = choose|i: int|
            0 <= i < db.workflow_events@.len() && db.workflow_events@[i] == find_workflow_log(
                db.workflow_events@,
                run,
            )->Some_0;
        assert(Db::wf_log_ok(db.workflow_events@[i], db.last_stamp));
    }
}

/// The per-history guarantees of the store invariant, for activity runs.
pub proof fn lemma_act_history_facts(db: Db, run: ActivityRunId)
    requires
        db.wf(),
    ensures
        forall|k: int|
            0 <= k < db.act_history(run).len() ==> (
            #[trigger] db.act_history(run)[k]).activity_run_id == run,
        forall|k: int|
            0 <= k < db.act_history(run).len() && act_terminal(
                (#[trigger] db.act_history(run)[k]).event_type,
            ) ==> k == db.act_history(run).len() - 1,
        forall|k1: int, k2: int|
            #![trigger db.act_history(run)[k1].created_at, db.act_history(run)[k2].created_at]
            0 <= k1 <= k2 < db.act_history(run).len() ==> db.act_history(run)[k1].created_at
                <= db.act_history(run)[k2].created_at,
{
    if db.act_history(run).len() > 0 {
        lemma_actlog_find_index(db.activity_events@, run);
        let i = choose|i: int|
            0 <= i < db.activity_events@.len() && db.activity_events@[i] == find_activity_log(
                db.activity_events@,
                run,
            )->Some_0;
        assert(Db::act_log_ok(db.activity_events@[i], db.last_stamp));
    }
}

/// Every workflow event's run id is listed in the run list of the workflow
/// named by the event, exactly once.
pub proof fn lemma_wf_run_listed_exactly_once(db: Db, run: WorkflowRunId, k: int)
    requires
        db.wf(),
        0 <= k < db.wf_history(run).len(),
    ensures
        ({
            let e = db.wf_history(run)[k];
            &&& e.run_id == run
            &&& exists|i: int|
                0 <= i < db.wf_runs(e.workflow_id).len() && db.wf_runs(e.workflow_id)[i] == run
            &&& forall|i: int, j: int|
                #![trigger db.wf_runs(e.workflow_id)[i], db.wf_runs(e.workflow_id)[j]]
                0 <= i < db.wf_runs(e.workflow_id).len() && 0 <= j < db.wf_runs(
                    e.workflow_id,
                ).len() && db.wf_runs(e.workflow_id)[i] == run && db.wf_runs(e.workflow_id)[j]
                    == run ==> i == j
        }),
{
    lemma_wf_history_facts(db, run);
    let e = db.wf_history(run)[k];
    lemma_wflog_find_index(db.workflow_events@, run);
    let li = choose|li: int|
        0 <= li < db.workflow_events@.len() && db.workflow_events@[li] == find_workflow_log(
            db.workflow_events@,
            run,
        )->Some_0;
    assert(db.workflow_events@[li].events@[k] == e);
    assert(db.wf_runs(e.workflow_id).contains(run));
    if db.wf_runs(e.workflow_id).len() > 0 {
        lemma_wfruns_find_index(db.workflow_runs@, e.workflow_id);
        let ri = choose|ri: int|
            0 <= ri < db.workflow_runs@.len() && db.workflow_runs@[ri] == find_workflow_runs(
                db.workflow_runs@,
                e.workflow_id,
            )->Some_0;
        assert(db.wf_runs(e.workflow_id) == db.workflow_runs@[ri].runs@);
        assert forall|i: int, j: int|
            #![trigger db.wf_runs(e.workflow_id)[i], db.wf_runs(e.workflow_id)[j]]
            0 <= i < db.wf_runs(e.workflow_id).len() && 0 <= j < db.wf_runs(e.workflow_id).len()
                && db.wf_runs(e.workflow_id)[i] == run && db.wf_runs(e.workflow_id)[j]
                == run implies i == j by {
            assert(db.workflow_runs@[ri].runs@[i] == db.wf_runs(e.workflow_id)[i]);
            assert(db.workflow_runs@[ri].runs@[j] == db.wf_runs(e.workflow_id)[j]);
        };
    }
}

/// Every activity event's run id is listed in the run list of the activity
/// named by the event, exactly once.
pub proof fn lemma_act_run_listed_exactly_once(db: Db, run: ActivityRunId, k: int)
    requires
        db.wf(),
        0 <= k < db.act_history(run).len(),
    ensures
        ({
            let e = db.act_history(run)[k];
            &&& e.activity_run_id == run
            &&& exists|i: int|
                0 <= i < db.act_runs(e.activity_id).len() && db.act_runs(e.activity_id)[i] == run
            &&& forall|i: int, j: int|
                #![trigger db.act_runs(e.activity_id)[i], db.act_runs(e.activity_id)[j]]
                0 <= i < db.act_runs(e.activity_id).len() && 0 <= j < db.act_runs(
                    e.activity_id,
                ).len() && db.act_runs(e.activity_id)[i] == run && db.act_runs(e.activity_id)[j]
                    == run ==> i == j
        }),
{
    lemma_act_history_facts(db, run);
    let e = db.act_history(run)[k];
    lemma_actlog_find_index(db.activity_events@, run);
    let li = choose|li: int|
        0 <= li < db.activity_events@.len() && db.activity_events@[li] == find_activity_log(
            db.activity_events@,
            run,
        )->Some_0;
    assert(db.activity_events@[li].events@[k] == e);
    assert(db.act_runs(e.activity_id).contains(run));
    if db.act_runs(e.activity_id).len() > 0 {
        lemma_actruns_find_index(db.activity_runs@, e.activity_id);
        let ri = choose|ri: int|
            0 <= ri < db.activity_runs@.len() && db.activity_runs@[ri] == find_activity_runs(
                db.activity_runs@,
                e.activity_id,
            )->Some_0;
        assert(db.act_runs(e.activity_id) == db.activity_runs@[ri].runs@);
        assert forall|i: int, j: int|
            #![trigger db.act_runs(e.activity_id)[i], db.act_runs(e.activity_id)[j]]
            0 <= i < db.act_runs(e.activity_id).len() && 0 <= j < db.act_runs(e.activity_id).len()
                && db.act_runs(e.activity_id)[i] == run && db.act_runs(e.activity_id)[j]
                == run implies i == j by {
            assert(db.activity_runs@[ri].runs@[i] == db.act_runs(e.activity_id)[i]);
            assert(db.activity_runs@[ri].runs@[j] == db.act_runs(e.activity_id)[j]);
        };
    }
}

/// The latest event of a non-empty history is in exactly one of the four
/// lifecycle states.
pub proof fn lemma_wf_latest_classified(db: Db, run: WorkflowRunId)
    requires
        db.wf(),
        db.wf_history(run).len() > 0,
    ensures
        ({
            let t = db.wf_history(run).last().event_type;
            &&& (t is Pending || t is Started || t is Succeeded || t is Failed)
            &&& t is Pending ==> !(t is Started) && !(t is Succeeded) && !(t is Failed)
            &&& t is Started ==> !(t is Succeeded) && !(t is Failed)
            &&& t is Succeeded ==> !(t is Failed)
        }),
{
}

/// The latest event of a non-empty activity history is in exactly one of
/// the four lifecycle states.
pub proof fn lemma_act_latest_classified(db: Db, run: ActivityRunId)
    requires
        db.wf(),
        db.act_history(run).len() > 0,
    ensures
        ({
            let t = db.act_history(run).last().event_type;
            &&& (t is Pending || t is Started || t is Succeeded || t is Failed)
            &&& t is Pending ==> !(t is Started) && !(t is Succeeded) && !(t is Failed)
            &&& t is Started ==> !(t is Succeeded) && !(t is Failed)
            &&& t is Succeeded ==> !(t is Failed)
        }),
{
}

/// Terminal monotonicity: once a workflow run holds a terminal event, no
/// event follows it, so the run never shows `Pending` or `Started` again.
pub proof fn lemma_wf_terminal_monotonic(db: Db, run: WorkflowRunId, k1: int, k2: int)
    requires
        db.wf(),
        0 <= k1 <= k2 < db.wf_history(run).len(),
        wf_terminal(db.wf_history(run)[k1].event_type),
    ensures
        k1 == db.wf_history(run).len() - 1,
        k2 == k1,
{
    lemma_wf_history_facts(db, run);
}

/// Terminal monotonicity for activity runs.
pub proof fn lemma_act_terminal_monotonic(db: Db, run: ActivityRunId, k1: int, k2: int)
    requires
        db.wf(),
        0 <= k1 <= k2 < db.act_history(run).len(),
        act_terminal(db.act_history(run)[k1].event_type),
    ensures
        k1 == db.act_history(run).len() - 1,
        k2 == k1,
{
    lemma_act_history_facts(db, run);
}

/// Terminal exclusivity: a workflow run's history holds at most one
/// terminal event, so at most one `Succeeded`, at most one `Failed`, and
/// never both.
pub proof fn lemma_wf_terminal_exclusive(db: Db, run: WorkflowRunId, k1: int, k2: int)
    requires
        db.wf(),
        0 <= k1 < db.wf_history(run).len(),
        0 <= k2 < db.wf_history(run).len(),
        wf_terminal(db.wf_history(run)[k1].event_type),
        wf_terminal(db.wf_history(run)[k2].event_type),
    ensures
        k1 == k2,
{
    lemma_wf_history_facts(db, run);
}

/// Terminal exclusivity for activity runs.
pub proof fn lemma_act_terminal_exclusive(db: Db, run: ActivityRunId, k1: int, k2: int)
    requires
        db.wf(),
        0 <= k1 < db.act_history(run).len(),
        0 <= k2 < db.act_history(run).len(),
        act_terminal(db.act_history(run)[k1].event_type),
        act_terminal(db.act_history(run)[k2].event_type),
    ensures
        k1 == k2,
{
    lemma_act_history_facts(db, run);
}

/// What a pending-workflow scan yields: the latest event of a listed run,
/// still `Pending`, of a run with no terminal event.
pub proof fn lemma_first_pending_wf_props(db: Db, runs: Seq<WorkflowRunId>)
    requires
        db.wf(),
    ensures
        match first_pending_wf_in(db, runs) {
            Some(p) => db.wf_history(p.run_id).len() > 0 && p == db.wf_history(p.run_id).last()
                && p.event_type is Pending && !has_wf_terminal(db.wf_history(p.run_id))
                && runs.contains(p.run_id),
            None => true,
        },
    decreases runs.len(),
{
    if runs.len() > 0 {
        let h = db.wf_history(runs[0]);
        if h.len() == 0 {
        } else if h.last().event_type is Pending {
            let p = h.last();
            lemma_wf_history_facts(db, runs[0]);
            assert(h[h.len() - 1] == p);
            assert(p.run_id == runs[0]);
            assert(!has_wf_terminal(h)) by {
                if has_wf_terminal(h) {
                    let k = choose|k: int| 0 <= k < h.len() && wf_terminal(h[k].event_type);
                    assert(k == h.len() - 1);
                }
            };
            assert(runs.contains(p.run_id)) by {
                assert(runs[0] == p.run_id);
            };
        } else {
            lemma_first_pending_wf_props(db, runs.drop_first());
            match first_pending_wf_in(db, runs.drop_first()) {
                Some(p) => {
                    let i0 = choose|i0: int|
                        0 <= i0 < runs.drop_first().len() && runs.drop_first()[i0] == p.run_id;
                    assert(runs[i0 + 1] == p.run_id);
                },
                None => {},
            }
        }
    }
}

/// What a pending-activity scan yields.
pub proof fn lemma_first_pending_act_props(db: Db, runs: Seq<ActivityRunId>)
    requires
        db.wf(),
    ensures
        match first_pending_act_in(db, runs) {
            Some(p) => db.act_history(p.activity_run_id).len() > 0 && p == db.act_history(
                p.activity_run_id,
            ).last() && p.event_type is Pending && !has_act_terminal(
                db.act_history(p.activity_run_id),
            ) && runs.contains(p.activity_run_id),
            None => true,
        },
    decreases runs.len(),
{
    if runs.len() > 0 {
        let h = db.act_history(runs[0]);
        if h.len() == 0 {
        } else if h.last().event_type is Pending {
            let p = h.last();
            lemma_act_history_facts(db, runs[0]);
            assert(h[h.len() - 1] == p);
            assert(p.activity_run_id == runs[0]);
            assert(!has_act_terminal(h)) by {
                if has_act_terminal(h) {
                    let k = choose|k: int| 0 <= k < h.len() && act_terminal(h[k].event_type);
                    assert(k == h.len() - 1);
                }
            };
            assert(runs.contains(p.activity_run_id)) by {
                assert(runs[0] == p.activity_run_id);
            };
        } else {
            lemma_first_pending_act_props(db, runs.drop_first());
            match first_pending_act_in(db, runs.drop_first()) {
                Some(p) => {
                    let i0 = choose|i0: int|
                        0 <= i0 < runs.drop_first().len() && runs.drop_first()[i0]
                            == p.activity_run_id;
                    assert(runs[i0 + 1] == p.activity_run_id);
                },
                None => {},
            }
        }
    }
}

/// What a memoization scan yields: the latest event of a listed run of the
/// activity, recorded under the past workflow run with the given payload.
pub proof fn lemma_memo_scan_props(
    db: Db,
    runs: Seq<ActivityRunId>,
    past: WorkflowRunId,
    input: Seq<char>,
)
    requires
        db.wf(),
    ensures
        match memo_scan(db, runs, past, input) {
            Some(m) => db.act_history(m.activity_run_id).len() > 0 && m == db.act_history(
                m.activity_run_id,
            ).last() && m.workflow_run_id == past && m.payload@ == input && runs.contains(
                m.activity_run_id,
            ),
            None => true,
        },
    decreases runs.len(),
{
    if runs.len() > 0 {
        let h = db.act_history(runs[0]);
        if h.len() == 0 {
        } else if h.last().workflow_run_id == past && h.last().payload@ == input {
            let m = h.last();
            lemma_act_history_facts(db, runs[0]);
            assert(h[h.len() - 1] == m);
            assert(m.activity_run_id == runs[0]);
            assert(runs.contains(m.activity_run_id)) by {
                assert(runs[0] == m.activity_run_id);
            };
        } else {
            lemma_memo_scan_props(db, runs.drop_first(), past, input);
            match memo_scan(db, runs.drop_first(), past, input) {
                Some(m) => {
                    let i0 = choose|i0: int|
                        0 <= i0 < runs.drop_first().len() && runs.drop_first()[i0]
                            == m.activity_run_id;
                    assert(runs[i0 + 1] == m.activity_run_id);
                },
                None => {},
            }
        }
    }
}

/// Whether `h` holds a successful event recorded under workflow run `past`
/// whose payload is `input`.
pub open spec fn has_act_success_for(
    h: Seq<ActivityEvent>,
    past: WorkflowRunId,
    input: Seq<char>,
) -> bool {
    exists|k: int|
        0 <= k < h.len() && (#[trigger] h[k]).event_type is Succeeded && h[k].workflow_run_id
            == past && h[k].payload@ == input
}

/// A run among `runs` with a success recorded under `past` on `input`
/// guarantees the memoization scan a hit, as long as every listed run has a
/// history for the scan to look at.
proof fn lemma_memo_scan_hit(
    db: Db,
    runs: Seq<ActivityRunId>,
    past: WorkflowRunId,
    input: Seq<char>,
)
    requires
        db.wf(),
        forall|j: int| 0 <= j < runs.len() ==> db.act_history(#[trigger] runs[j]).len() > 0,
        exists|j: int|
            0 <= j < runs.len() && has_act_success_for(
                db.act_history(#[trigger] runs[j]),
                past,
                input,
            ),
    ensures
        memo_scan(db, runs, past, input) is Some,
    decreases runs.len(),
{
    let j0 = choose|j0: int|
        0 <= j0 < runs.len() && has_act_success_for(db.act_history(runs[j0]), past, input);
    let h = db.act_history(runs[0]);
    assert(h.len() > 0);
    if h.last().workflow_run_id == past && h.last().payload@ == input {
    } else {
        assert(j0 != 0) by {
            if j0 == 0 {
                let k = choose|k: int|
                    0 <= k < h.len() && (#[trigger] h[k]).event_type is Succeeded
                        && h[k].workflow_run_id == past && h[k].payload@ == input;
                lemma_act_history_facts(db, runs[0]);
                assert(k == h.len() - 1);
            }
        };
        assert forall|j: int|
            0 <= j < runs.drop_first().len() implies db.act_history(
            #[trigger] runs.drop_first()[j],
        ).len() > 0 by {
            assert(runs.drop_first()[j] == runs[j + 1]);
        };
        assert(runs.drop_first()[j0 - 1] == runs[j0]);
        assert(has_act_success_for(db.act_history(runs.drop_first()[j0 - 1]), past, input));
        lemma_memo_scan_hit(db, runs.drop_first(), past, input);
    }
}

/// The rerun short-circuit is guaranteed: when some run of activity `aid`
/// holds a success recorded under the past workflow run `past` with payload
/// `input`, the memoization lookup resolves.
pub proof fn lemma_memo_hit_for_success(
    db: Db,
    past: WorkflowRunId,
    aid: ActivityId,
    input: Seq<char>,
)
    requires
        db.wf(),
        db.populated(),
        exists|j: int|
            0 <= j < db.act_runs(aid).len() && has_act_success_for(
                db.act_history(#[trigger] db.act_runs(aid)[j]),
                past,
                input,
            ),
    ensures
        db.spec_memo_hit(past, aid, input) is Some,
{
    assert forall|j: int|
        0 <= j < db.act_runs(aid).len() implies db.act_history(
        #[trigger] db.act_runs(aid)[j],
    ).len() > 0 by {}
    lemma_memo_scan_hit(db, db.act_runs(aid), past, input);
}

} // verus!
