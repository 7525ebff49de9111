//! Activities and the events of their runs.
//!
//! An activity is a registered leaf operation, invoked by a workflow with a
//! string input. Each invocation is a run whose lifecycle transitions are
//! recorded as immutable [`ActivityEvent`]s.

use vstd::prelude::*;

use crate::trusted;
use crate::workflow::WorkflowRunId;

verus! {

/// Name under which an activity is registered; unique per activity.
#[derive(Debug)]
pub struct ActivityName(pub String);

impl View for ActivityName {
    type V = Seq<char>;

    open spec fn view(&self) -> Seq<char> {
        self.0@
    }
}

impl Clone for ActivityName {
    fn clone(&self) -> (r: Self)
        ensures
            r == *self,
    {
        ActivityName(self.0.clone())
    }
}

impl ActivityName {
    /// True when the two names are spelled the same.
    pub fn same(&self, other: &ActivityName) -> (r: bool)
        ensures
            r == (self@ == other@),
    {
        self.0 == other.0
    }
}

/// Identifier of a registered activity.
#[derive(Clone, Copy, PartialEq, Eq, Structural, Debug)]
pub struct ActivityId(pub u128);

impl ActivityId {
    /// A freshly drawn random identifier.
    pub fn new() -> Self {
        ActivityId(trusted::fresh_uuid())
    }
}

/// Identifier of one execution of an activity.
#[derive(Clone, Copy, PartialEq, Eq, Structural, Debug)]
pub struct ActivityRunId(pub u128);

impl ActivityRunId {
    /// A freshly drawn random identifier.
    pub fn new() -> Self {
        ActivityRunId(trusted::fresh_uuid())
    }
}

/// A registered activity: one per name, never mutated.
#[derive(Debug)]
pub struct Activity {
    pub id: ActivityId,
    pub name: ActivityName,
}

impl Clone for Activity {
    fn clone(&self) -> (r: Self)
        ensures
            r == *self,
    {
        Activity { id: self.id, name: self.name.clone() }
    }
}

/// Lifecycle states of an activity run: `Pending -> Started -> {Succeeded, Failed}`.
#[derive(Clone, Copy, PartialEq, Eq, Structural, Debug)]
pub enum ActivityEventType {
    Pending,
    Started,
    Succeeded,
    Failed,
}

/// True for the two states a run never leaves.
pub open spec fn act_terminal(t: ActivityEventType) -> bool {
    t is Succeeded || t is Failed
}

/// One immutable record in an activity run's history.
#[derive(Debug)]
pub struct ActivityEvent {
    pub activity_id: ActivityId,
    pub activity_run_id: ActivityRunId,
    pub workflow_run_id: WorkflowRunId,
    pub event_type: ActivityEventType,
    pub payload: String,
    pub created_at: i64,
    pub attempt_number: i64,
    pub max_attempts: i64,
}

impl Clone for ActivityEvent {
    fn clone(&self) -> (r: Self)
        ensures
            r == *self,
    {
        ActivityEvent {
            activity_id: self.activity_id,
            activity_run_id: self.activity_run_id,
            workflow_run_id: self.workflow_run_id,
            event_type: self.event_type,
            payload: self.payload.clone(),
            created_at: self.created_at,
            attempt_number: self.attempt_number,
            max_attempts: self.max_attempts,
        }
    }
}

} // verus!
