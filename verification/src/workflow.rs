//! Workflows and the events of their runs.
//!
//! A workflow is a registered coordinator, identified by a unique name. Each
//! execution of it is a run, and every lifecycle transition of a run is
//! recorded as an immutable [`WorkflowEvent`].

use vstd::prelude::*;

use crate::trusted;

verus! {

/// Name under which a workflow is registered; unique per workflow.
#[derive(Debug)]
pub struct WorkflowName(pub String);

impl View for WorkflowName {
    type V = Seq<char>;

    open spec fn view(&self) -> Seq<char> {
        self.0@
    }
}

impl Clone for WorkflowName {
    fn clone(&self) -> (r: Self)
        ensures
            r == *self,
    {
        WorkflowName(self.0.clone())
    }
}

impl WorkflowName {
    /// True when the two names are spelled the same.
    pub fn same(&self, other: &WorkflowName) -> (r: bool)
        ensures
            r == (self@ == other@),
    {
        self.0 == other.0
    }
}

/// Identifier of a registered workflow.
#[derive(Clone, Copy, PartialEq, Eq, Structural, Debug)]
pub struct WorkflowId(pub u128);

impl WorkflowId {
    /// A freshly drawn random identifier.
    pub fn new() -> Self {
        WorkflowId(trusted::fresh_uuid())
    }
}

/// Identifier of one execution of a workflow.
#[derive(Clone, Copy, PartialEq, Eq, Structural, Debug)]
pub struct WorkflowRunId(pub u128);

impl WorkflowRunId {
    /// A freshly drawn random identifier.
    pub fn new() -> Self {
        WorkflowRunId(trusted::fresh_uuid())
    }
}

/// A registered workflow: one per name, never mutated.
#[derive(Debug)]
pub struct Workflow {
    pub id: WorkflowId,
    pub name: WorkflowName,
}

impl Clone for Workflow {
    fn clone(&self) -> (r: Self)
        ensures
            r == *self,
    {
        Workflow { id: self.id, name: self.name.clone() }
    }
}

/// Lifecycle states of a workflow run: `Pending -> Started -> {Succeeded, Failed}`.
#[derive(Clone, Copy, PartialEq, Eq, Structural, Debug)]
pub enum WorkflowEventType {
    Pending,
    Started,
    Succeeded,
    Failed,
}

/// True for the two states a run never leaves.
pub open spec fn wf_terminal(t: WorkflowEventType) -> bool {
    t is Succeeded || t is Failed
}

/// One immutable record in a workflow run's history.
#[derive(Debug)]
pub struct WorkflowEvent {
    pub workflow_id: WorkflowId,
    pub run_id: WorkflowRunId,
    pub event_type: WorkflowEventType,
    pub payload: String,
    pub rerun_of: Option<WorkflowRunId>,
    pub created_at: i64,
}

impl Clone for WorkflowEvent {
    fn clone(&self) -> (r: Self)
        ensures
            r == *self,
    {
        WorkflowEvent {
            workflow_id: self.workflow_id,
            run_id: self.run_id,
            event_type: self.event_type,
            payload: self.payload.clone(),
            rerun_of: self.rerun_of,
            created_at: self.created_at,
        }
    }
}

/// Retry configuration carried on activity enqueues.
#[derive(Debug)]
pub struct RetryOptions {
    pub max_attempts: i64,
}

impl Default for RetryOptions {
    fn default() -> (r: Self)
        ensures
            r.max_attempts == 1,
    {
        RetryOptions { max_attempts: 1 }
    }
}

/// Options governing subsequent activity executions of a workflow handler.
#[derive(Debug)]
pub struct ActivityOptions {
    pub retry_policy: RetryOptions,
}

impl Default for ActivityOptions {
    fn default() -> (r: Self)
        ensures
            r.retry_policy.max_attempts == 1,
    {
        ActivityOptions { retry_policy: RetryOptions { max_attempts: 1 } }
    }
}

} // verus!
