//! The request and response envelopes exchanged between worker and server.

use vstd::prelude::*;

use crate::activity::{ActivityId, ActivityName, ActivityRunId};
use crate::workflow::{WorkflowId, WorkflowName, WorkflowRunId};

verus! {

/// A worker request: the tagged union accepted by the server's worker
/// endpoint.
pub enum WorkerEvent {
    RegisterWorkflow { name: WorkflowName },
    RegisterActivity { name: ActivityName },
    EnqueueWorkflow { name: WorkflowName, input: String, workflow_run_id: WorkflowRunId },
    EnqueueActivity {
        name: ActivityName,
        input: String,
        activity_run_id: ActivityRunId,
        workflow_run_id: WorkflowRunId,
        max_attempts: i64,
    },
    CompleteWorkflow {
        result: String,
        error: String,
        workflow_id: WorkflowId,
        workflow_run_id: WorkflowRunId,
        rerun_of_workflow_run_id: Option<WorkflowRunId>,
    },
    PollWorkflow { name: WorkflowName },
    PollWorkflowCompletion { workflow_run_id: WorkflowRunId },
    CompleteActivity {
        result: String,
        error: String,
        activity_id: ActivityId,
        activity_run_id: ActivityRunId,
        workflow_run_id: WorkflowRunId,
        max_attempts: i64,
        attempt_number: i64,
    },
    PollActivity { name: ActivityName },
    PollActivityCompletion { activity_run_id: ActivityRunId },
}

/// Work handed to a workflow poller: the claimed run and its input.
pub struct PollWorkflowResponse {
    pub workflow_run_id: WorkflowRunId,
    pub rerun_of_workflow_run_id: Option<WorkflowRunId>,
    pub workflow_id: WorkflowId,
    pub name: WorkflowName,
    pub input: String,
}

/// Work handed to an activity poller.
pub struct PollActivityResponse {
    pub activity_run_id: ActivityRunId,
    pub workflow_run_id: WorkflowRunId,
    pub activity_id: ActivityId,
    pub name: ActivityName,
    pub input: String,
    pub max_attempts: i64,
    pub attempt_number: i64,
}

/// A workflow run's terminal outcome. Exactly one of `result` and `error`
/// carries the payload; the empty string marks the absent one.
pub struct PollWorkflowCompletion {
    pub workflow_run_id: WorkflowRunId,
    pub result: String,
    pub error: String,
}

/// An activity run's terminal outcome, with the same empty-string
/// convention as [`PollWorkflowCompletion`].
pub struct PollActivityCompletion {
    pub activity_run_id: ActivityRunId,
    pub result: String,
    pub error: String,
}

/// A server response: the tagged union produced by the worker endpoint.
pub enum ServerEvent {
    PollWorkflowResponse(PollWorkflowResponse),
    PollActivityResponse(PollActivityResponse),
    PollWorkflowCompletion(PollWorkflowCompletion),
    PollActivityCompletion(PollActivityCompletion),
    GeneralSuccess { success: bool },
    NotFound,
}

/// The body of a rerun request.
pub struct RerunWorkflowPayload {
    pub workflow_run_id: WorkflowRunId,
}

/// The outcome of a rerun request: the id of the freshly created run, or
/// the refusal sent when the named run is absent or not failed.
pub enum RerunWorkflowResponse {
    NewRun { new_workflow_id: WorkflowRunId },
    NotFound,
}

/// The mathematical shape of a worker request: strings as character
/// sequences, everything else as itself.
pub enum WorkerEventV {
    RegisterWorkflow { name: Seq<char> },
    RegisterActivity { name: Seq<char> },
    EnqueueWorkflow { name: Seq<char>, input: Seq<char>, workflow_run_id: WorkflowRunId },
    EnqueueActivity {
        name: Seq<char>,
        input: Seq<char>,
        activity_run_id: ActivityRunId,
        workflow_run_id: WorkflowRunId,
        max_attempts: i64,
    },
    CompleteWorkflow {
        result: Seq<char>,
        error: Seq<char>,
        workflow_id: WorkflowId,
        workflow_run_id: WorkflowRunId,
        rerun_of_workflow_run_id: Option<WorkflowRunId>,
    },
    PollWorkflow { name: Seq<char> },
    PollWorkflowCompletion { workflow_run_id: WorkflowRunId },
    CompleteActivity {
        result: Seq<char>,
        error: Seq<char>,
        activity_id: ActivityId,
        activity_run_id: ActivityRunId,
        workflow_run_id: WorkflowRunId,
        max_attempts: i64,
        attempt_number: i64,
    },
    PollActivity { name: Seq<char> },
    PollActivityCompletion { activity_run_id: ActivityRunId },
}

impl View for WorkerEvent {
    type V = WorkerEventV;

    open spec fn view(&self) -> WorkerEventV {
        match self {
            WorkerEvent::RegisterWorkflow { name } => WorkerEventV::RegisterWorkflow {
                name: name@,
            },
            WorkerEvent::RegisterActivity { name } => WorkerEventV::RegisterActivity {
                name: name@,
            },
            WorkerEvent::EnqueueWorkflow { name, input, workflow_run_id } => (
            WorkerEventV::EnqueueWorkflow {
                name: name@,
                input: input@,
                workflow_run_id: *workflow_run_id,
            }),
            WorkerEvent::EnqueueActivity {
                name,
                input,
                activity_run_id,
                workflow_run_id,
                max_attempts,
            } => (WorkerEventV::EnqueueActivity {
                name: name@,
                input: input@,
                activity_run_id: *activity_run_id,
                workflow_run_id: *workflow_run_id,
                max_attempts: *max_attempts,
            }),
            WorkerEvent::CompleteWorkflow {
                result,
                error,
                workflow_id,
                workflow_run_id,
                rerun_of_workflow_run_id,
            } => (WorkerEventV::CompleteWorkflow {
                result: result@,
                error: error@,
                workflow_id: *workflow_id,
                workflow_run_id: *workflow_run_id,
                rerun_of_workflow_run_id: *rerun_of_workflow_run_id,
            }),
            WorkerEvent::PollWorkflow { name } => WorkerEventV::PollWorkflow { name: name@ },
            WorkerEvent::PollWorkflowCompletion { workflow_run_id } => (
            WorkerEventV::PollWorkflowCompletion { workflow_run_id: *workflow_run_id }),
            WorkerEvent::CompleteActivity {
                result,
                error,
                activity_id,
                activity_run_id,
                workflow_run_id,
                max_attempts,
                attempt_number,
            } => (WorkerEventV::CompleteActivity {
                result: result@,
                error: error@,
                activity_id: *activity_id,
                activity_run_id: *activity_run_id,
                workflow_run_id: *workflow_run_id,
                max_attempts: *max_attempts,
                attempt_number: *attempt_number,
            }),
            WorkerEvent::PollActivity { name } => WorkerEventV::PollActivity { name: name@ },
            WorkerEvent::PollActivityCompletion { activity_run_id } => (
            WorkerEventV::PollActivityCompletion { activity_run_id: *activity_run_id }),
        }
    }
}

/// The mathematical shape of [`PollWorkflowResponse`].
pub struct PollWorkflowResponseV {
    pub workflow_run_id: WorkflowRunId,
    pub rerun_of_workflow_run_id: Option<WorkflowRunId>,
    pub workflow_id: WorkflowId,
    pub name: Seq<char>,
    pub input: Seq<char>,
}

impl View for PollWorkflowResponse {
    type V = PollWorkflowResponseV;

    open spec fn view(&self) -> PollWorkflowResponseV {
        PollWorkflowResponseV {
            workflow_run_id: self.workflow_run_id,
            rerun_of_workflow_run_id: self.rerun_of_workflow_run_id,
            workflow_id: self.workflow_id,
            name: self.name@,
            input: self.input@,
        }
    }
}

/// The mathematical shape of [`PollActivityResponse`].
pub struct PollActivityResponseV {
    pub activity_run_id: ActivityRunId,
    pub workflow_run_id: WorkflowRunId,
    pub activity_id: ActivityId,
    pub name: Seq<char>,
    pub input: Seq<char>,
    pub max_attempts: i64,
    pub attempt_number: i64,
}

impl View for PollActivityResponse {
    type V = PollActivityResponseV;

    open spec fn view(&self) -> PollActivityResponseV {
        PollActivityResponseV {
            activity_run_id: self.activity_run_id,
            workflow_run_id: self.workflow_run_id,
            activity_id: self.activity_id,
            name: self.name@,
            input: self.input@,
            max_attempts: self.max_attempts,
            attempt_number: self.attempt_number,
        }
    }
}

/// The mathematical shape of [`PollWorkflowCompletion`].
pub struct PollWorkflowCompletionV {
    pub workflow_run_id: WorkflowRunId,
    pub result: Seq<char>,
    pub error: Seq<char>,
}

impl View for PollWorkflowCompletion {
    type V = PollWorkflowCompletionV;

    open spec fn view(&self) -> PollWorkflowCompletionV {
        PollWorkflowCompletionV {
            workflow_run_id: self.workflow_run_id,
            result: self.result@,
            error: self.error@,
        }
    }
}

/// The mathematical shape of [`PollActivityCompletion`].
pub struct PollActivityCompletionV {
    pub activity_run_id: ActivityRunId,
    pub result: Seq<char>,
    pub error: Seq<char>,
}

impl View for PollActivityCompletion {
    type V = PollActivityCompletionV;

    open spec fn view(&self) -> PollActivityCompletionV {
        PollActivityCompletionV {
            activity_run_id: self.activity_run_id,
            result: self.result@,
            error: self.error@,
        }
    }
}

/// The mathematical shape of a server response.
pub enum ServerEventV {
    PollWorkflowResponse(PollWorkflowResponseV),
    PollActivityResponse(PollActivityResponseV),
    PollWorkflowCompletion(PollWorkflowCompletionV),
    PollActivityCompletion(PollActivityCompletionV),
    GeneralSuccess { success: bool },
    NotFound,
}

impl View for ServerEvent {
    type V = ServerEventV;

    open spec fn view(&self) -> ServerEventV {
        match self {
            ServerEvent::PollWorkflowResponse(p) => ServerEventV::PollWorkflowResponse(p@),
            ServerEvent::PollActivityResponse(p) => ServerEventV::PollActivityResponse(p@),
            ServerEvent::PollWorkflowCompletion(p) => ServerEventV::PollWorkflowCompletion(p@),
            ServerEvent::PollActivityCompletion(p) => ServerEventV::PollActivityCompletion(p@),
            ServerEvent::GeneralSuccess { success } => ServerEventV::GeneralSuccess {
                success: *success,
            },
            ServerEvent::NotFound => ServerEventV::NotFound,
        }
    }
}

/// The mathematical shape of a rerun request body.
pub struct RerunWorkflowPayloadV {
    pub workflow_run_id: WorkflowRunId,
}

impl View for RerunWorkflowPayload {
    type V = RerunWorkflowPayloadV;

    open spec fn view(&self) -> RerunWorkflowPayloadV {
        RerunWorkflowPayloadV { workflow_run_id: self.workflow_run_id }
    }
}

/// The mathematical shape of a rerun response.
pub enum RerunWorkflowResponseV {
    NewRun { new_workflow_id: WorkflowRunId },
    NotFound,
}

impl View for RerunWorkflowResponse {
    type V = RerunWorkflowResponseV;

    open spec fn view(&self) -> RerunWorkflowResponseV {
        match self {
            RerunWorkflowResponse::NewRun { new_workflow_id } => RerunWorkflowResponseV::NewRun {
                new_workflow_id: *new_workflow_id,
            },
            RerunWorkflowResponse::NotFound => RerunWorkflowResponseV::NotFound,
        }
    }
}

} // verus!
