use orchestrator::activity::{ActivityId, ActivityName, ActivityRunId};
use orchestrator::uuid_text::{format_uuid, parse_uuid_str};
use orchestrator::wire::{
    decode_request, decode_rerun_payload, decode_rerun_response, decode_response, encode_request,
    encode_rerun_payload, encode_rerun_response, encode_response, Envelope, JsonField, JsonValue,
};
use orchestrator::worker_events::{
    PollActivityCompletion, PollActivityResponse, PollWorkflowCompletion, PollWorkflowResponse,
    RerunWorkflowPayload, RerunWorkflowResponse, ServerEvent, WorkerEvent,
};
use orchestrator::workflow::{WorkflowId, WorkflowName, WorkflowRunId};

#[test]
fn uuid_text_round_trips_and_is_canonical() {
    assert_eq!(format_uuid(0), "00000000-0000-0000-0000-000000000000");
    assert_eq!(format_uuid(255), "00000000-0000-0000-0000-0000000000ff");
    assert_eq!(format_uuid(u128::MAX), "ffffffff-ffff-ffff-ffff-ffffffffffff");
    let n: u128 = 0x550e8400_e29b_41d4_a716_446655440000;
    let s = format_uuid(n);
    assert_eq!(s, "550e8400-e29b-41d4-a716-446655440000");
    assert_eq!(parse_uuid_str(&s), Some(n));
    // either digit case parses
    assert_eq!(parse_uuid_str("550E8400-E29B-41D4-A716-446655440000"), Some(n));
}

#[test]
fn uuid_text_refuses_every_other_shape() {
    assert_eq!(parse_uuid_str(""), None);
    assert_eq!(parse_uuid_str("550e8400e29b41d4a716446655440000"), None);
    assert_eq!(parse_uuid_str("550e8400-e29b-41d4-a716-44665544000"), None);
    assert_eq!(parse_uuid_str("550e8400-e29b-41d4-a716-4466554400000"), None);
    assert_eq!(parse_uuid_str("550e8400-e29b-41d4_a716-446655440000"), None);
    assert_eq!(parse_uuid_str("550e8400-e29b-41d4-a716-44665544000g"), None);
}

fn request_round_trip(e: WorkerEvent) -> WorkerEvent {
    decode_request(&encode_request(&e)).expect("round trip")
}

#[test]
fn request_envelopes_round_trip() {
    match request_round_trip(WorkerEvent::RegisterWorkflow { name: WorkflowName("W".into()) }) {
        WorkerEvent::RegisterWorkflow { name } => assert_eq!(name.0, "W"),
        _ => panic!("wrong variant"),
    }
    match request_round_trip(WorkerEvent::RegisterActivity { name: ActivityName("A".into()) }) {
        WorkerEvent::RegisterActivity { name } => assert_eq!(name.0, "A"),
        _ => panic!("wrong variant"),
    }
    match request_round_trip(WorkerEvent::EnqueueWorkflow {
        name: WorkflowName("W".into()),
        input: "in".into(),
        workflow_run_id: WorkflowRunId(7),
    }) {
        WorkerEvent::EnqueueWorkflow { name, input, workflow_run_id } => {
            assert_eq!(name.0, "W");
            assert_eq!(input, "in");
            assert_eq!(workflow_run_id, WorkflowRunId(7));
        },
        _ => panic!("wrong variant"),
    }
    match request_round_trip(WorkerEvent::EnqueueActivity {
        name: ActivityName("A".into()),
        input: "3".into(),
        activity_run_id: ActivityRunId(20),
        workflow_run_id: WorkflowRunId(7),
        max_attempts: 3,
    }) {
        WorkerEvent::EnqueueActivity { name, input, activity_run_id, workflow_run_id, max_attempts } => {
            assert_eq!(name.0, "A");
            assert_eq!(input, "3");
            assert_eq!(activity_run_id, ActivityRunId(20));
            assert_eq!(workflow_run_id, WorkflowRunId(7));
            assert_eq!(max_attempts, 3);
        },
        _ => panic!("wrong variant"),
    }
    match request_round_trip(WorkerEvent::CompleteWorkflow {
        result: "ok".into(),
        error: "".into(),
        workflow_id: WorkflowId(1),
        workflow_run_id: WorkflowRunId(7),
        rerun_of_workflow_run_id: Some(WorkflowRunId(6)),
    }) {
        WorkerEvent::CompleteWorkflow { result, error, workflow_id, workflow_run_id, rerun_of_workflow_run_id } => {
            assert_eq!(result, "ok");
            assert_eq!(error, "");
            assert_eq!(workflow_id, WorkflowId(1));
            assert_eq!(workflow_run_id, WorkflowRunId(7));
            assert_eq!(rerun_of_workflow_run_id, Some(WorkflowRunId(6)));
        },
        _ => panic!("wrong variant"),
    }
    match request_round_trip(WorkerEvent::CompleteWorkflow {
        result: "".into(),
        error: "boom".into(),
        workflow_id: WorkflowId(1),
        workflow_run_id: WorkflowRunId(7),
        rerun_of_workflow_run_id: None,
    }) {
        WorkerEvent::CompleteWorkflow { error, rerun_of_workflow_run_id, .. } => {
            assert_eq!(error, "boom");
            assert_eq!(rerun_of_workflow_run_id, None);
        },
        _ => panic!("wrong variant"),
    }
    match request_round_trip(WorkerEvent::PollWorkflow { name: WorkflowName("W".into()) }) {
        WorkerEvent::PollWorkflow { name } => assert_eq!(name.0, "W"),
        _ => panic!("wrong variant"),
    }
    match request_round_trip(WorkerEvent::PollWorkflowCompletion { workflow_run_id: WorkflowRunId(7) }) {
        WorkerEvent::PollWorkflowCompletion { workflow_run_id } => {
            assert_eq!(workflow_run_id, WorkflowRunId(7))
        },
        _ => panic!("wrong variant"),
    }
    match request_round_trip(WorkerEvent::CompleteActivity {
        result: "4".into(),
        error: "".into(),
        activity_id: ActivityId(2),
        activity_run_id: ActivityRunId(20),
        workflow_run_id: WorkflowRunId(7),
        max_attempts: 3,
        attempt_number: 1,
    }) {
        WorkerEvent::CompleteActivity { result, activity_id, activity_run_id, workflow_run_id, max_attempts, attempt_number, .. } => {
            assert_eq!(result, "4");
            assert_eq!(activity_id, ActivityId(2));
            assert_eq!(activity_run_id, ActivityRunId(20));
            assert_eq!(workflow_run_id, WorkflowRunId(7));
            assert_eq!(max_attempts, 3);
            assert_eq!(attempt_number, 1);
        },
        _ => panic!("wrong variant"),
    }
    match request_round_trip(WorkerEvent::PollActivity { name: ActivityName("A".into()) }) {
        WorkerEvent::PollActivity { name } => assert_eq!(name.0, "A"),
        _ => panic!("wrong variant"),
    }
    match request_round_trip(WorkerEvent::PollActivityCompletion { activity_run_id: ActivityRunId(20) }) {
        WorkerEvent::PollActivityCompletion { activity_run_id } => {
            assert_eq!(activity_run_id, ActivityRunId(20))
        },
        _ => panic!("wrong variant"),
    }
}

#[test]
fn response_envelopes_round_trip() {
    let r = decode_response(&encode_response(&ServerEvent::PollWorkflowResponse(
        PollWorkflowResponse {
            workflow_run_id: WorkflowRunId(7),
            rerun_of_workflow_run_id: Some(WorkflowRunId(6)),
            workflow_id: WorkflowId(1),
            name: WorkflowName("W".into()),
            input: "in".into(),
        },
    )))
    .unwrap();
    match r {
        ServerEvent::PollWorkflowResponse(p) => {
            assert_eq!(p.workflow_run_id, WorkflowRunId(7));
            assert_eq!(p.rerun_of_workflow_run_id, Some(WorkflowRunId(6)));
            assert_eq!(p.workflow_id, WorkflowId(1));
            assert_eq!(p.name.0, "W");
            assert_eq!(p.input, "in");
        },
        _ => panic!("wrong variant"),
    }
    let r = decode_response(&encode_response(&ServerEvent::PollActivityResponse(
        PollActivityResponse {
            activity_run_id: ActivityRunId(20),
            workflow_run_id: WorkflowRunId(7),
            activity_id: ActivityId(2),
            name: ActivityName("A".into()),
            input: "3".into(),
            max_attempts: 3,
            attempt_number: 1,
        },
    )))
    .unwrap();
    match r {
        ServerEvent::PollActivityResponse(p) => {
            assert_eq!(p.activity_run_id, ActivityRunId(20));
            assert_eq!(p.workflow_run_id, WorkflowRunId(7));
            assert_eq!(p.activity_id, ActivityId(2));
            assert_eq!(p.name.0, "A");
            assert_eq!(p.input, "3");
            assert_eq!(p.max_attempts, 3);
            assert_eq!(p.attempt_number, 1);
        },
        _ => panic!("wrong variant"),
    }
    let r = decode_response(&encode_response(&ServerEvent::PollWorkflowCompletion(
        PollWorkflowCompletion {
            workflow_run_id: WorkflowRunId(7),
            result: "ok".into(),
            error: "".into(),
        },
    )))
    .unwrap();
    match r {
        ServerEvent::PollWorkflowCompletion(c) => {
            assert_eq!(c.workflow_run_id, WorkflowRunId(7));
            assert_eq!(c.result, "ok");
            assert_eq!(c.error, "");
        },
        _ => panic!("wrong variant"),
    }
    let r = decode_response(&encode_response(&ServerEvent::PollActivityCompletion(
        PollActivityCompletion {
            activity_run_id: ActivityRunId(20),
            result: "".into(),
            error: "Sadge".into(),
        },
    )))
    .unwrap();
    match r {
        ServerEvent::PollActivityCompletion(c) => {
            assert_eq!(c.activity_run_id, ActivityRunId(20));
            assert_eq!(c.result, "");
            assert_eq!(c.error, "Sadge");
        },
        _ => panic!("wrong variant"),
    }
    let r = decode_response(&encode_response(&ServerEvent::GeneralSuccess { success: true })).unwrap();
    assert!(matches!(r, ServerEvent::GeneralSuccess { success: true }));
    let r = decode_response(&encode_response(&ServerEvent::NotFound)).unwrap();
    assert!(matches!(r, ServerEvent::NotFound));
}

#[test]
fn rerun_envelopes_round_trip() {
    let p = decode_rerun_payload(&encode_rerun_payload(&RerunWorkflowPayload {
        workflow_run_id: WorkflowRunId(7),
    }))
    .unwrap();
    assert_eq!(p.workflow_run_id, WorkflowRunId(7));
    let r = decode_rerun_response(&encode_rerun_response(&RerunWorkflowResponse::NewRun {
        new_workflow_id: WorkflowRunId(70),
    }))
    .unwrap();
    assert!(matches!(r, RerunWorkflowResponse::NewRun { new_workflow_id } if new_workflow_id == WorkflowRunId(70)));
    let r = decode_rerun_response(&encode_rerun_response(&RerunWorkflowResponse::NotFound)).unwrap();
    assert!(matches!(r, RerunWorkflowResponse::NotFound));
}

#[test]
fn decoding_ignores_field_order_and_extra_fields() {
    let env = Envelope::Tagged {
        tag: "EnqueuWorkflow".to_string(),
        fields: vec![
            JsonField {
                key: "workflow_run_id".to_string(),
                value: JsonValue::JStr(format_uuid(7)),
            },
            JsonField { key: "unrelated".to_string(), value: JsonValue::JBool(false) },
            JsonField { key: "input".to_string(), value: JsonValue::JStr("in".to_string()) },
            JsonField { key: "name".to_string(), value: JsonValue::JStr("W".to_string()) },
        ],
    };
    match decode_request(&env).unwrap() {
        WorkerEvent::EnqueueWorkflow { name, input, workflow_run_id } => {
            assert_eq!(name.0, "W");
            assert_eq!(input, "in");
            assert_eq!(workflow_run_id, WorkflowRunId(7));
        },
        _ => panic!("wrong variant"),
    }
}

#[test]
fn decoding_refuses_malformed_messages() {
    // unknown tag
    let env = Envelope::Tagged { tag: "Nope".to_string(), fields: vec![] };
    assert!(decode_request(&env).is_none());
    // missing field
    let env = Envelope::Tagged { tag: "PollWorkflow".to_string(), fields: vec![] };
    assert!(decode_request(&env).is_none());
    // wrong field type
    let env = Envelope::Tagged {
        tag: "PollWorkflow".to_string(),
        fields: vec![JsonField { key: "name".to_string(), value: JsonValue::JNum(3) }],
    };
    assert!(decode_request(&env).is_none());
    // malformed identifier
    let env = Envelope::Tagged {
        tag: "PollWorkflowCompletion".to_string(),
        fields: vec![JsonField {
            key: "workflow_run_id".to_string(),
            value: JsonValue::JStr("not-a-uuid".to_string()),
        }],
    };
    assert!(decode_request(&env).is_none());
    // a bare string that is not the refusal marker
    assert!(decode_response(&Envelope::Text("nothing".to_string())).is_none());
}
