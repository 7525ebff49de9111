//! The wire shape of the protocol.
//!
//! Every request and response travels as one JSON object whose single key
//! is the variant's wire tag and whose value holds the fields (a unit
//! variant travels as a bare string, a rerun body as a bare object). This
//! module models that object shape — tag, fields, and the four scalar JSON
//! values the protocol uses — and codes every envelope of the protocol to
//! and from it. Decoding looks fields up by key, so it is indifferent to
//! key order and to extra fields; decoding what was encoded gives the
//! envelope back. Two wire tags keep their historical spelling,
//! `EnqueuWorkflow` and `EnqueuActivity`. Turning this shape into JSON
//! text and back is character-level work with no protocol content and sits
//! with the process plumbing.

use vstd::prelude::*;

use crate::activity::{ActivityId, ActivityName, ActivityRunId};
use crate::text::str_eq;
use crate::uuid_text::{format_uuid, lemma_uuid_roundtrip, parse_uuid, parse_uuid_str, uuid_seq};
use crate::worker_events::{
    PollActivityCompletion, PollActivityResponse, PollWorkflowCompletion, PollWorkflowResponse,
    RerunWorkflowPayload, RerunWorkflowResponse, ServerEvent, WorkerEvent,
};
use crate::worker_events::{
    PollActivityCompletionV, PollActivityResponseV, PollWorkflowCompletionV,
    PollWorkflowResponseV, RerunWorkflowPayloadV, RerunWorkflowResponseV, ServerEventV,
    WorkerEventV,
};
use crate::workflow::{WorkflowId, WorkflowName, WorkflowRunId};

verus! {

/// A scalar JSON value of the protocol.
pub enum JsonValue {
    JStr(String),
    JNum(i64),
    JBool(bool),
    JNull,
}

/// The mathematical shape of a scalar JSON value.
pub enum JsonValueV {
    Str(Seq<char>),
    Num(i64),
    Bool(bool),
    Null,
}

impl View for JsonValue {
    type V = JsonValueV;

    open spec fn view(&self) -> JsonValueV {
        match self {
            JsonValue::JStr(s) => JsonValueV::Str(s@),
            JsonValue::JNum(n) => JsonValueV::Num(*n),
            JsonValue::JBool(b) => JsonValueV::Bool(*b),
            JsonValue::JNull => JsonValueV::Null,
        }
    }
}

/// One key-value pair of a JSON object.
pub struct JsonField {
    pub key: String,
    pub value: JsonValue,
}

impl View for JsonField {
    type V = (Seq<char>, JsonValueV);

    open spec fn view(&self) -> (Seq<char>, JsonValueV) {
        (self.key@, self.value@)
    }
}

/// The fields of an object, as the mathematical pairs.
pub open spec fn fields_v(fs: Seq<JsonField>) -> Seq<(Seq<char>, JsonValueV)> {
    fs.map_values(|f: JsonField| f@)
}

/// One JSON message of the protocol: a tagged object, a bare object, or a
/// bare string.
pub enum Envelope {
    Tagged { tag: String, fields: Vec<JsonField> },
    Obj { fields: Vec<JsonField> },
    Text(String),
}

/// The mathematical shape of a message.
pub enum EnvelopeV {
    Tagged(Seq<char>, Seq<(Seq<char>, JsonValueV)>),
    Obj(Seq<(Seq<char>, JsonValueV)>),
    Text(Seq<char>),
}

impl View for Envelope {
    type V = EnvelopeV;

    open spec fn view(&self) -> EnvelopeV {
        match self {
            Envelope::Tagged { tag, fields } => EnvelopeV::Tagged(tag@, fields_v(fields@)),
            Envelope::Obj { fields } => EnvelopeV::Obj(fields_v(fields@)),
            Envelope::Text(s) => EnvelopeV::Text(s@),
        }
    }
}

/// The value under the first occurrence of `key`.
pub open spec fn obj_get(fs: Seq<(Seq<char>, JsonValueV)>, key: Seq<char>) -> Option<JsonValueV>
    decreases fs.len(),
{
    if fs.len() == 0 {
        None
    } else if fs[0].0 == key {
        Some(fs[0].1)
    } else {
        obj_get(fs.drop_first(), key)
    }
}

/// The string under `key`, when `key` holds a string.
pub open spec fn get_str(fs: Seq<(Seq<char>, JsonValueV)>, key: Seq<char>) -> Option<Seq<char>> {
    match obj_get(fs, key) {
        Some(JsonValueV::Str(s)) => Some(s),
        _ => None,
    }
}

/// The number under `key`, when `key` holds a number.
pub open spec fn get_num(fs: Seq<(Seq<char>, JsonValueV)>, key: Seq<char>) -> Option<i64> {
    match obj_get(fs, key) {
        Some(JsonValueV::Num(n)) => Some(n),
        _ => None,
    }
}

/// The boolean under `key`, when `key` holds a boolean.
pub open spec fn get_bool(fs: Seq<(Seq<char>, JsonValueV)>, key: Seq<char>) -> Option<bool> {
    match obj_get(fs, key) {
        Some(JsonValueV::Bool(b)) => Some(b),
        _ => None,
    }
}

/// The identifier under `key`, when `key` holds a canonical identifier
/// text.
pub open spec fn get_uuid(fs: Seq<(Seq<char>, JsonValueV)>, key: Seq<char>) -> Option<u128> {
    match get_str(fs, key) {
        Some(s) => match parse_uuid(s) {
            Some(v) => Some(v as u128),
            None => None,
        },
        None => None,
    }
}

/// The optional identifier under `key`: absent or `null` mean none.
pub open spec fn get_opt_uuid(fs: Seq<(Seq<char>, JsonValueV)>, key: Seq<char>) -> Option<
    Option<u128>,
> {
    match obj_get(fs, key) {
        None => Some(None),
        Some(JsonValueV::Null) => Some(None),
        Some(JsonValueV::Str(s)) => match parse_uuid(s) {
            Some(v) => Some(Some(v as u128)),
            None => None,
        },
        _ => None,
    }
}

/// The value under the first occurrence of `key`.
fn obj_get_exec<'a>(fields: &'a Vec<JsonField>, key: &str) -> (r: Option<&'a JsonValue>)
    ensures
        match r {
            Some(v) => obj_get(fields_v(fields@), key@) == Some(v@),
            None => obj_get(fields_v(fields@), key@) is None,
        },
{
    let ghost fv = fields_v(fields@);
    let n = fields.len();
    proof {
        assert(fv.skip(0) =~= fv);
    }
    for i in 0..n
        invariant
            n == fields@.len(),
            fv == fields_v(fields@),
            fv.len() == n,
            obj_get(fv, key@) == obj_get(fv.skip(i as int), key@),
    {
        proof {
            assert(fv.skip(i as int)[0] == fv[i as int]);
            assert(fv[i as int] == fields@[i as int]@);
        }
        if str_eq(fields[i].key.as_str(), key) {
            return Some(&fields[i].value);
        }
        proof {
            assert(fv.skip(i as int).drop_first() =~= fv.skip(i as int + 1));
        }
    }
    None
}

/// The string under `key`, cloned out of the object.
fn get_str_field(fields: &Vec<JsonField>, key: &str) -> (r: Option<String>)
    ensures
        match r {
            Some(s) => get_str(fields_v(fields@), key@) == Some(s@),
            None => get_str(fields_v(fields@), key@) is None,
        },
{
    match obj_get_exec(fields, key) {
        Some(JsonValue::JStr(s)) => Some(s.clone()),
        _ => None,
    }
}

/// The number under `key`.
fn get_num_field(fields: &Vec<JsonField>, key: &str) -> (r: Option<i64>)
    ensures
        r == get_num(fields_v(fields@), key@),
{
    match obj_get_exec(fields, key) {
        Some(JsonValue::JNum(n)) => Some(*n),
        _ => None,
    }
}

/// The boolean under `key`.
fn get_bool_field(fields: &Vec<JsonField>, key: &str) -> (r: Option<bool>)
    ensures
        r == get_bool(fields_v(fields@), key@),
{
    match obj_get_exec(fields, key) {
        Some(JsonValue::JBool(b)) => Some(*b),
        _ => None,
    }
}

/// The identifier under `key`.
fn get_uuid_field(fields: &Vec<JsonField>, key: &str) -> (r: Option<u128>)
    ensures
        r == get_uuid(fields_v(fields@), key@),
{
    match obj_get_exec(fields, key) {
        Some(JsonValue::JStr(s)) => parse_uuid_str(s.as_str()),
        _ => None,
    }
}

/// The optional identifier under `key`: absent or `null` mean none.
fn get_opt_uuid_field(fields: &Vec<JsonField>, key: &str) -> (r: Option<Option<u128>>)
    ensures
        r == get_opt_uuid(fields_v(fields@), key@),
{
    match obj_get_exec(fields, key) {
        None => Some(None),
        Some(JsonValue::JNull) => Some(None),
        Some(JsonValue::JStr(s)) => match parse_uuid_str(s.as_str()) {
            Some(v) => Some(Some(v)),
            None => None,
        },
        _ => None,
    }
}

/// A string field holding `s`.
fn str_field(key: &str, s: String) -> (r: JsonField)
    ensures
        r@ == (key@, JsonValueV::Str(s@)),
{
    JsonField { key: key.to_owned(), value: JsonValue::JStr(s) }
}

/// A string field holding the canonical text of identifier `n`.
fn uuid_field(key: &str, n: u128) -> (r: JsonField)
    ensures
        r@ == (key@, JsonValueV::Str(uuid_seq(n))),
{
    JsonField { key: key.to_owned(), value: JsonValue::JStr(format_uuid(n)) }
}

/// A number field.
fn num_field(key: &str, n: i64) -> (r: JsonField)
    ensures
        r@ == (key@, JsonValueV::Num(n)),
{
    JsonField { key: key.to_owned(), value: JsonValue::JNum(n) }
}

/// A field holding the canonical text of an optional identifier, `null`
/// when it is absent.
fn opt_uuid_field(key: &str, n: Option<u128>) -> (r: JsonField)
    ensures
        r@ == (key@, match n {
            Some(v) => JsonValueV::Str(uuid_seq(v)),
            None => JsonValueV::Null,
        }),
{
    match n {
        Some(v) => JsonField { key: key.to_owned(), value: JsonValue::JStr(format_uuid(v)) },
        None => JsonField { key: key.to_owned(), value: JsonValue::JNull },
    }
}

/// Resolving a key that first occurs at position `j`.
proof fn lemma_obj_get_skip(fs: Seq<(Seq<char>, JsonValueV)>, j: int, key: Seq<char>)
    requires
        0 <= j < fs.len(),
        fs[j].0 == key,
        forall|i: int| 0 <= i < j ==> (#[trigger] fs[i]).0 != key,
    ensures
        obj_get(fs, key) == Some(fs[j].1),
    decreases j,
{
    if j > 0 {
        assert forall|i: int| 0 <= i < j - 1 implies (#[trigger] fs.drop_first()[i]).0 != key by {
            assert(fs.drop_first()[i] == fs[i + 1]);
        };
        assert(fs.drop_first()[j - 1] == fs[j]);
        lemma_obj_get_skip(fs.drop_first(), j - 1, key);
    }
}

/// The wire form of a worker request. The two enqueue tags keep the
/// historical spelling the protocol was born with.
pub open spec fn spec_encode_request(m: WorkerEventV) -> EnvelopeV {
    match m {
        WorkerEventV::RegisterWorkflow { name } => EnvelopeV::Tagged(
            "RegisterWorkflow"@,
            seq![("name"@, JsonValueV::Str(name))],
        ),
        WorkerEventV::RegisterActivity { name } => EnvelopeV::Tagged(
            "RegisterActivity"@,
            seq![("name"@, JsonValueV::Str(name))],
        ),
        WorkerEventV::EnqueueWorkflow { name, input, workflow_run_id } => EnvelopeV::Tagged(
            "EnqueuWorkflow"@,
            seq![
                ("name"@, JsonValueV::Str(name)),
                ("input"@, JsonValueV::Str(input)),
                ("workflow_run_id"@, JsonValueV::Str(uuid_seq(workflow_run_id.0))),
            ],
        ),
        WorkerEventV::EnqueueActivity {
            name,
            input,
            activity_run_id,
            workflow_run_id,
            max_attempts,
        } => EnvelopeV::Tagged(
            "EnqueuActivity"@,
            seq![
                ("name"@, JsonValueV::Str(name)),
                ("input"@, JsonValueV::Str(input)),
                ("activity_run_id"@, JsonValueV::Str(uuid_seq(activity_run_id.0))),
                ("workflow_run_id"@, JsonValueV::Str(uuid_seq(workflow_run_id.0))),
                ("max_attempts"@, JsonValueV::Num(max_attempts)),
            ],
        ),
        WorkerEventV::CompleteWorkflow {
            result,
            error,
            workflow_id,
            workflow_run_id,
            rerun_of_workflow_run_id,
        } => EnvelopeV::Tagged(
            "CompleteWorkflow"@,
            seq![
                ("result"@, JsonValueV::Str(result)),
                ("error"@, JsonValueV::Str(error)),
                ("workflow_id"@, JsonValueV::Str(uuid_seq(workflow_id.0))),
                ("workflow_run_id"@, JsonValueV::Str(uuid_seq(workflow_run_id.0))),
                (
                    "rerun_of_workflow_run_id"@,
                    match rerun_of_workflow_run_id {
                        Some(r) => JsonValueV::Str(uuid_seq(r.0)),
                        None => JsonValueV::Null,
                    },
                ),
            ],
        ),
        WorkerEventV::PollWorkflow { name } => EnvelopeV::Tagged(
            "PollWorkflow"@,
            seq![("name"@, JsonValueV::Str(name))],
        ),
        WorkerEventV::PollWorkflowCompletion { workflow_run_id } => EnvelopeV::Tagged(
            "PollWorkflowCompletion"@,
            seq![("workflow_run_id"@, JsonValueV::Str(uuid_seq(workflow_run_id.0)))],
        ),
        WorkerEventV::CompleteActivity {
            result,
            error,
            activity_id,
            activity_run_id,
            workflow_run_id,
            max_attempts,
            attempt_number,
        } => EnvelopeV::Tagged(
            "CompleteActivity"@,
            seq![
                ("result"@, JsonValueV::Str(result)),
                ("error"@, JsonValueV::Str(error)),
                ("activity_id"@, JsonValueV::Str(uuid_seq(activity_id.0))),
                ("activity_run_id"@, JsonValueV::Str(uuid_seq(activity_run_id.0))),
                ("workflow_run_id"@, JsonValueV::Str(uuid_seq(workflow_run_id.0))),
                ("max_attempts"@, JsonValueV::Num(max_attempts)),
                ("attempt_number"@, JsonValueV::Num(attempt_number)),
            ],
        ),
        WorkerEventV::PollActivity { name } => EnvelopeV::Tagged(
            "PollActivity"@,
            seq![("name"@, JsonValueV::Str(name))],
        ),
        WorkerEventV::PollActivityCompletion { activity_run_id } => EnvelopeV::Tagged(
            "PollActivityCompletion"@,
            seq![("activity_run_id"@, JsonValueV::Str(uuid_seq(activity_run_id.0)))],
        ),
    }
}

/// The worker request a wire message denotes, if any. Field order and
/// unknown fields do not matter; a malformed or missing field refuses the
/// message.
pub open spec fn spec_decode_request(v: EnvelopeV) -> Option<WorkerEventV> {
    match v {
        EnvelopeV::Tagged(tag, fs) => {
            if tag == "RegisterWorkflow"@ {
                match get_str(fs, "name"@) {
                    Some(n) => Some(WorkerEventV::RegisterWorkflow { name: n }),
                    None => None,
                }
            } else if tag == "RegisterActivity"@ {
                match get_str(fs, "name"@) {
                    Some(n) => Some(WorkerEventV::RegisterActivity { name: n }),
                    None => None,
                }
            } else if tag == "EnqueuWorkflow"@ {
                match (get_str(fs, "name"@), get_str(fs, "input"@), get_uuid(
                    fs,
                    "workflow_run_id"@,
                )) {
                    (Some(n), Some(i), Some(r)) => Some(
                        WorkerEventV::EnqueueWorkflow {
                            name: n,
                            input: i,
                            workflow_run_id: WorkflowRunId(r),
                        },
                    ),
                    _ => None,
                }
            } else if tag == "EnqueuActivity"@ {
                match (get_str(fs, "name"@), get_str(fs, "input"@), get_uuid(
                    fs,
                    "activity_run_id"@,
                ), get_uuid(fs, "workflow_run_id"@), get_num(fs, "max_attempts"@)) {
                    (Some(n), Some(i), Some(ar), Some(wr), Some(ma)) => Some(
                        WorkerEventV::EnqueueActivity {
                            name: n,
                            input: i,
                            activity_run_id: ActivityRunId(ar),
                            workflow_run_id: WorkflowRunId(wr),
                            max_attempts: ma,
                        },
                    ),
                    _ => None,
                }
            } else if tag == "CompleteWorkflow"@ {
                match (get_str(fs, "result"@), get_str(fs, "error"@), get_uuid(
                    fs,
                    "workflow_id"@,
                ), get_uuid(fs, "workflow_run_id"@), get_opt_uuid(
                    fs,
                    "rerun_of_workflow_run_id"@,
                )) {
                    (Some(res), Some(err), Some(wid), Some(wr), Some(rr)) => Some(
                        WorkerEventV::CompleteWorkflow {
                            result: res,
                            error: err,
                            workflow_id: WorkflowId(wid),
                            workflow_run_id: WorkflowRunId(wr),
                            rerun_of_workflow_run_id: match rr {
                                Some(r) => Some(WorkflowRunId(r)),
                                None => None,
                            },
                        },
                    ),
                    _ => None,
                }
            } else if tag == "PollWorkflow"@ {
                match get_str(fs, "name"@) {
                    Some(n) => Some(WorkerEventV::PollWorkflow { name: n }),
                    None => None,
                }
            } else if tag == "PollWorkflowCompletion"@ {
                match get_uuid(fs, "workflow_run_id"@) {
                    Some(r) => Some(
                        WorkerEventV::PollWorkflowCompletion {
                            workflow_run_id: WorkflowRunId(r),
                        },
                    ),
                    None => None,
                }
            } else if tag == "CompleteActivity"@ {
                match (get_str(fs, "result"@), get_str(fs, "error"@), get_uuid(
                    fs,
                    "activity_id"@,
                ), get_uuid(fs, "activity_run_id"@), get_uuid(fs, "workflow_run_id"@), get_num(
                    fs,
                    "max_attempts"@,
                ), get_num(fs, "attempt_number"@)) {
                    (Some(res), Some(err), Some(aid), Some(ar), Some(wr), Some(ma), Some(an)) => (
                    Some(
                        WorkerEventV::CompleteActivity {
                            result: res,
                            error: err,
                            activity_id: ActivityId(aid),
                            activity_run_id: ActivityRunId(ar),
                            workflow_run_id: WorkflowRunId(wr),
                            max_attempts: ma,
                            attempt_number: an,
                        },
                    )),
                    _ => None,
                }
            } else if tag == "PollActivity"@ {
                match get_str(fs, "name"@) {
                    Some(n) => Some(WorkerEventV::PollActivity { name: n }),
                    None => None,
                }
            } else if tag == "PollActivityCompletion"@ {
                match get_uuid(fs, "activity_run_id"@) {
                    Some(r) => Some(
                        WorkerEventV::PollActivityCompletion {
                            activity_run_id: ActivityRunId(r),
                        },
                    ),
                    None => None,
                }
            } else {
                None
            }
        },
        _ => None,
    }
}

/// Decoding an encoded worker request gives the request back: the wire
/// form is lossless, independent of field order.
#[verifier::rlimit(80)]
pub proof fn lemma_request_roundtrip(m: WorkerEventV)
    ensures
        spec_decode_request(spec_encode_request(m)) == Some(m),
{
    match m {
        WorkerEventV::RegisterWorkflow { name } => {
            reveal_strlit("RegisterWorkflow");
            reveal_strlit("name");
            let fs = spec_encode_request(m)->Tagged_1;
            assert(fs[0].0 == "name"@);
            lemma_obj_get_skip(fs, 0, "name"@);
            assert(spec_decode_request(spec_encode_request(m)) == Some(m));
        },
        WorkerEventV::RegisterActivity { name } => {
            reveal_strlit("RegisterWorkflow");
            reveal_strlit("RegisterActivity");
            reveal_strlit("name");
            assert(("RegisterWorkflow"@)[8] == 'W');
            assert(("RegisterActivity"@)[8] == 'A');
            let fs = spec_encode_request(m)->Tagged_1;
            assert(fs[0].0 == "name"@);
            lemma_obj_get_skip(fs, 0, "name"@);
            assert(spec_decode_request(spec_encode_request(m)) == Some(m));
        },
        WorkerEventV::EnqueueWorkflow { name, input, workflow_run_id } => {
            reveal_strlit("RegisterWorkflow");
            reveal_strlit("RegisterActivity");
            reveal_strlit("EnqueuWorkflow");
            reveal_strlit("name");
            reveal_strlit("input");
            reveal_strlit("workflow_run_id");
            assert(("RegisterWorkflow"@).len() == 16);
            assert(("RegisterActivity"@).len() == 16);
            assert(("EnqueuWorkflow"@).len() == 14);
            let fs = spec_encode_request(m)->Tagged_1;
            assert(fs[0].0 == "name"@);
            assert(fs[1].0 == "input"@);
            assert(fs[2].0 == "workflow_run_id"@);
            lemma_obj_get_skip(fs, 0, "name"@);
            lemma_obj_get_skip(fs, 1, "input"@);
            lemma_obj_get_skip(fs, 2, "workflow_run_id"@);
            lemma_uuid_roundtrip(workflow_run_id.0);
            assert(spec_decode_request(spec_encode_request(m)) == Some(m));
        },
        WorkerEventV::EnqueueActivity {
            name,
            input,
            activity_run_id,
            workflow_run_id,
            max_attempts,
        } => {
            reveal_strlit("RegisterWorkflow");
            reveal_strlit("RegisterActivity");
            reveal_strlit("EnqueuWorkflow");
            reveal_strlit("EnqueuActivity");
            reveal_strlit("name");
            reveal_strlit("input");
            reveal_strlit("activity_run_id");
            reveal_strlit("workflow_run_id");
            reveal_strlit("max_attempts");
            assert(("EnqueuWorkflow"@)[6] == 'W');
            assert(("EnqueuActivity"@)[6] == 'A');
            let fs = spec_encode_request(m)->Tagged_1;
            assert(fs[0].0 == "name"@);
            assert(fs[1].0 == "input"@);
            assert(fs[2].0 == "activity_run_id"@);
            assert(fs[3].0 == "workflow_run_id"@);
            assert(fs[4].0 == "max_attempts"@);
            lemma_obj_get_skip(fs, 0, "name"@);
            lemma_obj_get_skip(fs, 1, "input"@);
            lemma_obj_get_skip(fs, 2, "activity_run_id"@);
            assert(("activity_run_id"@)[0] == 'a');
            assert(("workflow_run_id"@)[0] == 'w');
            lemma_obj_get_skip(fs, 3, "workflow_run_id"@);
            lemma_obj_get_skip(fs, 4, "max_attempts"@);
            lemma_uuid_roundtrip(activity_run_id.0);
            lemma_uuid_roundtrip(workflow_run_id.0);
            assert(spec_decode_request(spec_encode_request(m)) == Some(m));
        },
        WorkerEventV::CompleteWorkflow {
            result,
            error,
            workflow_id,
            workflow_run_id,
            rerun_of_workflow_run_id,
        } => {
            reveal_strlit("RegisterWorkflow");
            reveal_strlit("RegisterActivity");
            reveal_strlit("EnqueuWorkflow");
            reveal_strlit("EnqueuActivity");
            reveal_strlit("CompleteWorkflow");
            reveal_strlit("result");
            reveal_strlit("error");
            reveal_strlit("workflow_id");
            reveal_strlit("workflow_run_id");
            reveal_strlit("rerun_of_workflow_run_id");
            assert(("CompleteWorkflow"@)[0] == 'C');
            assert(("RegisterWorkflow"@)[0] == 'R');
            assert(("RegisterActivity"@)[0] == 'R');
            let fs = spec_encode_request(m)->Tagged_1;
            assert(fs[0].0 == "result"@);
            assert(fs[1].0 == "error"@);
            assert(fs[2].0 == "workflow_id"@);
            assert(fs[3].0 == "workflow_run_id"@);
            assert(fs[4].0 == "rerun_of_workflow_run_id"@);
            lemma_obj_get_skip(fs, 0, "result"@);
            lemma_obj_get_skip(fs, 1, "error"@);
            lemma_obj_get_skip(fs, 2, "workflow_id"@);
            lemma_obj_get_skip(fs, 3, "workflow_run_id"@);
            lemma_obj_get_skip(fs, 4, "rerun_of_workflow_run_id"@);
            lemma_uuid_roundtrip(workflow_id.0);
            lemma_uuid_roundtrip(workflow_run_id.0);
            match rerun_of_workflow_run_id {
                Some(r) => {
                    lemma_uuid_roundtrip(r.0);
                },
                None => {},
            }
            assert(spec_decode_request(spec_encode_request(m)) == Some(m));
        },
        WorkerEventV::PollWorkflow { name } => {
            reveal_strlit("RegisterWorkflow");
            reveal_strlit("RegisterActivity");
            reveal_strlit("EnqueuWorkflow");
            reveal_strlit("EnqueuActivity");
            reveal_strlit("CompleteWorkflow");
            reveal_strlit("PollWorkflow");
            reveal_strlit("name");
            assert(("RegisterWorkflow"@).len() == 16);
            assert(("RegisterActivity"@).len() == 16);
            assert(("EnqueuWorkflow"@).len() == 14);
            assert(("EnqueuActivity"@).len() == 14);
            assert(("CompleteWorkflow"@).len() == 16);
            assert(("PollWorkflow"@).len() == 12);
            let fs = spec_encode_request(m)->Tagged_1;
            assert(fs[0].0 == "name"@);
            lemma_obj_get_skip(fs, 0, "name"@);
            assert(spec_decode_request(spec_encode_request(m)) == Some(m));
        },
        WorkerEventV::PollWorkflowCompletion { workflow_run_id } => {
            reveal_strlit("RegisterWorkflow");
            reveal_strlit("RegisterActivity");
            reveal_strlit("EnqueuWorkflow");
            reveal_strlit("EnqueuActivity");
            reveal_strlit("CompleteWorkflow");
            reveal_strlit("PollWorkflow");
            reveal_strlit("PollWorkflowCompletion");
            reveal_strlit("workflow_run_id");
            assert(("RegisterWorkflow"@).len() == 16);
            assert(("RegisterActivity"@).len() == 16);
            assert(("EnqueuWorkflow"@).len() == 14);
            assert(("EnqueuActivity"@).len() == 14);
            assert(("CompleteWorkflow"@).len() == 16);
            assert(("PollWorkflow"@).len() == 12);
            assert(("PollWorkflowCompletion"@).len() == 22);
            let fs = spec_encode_request(m)->Tagged_1;
            assert(fs[0].0 == "workflow_run_id"@);
            lemma_obj_get_skip(fs, 0, "workflow_run_id"@);
            lemma_uuid_roundtrip(workflow_run_id.0);
            assert(spec_decode_request(spec_encode_request(m)) == Some(m));
        },
        WorkerEventV::CompleteActivity {
            result,
            error,
            activity_id,
            activity_run_id,
            workflow_run_id,
            max_attempts,
            attempt_number,
        } => {
            reveal_strlit("RegisterWorkflow");
            reveal_strlit("RegisterActivity");
            reveal_strlit("EnqueuWorkflow");
            reveal_strlit("EnqueuActivity");
            reveal_strlit("CompleteWorkflow");
            reveal_strlit("PollWorkflow");
            reveal_strlit("PollWorkflowCompletion");
            reveal_strlit("CompleteActivity");
            reveal_strlit("result");
            reveal_strlit("error");
            reveal_strlit("activity_id");
            reveal_strlit("activity_run_id");
            reveal_strlit("workflow_run_id");
            reveal_strlit("max_attempts");
            reveal_strlit("attempt_number");
            assert(("CompleteActivity"@)[0] == 'C');
            assert(("RegisterWorkflow"@)[0] == 'R');
            assert(("RegisterActivity"@)[0] == 'R');
            assert(("CompleteWorkflow"@)[8] == 'W');
            assert(("CompleteActivity"@)[8] == 'A');
            let fs = spec_encode_request(m)->Tagged_1;
            assert(fs[0].0 == "result"@);
            assert(fs[1].0 == "error"@);
            assert(fs[2].0 == "activity_id"@);
            assert(fs[3].0 == "activity_run_id"@);
            assert(fs[4].0 == "workflow_run_id"@);
            assert(fs[5].0 == "max_attempts"@);
            assert(fs[6].0 == "attempt_number"@);
            lemma_obj_get_skip(fs, 0, "result"@);
            lemma_obj_get_skip(fs, 1, "error"@);
            lemma_obj_get_skip(fs, 2, "activity_id"@);
            lemma_obj_get_skip(fs, 3, "activity_run_id"@);
            assert(("activity_run_id"@)[0] == 'a');
            assert(("workflow_run_id"@)[0] == 'w');
            lemma_obj_get_skip(fs, 4, "workflow_run_id"@);
            lemma_obj_get_skip(fs, 5, "max_attempts"@);
            lemma_obj_get_skip(fs, 6, "attempt_number"@);
            lemma_uuid_roundtrip(activity_id.0);
            lemma_uuid_roundtrip(activity_run_id.0);
            lemma_uuid_roundtrip(workflow_run_id.0);
            assert(spec_decode_request(spec_encode_request(m)) == Some(m));
        },
        WorkerEventV::PollActivity { name } => {
            reveal_strlit("RegisterWorkflow");
            reveal_strlit("RegisterActivity");
            reveal_strlit("EnqueuWorkflow");
            reveal_strlit("EnqueuActivity");
            reveal_strlit("CompleteWorkflow");
            reveal_strlit("PollWorkflow");
            reveal_strlit("PollWorkflowCompletion");
            reveal_strlit("CompleteActivity");
            reveal_strlit("PollActivity");
            reveal_strlit("name");
            assert(("PollWorkflow"@)[4] == 'W');
            assert(("PollActivity"@)[4] == 'A');
            let fs = spec_encode_request(m)->Tagged_1;
            assert(fs[0].0 == "name"@);
            lemma_obj_get_skip(fs, 0, "name"@);
            assert(spec_decode_request(spec_encode_request(m)) == Some(m));
        },
        WorkerEventV::PollActivityCompletion { activity_run_id } => {
            reveal_strlit("RegisterWorkflow");
            reveal_strlit("RegisterActivity");
            reveal_strlit("EnqueuWorkflow");
            reveal_strlit("EnqueuActivity");
            reveal_strlit("CompleteWorkflow");
            reveal_strlit("PollWorkflow");
            reveal_strlit("PollWorkflowCompletion");
            reveal_strlit("CompleteActivity");
            reveal_strlit("PollActivity");
            reveal_strlit("PollActivityCompletion");
            reveal_strlit("activity_run_id");
            assert(("PollWorkflowCompletion"@)[4] == 'W');
            assert(("PollActivityCompletion"@)[4] == 'A');
            assert(("RegisterWorkflow"@).len() == 16);
            assert(("RegisterActivity"@).len() == 16);
            assert(("EnqueuWorkflow"@).len() == 14);
            assert(("EnqueuActivity"@).len() == 14);
            assert(("CompleteWorkflow"@).len() == 16);
            assert(("PollWorkflow"@).len() == 12);
            assert(("PollWorkflowCompletion"@).len() == 22);
            assert(("CompleteActivity"@).len() == 16);
            assert(("PollActivity"@).len() == 12);
            assert(("PollActivityCompletion"@).len() == 22);
            let fs = spec_encode_request(m)->Tagged_1;
            assert(fs[0].0 == "activity_run_id"@);
            lemma_obj_get_skip(fs, 0, "activity_run_id"@);
            lemma_uuid_roundtrip(activity_run_id.0);
            assert(spec_decode_request(spec_encode_request(m)) == Some(m));
        },
    }
}

/// Builds the wire form of a worker request.
pub fn encode_request(e: &WorkerEvent) -> (r: Envelope)
    ensures
        r@ == spec_encode_request(e@),
{
    match e {
        WorkerEvent::RegisterWorkflow { name } => {
            let mut fields: Vec<JsonField> = Vec::new();
            fields.push(str_field("name", name.0.clone()));
            let env = Envelope::Tagged { tag: "RegisterWorkflow".to_owned(), fields };
            proof {
                assert(env@->Tagged_1 =~= spec_encode_request(e@)->Tagged_1);
            }
            env
        },
        WorkerEvent::RegisterActivity { name } => {
            let mut fields: Vec<JsonField> = Vec::new();
            fields.push(str_field("name", name.0.clone()));
            let env = Envelope::Tagged { tag: "RegisterActivity".to_owned(), fields };
            proof {
                assert(env@->Tagged_1 =~= spec_encode_request(e@)->Tagged_1);
            }
            env
        },
        WorkerEvent::EnqueueWorkflow { name, input, workflow_run_id } => {
            let mut fields: Vec<JsonField> = Vec::new();
            fields.push(str_field("name", name.0.clone()));
            fields.push(str_field("input", input.clone()));
            fields.push(uuid_field("workflow_run_id", workflow_run_id.0));
            let env = Envelope::Tagged { tag: "EnqueuWorkflow".to_owned(), fields };
            proof {
                assert(env@->Tagged_1 =~= spec_encode_request(e@)->Tagged_1);
            }
            env
        },
        WorkerEvent::EnqueueActivity {
            name,
            input,
            activity_run_id,
            workflow_run_id,
            max_attempts,
        } => {
            let mut fields: Vec<JsonField> = Vec::new();
            fields.push(str_field("name", name.0.clone()));
            fields.push(str_field("input", input.clone()));
            fields.push(uuid_field("activity_run_id", activity_run_id.0));
            fields.push(uuid_field("workflow_run_id", workflow_run_id.0));
            fields.push(num_field("max_attempts", *max_attempts));
            let env = Envelope::Tagged { tag: "EnqueuActivity".to_owned(), fields };
            proof {
                assert(env@->Tagged_1 =~= spec_encode_request(e@)->Tagged_1);
            }
            env
        },
        WorkerEvent::CompleteWorkflow {
            result,
            error,
            workflow_id,
            workflow_run_id,
            rerun_of_workflow_run_id,
        } => {
            let mut fields: Vec<JsonField> = Vec::new();
            fields.push(str_field("result", result.clone()));
            fields.push(str_field("error", error.clone()));
            fields.push(uuid_field("workflow_id", workflow_id.0));
            fields.push(uuid_field("workflow_run_id", workflow_run_id.0));
            let rr: Option<u128> = match rerun_of_workflow_run_id {
                Some(r) => Some(r.0),
                None => None,
            };
            fields.push(opt_uuid_field("rerun_of_workflow_run_id", rr));
            let env = Envelope::Tagged { tag: "CompleteWorkflow".to_owned(), fields };
            proof {
                assert(env@->Tagged_1 =~= spec_encode_request(e@)->Tagged_1);
            }
            env
        },
        WorkerEvent::PollWorkflow { name } => {
            let mut fields: Vec<JsonField> = Vec::new();
            fields.push(str_field("name", name.0.clone()));
            let env = Envelope::Tagged { tag: "PollWorkflow".to_owned(), fields };
            proof {
                assert(env@->Tagged_1 =~= spec_encode_request(e@)->Tagged_1);
            }
            env
        },
        WorkerEvent::PollWorkflowCompletion { workflow_run_id } => {
            let mut fields: Vec<JsonField> = Vec::new();
            fields.push(uuid_field("workflow_run_id", workflow_run_id.0));
            let env = Envelope::Tagged { tag: "PollWorkflowCompletion".to_owned(), fields };
            proof {
                assert(env@->Tagged_1 =~= spec_encode_request(e@)->Tagged_1);
            }
            env
        },
        WorkerEvent::CompleteActivity {
            result,
            error,
            activity_id,
            activity_run_id,
            workflow_run_id,
            max_attempts,
            attempt_number,
        } => {
            let mut fields: Vec<JsonField> = Vec::new();
            fields.push(str_field("result", result.clone()));
            fields.push(str_field("error", error.clone()));
            fields.push(uuid_field("activity_id", activity_id.0));
            fields.push(uuid_field("activity_run_id", activity_run_id.0));
            fields.push(uuid_field("workflow_run_id", workflow_run_id.0));
            fields.push(num_field("max_attempts", *max_attempts));
            fields.push(num_field("attempt_number", *attempt_number));
            let env = Envelope::Tagged { tag: "CompleteActivity".to_owned(), fields };
            proof {
                assert(env@->Tagged_1 =~= spec_encode_request(e@)->Tagged_1);
            }
            env
        },
        WorkerEvent::PollActivity { name } => {
            let mut fields: Vec<JsonField> = Vec::new();
            fields.push(str_field("name", name.0.clone()));
            let env = Envelope::Tagged { tag: "PollActivity".to_owned(), fields };
            proof {
                assert(env@->Tagged_1 =~= spec_encode_request(e@)->Tagged_1);
            }
            env
        },
        WorkerEvent::PollActivityCompletion { activity_run_id } => {
            let mut fields: Vec<JsonField> = Vec::new();
            fields.push(uuid_field("activity_run_id", activity_run_id.0));
            let env = Envelope::Tagged { tag: "PollActivityCompletion".to_owned(), fields };
            proof {
                assert(env@->Tagged_1 =~= spec_encode_request(e@)->Tagged_1);
            }
            env
        },
    }
}

/// Reads a worker request out of a wire message, refusing anything
/// malformed.
pub fn decode_request(v: &Envelope) -> (r: Option<WorkerEvent>)
    ensures
        match r {
            Some(ev) => spec_decode_request(v@) == Some(ev@),
            None => spec_decode_request(v@) is None,
        },
{
    match v {
        Envelope::Tagged { tag, fields } => {
            if str_eq(tag.as_str(), "RegisterWorkflow") {
                match get_str_field(fields, "name") {
                    Some(n) => Some(WorkerEvent::RegisterWorkflow { name: WorkflowName(n) }),
                    None => None,
                }
            } else if str_eq(tag.as_str(), "RegisterActivity") {
                match get_str_field(fields, "name") {
                    Some(n) => Some(WorkerEvent::RegisterActivity { name: ActivityName(n) }),
                    None => None,
                }
            } else if str_eq(tag.as_str(), "EnqueuWorkflow") {
                let n = get_str_field(fields, "name");
                let i = get_str_field(fields, "input");
                let wr = get_uuid_field(fields, "workflow_run_id");
                match (n, i, wr) {
                    (Some(n), Some(i), Some(wr)) => Some(
                        WorkerEvent::EnqueueWorkflow {
                            name: WorkflowName(n),
                            input: i,
                            workflow_run_id: WorkflowRunId(wr),
                        },
                    ),
                    _ => None,
                }
            } else if str_eq(tag.as_str(), "EnqueuActivity") {
                let n = get_str_field(fields, "name");
                let i = get_str_field(fields, "input");
                let ar = get_uuid_field(fields, "activity_run_id");
                let wr = get_uuid_field(fields, "workflow_run_id");
                let ma = get_num_field(fields, "max_attempts");
                match (n, i, ar, wr, ma) {
                    (Some(n), Some(i), Some(ar), Some(wr), Some(ma)) => Some(
                        WorkerEvent::EnqueueActivity {
                            name: ActivityName(n),
                            input: i,
                            activity_run_id: ActivityRunId(ar),
                            workflow_run_id: WorkflowRunId(wr),
                            max_attempts: ma,
                        },
                    ),
                    _ => None,
                }
            } else if str_eq(tag.as_str(), "CompleteWorkflow") {
                let res = get_str_field(fields, "result");
                let err = get_str_field(fields, "error");
                let wid = get_uuid_field(fields, "workflow_id");
                let wr = get_uuid_field(fields, "workflow_run_id");
                let rr = get_opt_uuid_field(fields, "rerun_of_workflow_run_id");
                match (res, err, wid, wr, rr) {
                    (Some(res), Some(err), Some(wid), Some(wr), Some(rr)) => Some(
                        WorkerEvent::CompleteWorkflow {
                            result: res,
                            error: err,
                            workflow_id: WorkflowId(wid),
                            workflow_run_id: WorkflowRunId(wr),
                            rerun_of_workflow_run_id: match rr {
                                Some(r0) => Some(WorkflowRunId(r0)),
                                None => None,
                            },
                        },
                    ),
                    _ => None,
                }
            } else if str_eq(tag.as_str(), "PollWorkflow") {
                match get_str_field(fields, "name") {
                    Some(n) => Some(WorkerEvent::PollWorkflow { name: WorkflowName(n) }),
                    None => None,
                }
            } else if str_eq(tag.as_str(), "PollWorkflowCompletion") {
                match get_uuid_field(fields, "workflow_run_id") {
                    Some(wr) => Some(
                        WorkerEvent::PollWorkflowCompletion {
                            workflow_run_id: WorkflowRunId(wr),
                        },
                    ),
                    None => None,
                }
            } else if str_eq(tag.as_str(), "CompleteActivity") {
                let res = get_str_field(fields, "result");
                let err = get_str_field(fields, "error");
                let aid = get_uuid_field(fields, "activity_id");
                let ar = get_uuid_field(fields, "activity_run_id");
                let wr = get_uuid_field(fields, "workflow_run_id");
                let ma = get_num_field(fields, "max_attempts");
                let an = get_num_field(fields, "attempt_number");
                match (res, err, aid, ar, wr, ma, an) {
                    (Some(res), Some(err), Some(aid), Some(ar), Some(wr), Some(ma), Some(an)) => (
                    Some(
                        WorkerEvent::CompleteActivity {
                            result: res,
                            error: err,
                            activity_id: ActivityId(aid),
                            activity_run_id: ActivityRunId(ar),
                            workflow_run_id: WorkflowRunId(wr),
                            max_attempts: ma,
                            attempt_number: an,
                        },
                    )),
                    _ => None,
                }
            } else if str_eq(tag.as_str(), "PollActivity") {
                match get_str_field(fields, "name") {
                    Some(n) => Some(WorkerEvent::PollActivity { name: ActivityName(n) }),
                    None => None,
                }
            } else if str_eq(tag.as_str(), "PollActivityCompletion") {
                match get_uuid_field(fields, "activity_run_id") {
                    Some(ar) => Some(
                        WorkerEvent::PollActivityCompletion {
                            activity_run_id: ActivityRunId(ar),
                        },
                    ),
                    None => None,
                }
            } else {
                None
            }
        },
        _ => None,
    }
}

/// The wire form of a server response. The unit refusal travels as the
/// bare string `NotFound`.
pub open spec fn spec_encode_response(m: ServerEventV) -> EnvelopeV {
    match m {
        ServerEventV::PollWorkflowResponse(p) => EnvelopeV::Tagged(
            "PollWorkflowResponse"@,
            seq![
                ("workflow_run_id"@, JsonValueV::Str(uuid_seq(p.workflow_run_id.0))),
                (
                    "rerun_of_workflow_run_id"@,
                    match p.rerun_of_workflow_run_id {
                        Some(r) => JsonValueV::Str(uuid_seq(r.0)),
                        None => JsonValueV::Null,
                    },
                ),
                ("workflow_id"@, JsonValueV::Str(uuid_seq(p.workflow_id.0))),
                ("name"@, JsonValueV::Str(p.name)),
                ("input"@, JsonValueV::Str(p.input)),
            ],
        ),
        ServerEventV::PollActivityResponse(p) => EnvelopeV::Tagged(
            "PollActivityResponse"@,
            seq![
                ("activity_run_id"@, JsonValueV::Str(uuid_seq(p.activity_run_id.0))),
                ("workflow_run_id"@, JsonValueV::Str(uuid_seq(p.workflow_run_id.0))),
                ("activity_id"@, JsonValueV::Str(uuid_seq(p.activity_id.0))),
                ("name"@, JsonValueV::Str(p.name)),
                ("input"@, JsonValueV::Str(p.input)),
                ("max_attempts"@, JsonValueV::Num(p.max_attempts)),
                ("attempt_number"@, JsonValueV::Num(p.attempt_number)),
            ],
        ),
        ServerEventV::PollWorkflowCompletion(c) => EnvelopeV::Tagged(
            "PollWorkflowCompletion"@,
            seq![
                ("workflow_run_id"@, JsonValueV::Str(uuid_seq(c.workflow_run_id.0))),
                ("result"@, JsonValueV::Str(c.result)),
                ("error"@, JsonValueV::Str(c.error)),
            ],
        ),
        ServerEventV::PollActivityCompletion(c) => EnvelopeV::Tagged(
            "PollActivityCompletion"@,
            seq![
                ("activity_run_id"@, JsonValueV::Str(uuid_seq(c.activity_run_id.0))),
                ("result"@, JsonValueV::Str(c.result)),
                ("error"@, JsonValueV::Str(c.error)),
            ],
        ),
        ServerEventV::GeneralSuccess { success } => EnvelopeV::Tagged(
            "GeneralSuccess"@,
            seq![("success"@, JsonValueV::Bool(success))],
        ),
        ServerEventV::NotFound => EnvelopeV::Text("NotFound"@),
    }
}

/// The server response a wire message denotes, if any.
pub open spec fn spec_decode_response(v: EnvelopeV) -> Option<ServerEventV> {
    match v {
        EnvelopeV::Tagged(tag, fs) => {
            if tag == "PollWorkflowResponse"@ {
                match (get_uuid(fs, "workflow_run_id"@), get_opt_uuid(
                    fs,
                    "rerun_of_workflow_run_id"@,
                ), get_uuid(fs, "workflow_id"@), get_str(fs, "name"@), get_str(fs, "input"@)) {
                    (Some(wr), Some(rr), Some(wid), Some(n), Some(i)) => Some(
                        ServerEventV::PollWorkflowResponse(
                            PollWorkflowResponseV {
                                workflow_run_id: WorkflowRunId(wr),
                                rerun_of_workflow_run_id: match rr {
                                    Some(r0) => Some(WorkflowRunId(r0)),
                                    None => None,
                                },
                                workflow_id: WorkflowId(wid),
                                name: n,
                                input: i,
                            },
                        ),
                    ),
                    _ => None,
                }
            } else if tag == "PollActivityResponse"@ {
                match (get_uuid(fs, "activity_run_id"@), get_uuid(fs, "workflow_run_id"@), get_uuid(
                    fs,
                    "activity_id"@,
                ), get_str(fs, "name"@), get_str(fs, "input"@), get_num(fs, "max_attempts"@),
                get_num(fs, "attempt_number"@)) {
                    (Some(ar), Some(wr), Some(aid), Some(n), Some(i), Some(ma), Some(an)) => Some(
                        ServerEventV::PollActivityResponse(
                            PollActivityResponseV {
                                activity_run_id: ActivityRunId(ar),
                                workflow_run_id: WorkflowRunId(wr),
                                activity_id: ActivityId(aid),
                                name: n,
                                input: i,
                                max_attempts: ma,
                                attempt_number: an,
                            },
                        ),
                    ),
                    _ => None,
                }
            } else if tag == "PollWorkflowCompletion"@ {
                match (get_uuid(fs, "workflow_run_id"@), get_str(fs, "result"@), get_str(
                    fs,
                    "error"@,
                )) {
                    (Some(wr), Some(res), Some(err)) => Some(
                        ServerEventV::PollWorkflowCompletion(
                            PollWorkflowCompletionV {
                                workflow_run_id: WorkflowRunId(wr),
                                result: res,
                                error: err,
                            },
                        ),
                    ),
                    _ => None,
                }
            } else if tag == "PollActivityCompletion"@ {
                match (get_uuid(fs, "activity_run_id"@), get_str(fs, "result"@), get_str(
                    fs,
                    "error"@,
                )) {
                    (Some(ar), Some(res), Some(err)) => Some(
                        ServerEventV::PollActivityCompletion(
                            PollActivityCompletionV {
                                activity_run_id: ActivityRunId(ar),
                                result: res,
                                error: err,
                            },
                        ),
                    ),
                    _ => None,
                }
            } else if tag == "GeneralSuccess"@ {
                match get_bool(fs, "success"@) {
                    Some(b) => Some(ServerEventV::GeneralSuccess { success: b }),
                    None => None,
                }
            } else {
                None
            }
        },
        EnvelopeV::Text(s) => {
            if s == "NotFound"@ {
                Some(ServerEventV::NotFound)
            } else {
                None
            }
        },
        _ => None,
    }
}

/// Decoding an encoded server response gives the response back.
#[verifier::rlimit(80)]
pub proof fn lemma_response_roundtrip(m: ServerEventV)
    ensures
        spec_decode_response(spec_encode_response(m)) == Some(m),
{
    match m {
        ServerEventV::PollWorkflowResponse(p) => {
            reveal_strlit("PollWorkflowResponse");
            reveal_strlit("workflow_run_id");
            reveal_strlit("rerun_of_workflow_run_id");
            reveal_strlit("workflow_id");
            reveal_strlit("name");
            reveal_strlit("input");
            let fs = spec_encode_response(m)->Tagged_1;
            assert(fs[0].0 == "workflow_run_id"@);
            assert(fs[1].0 == "rerun_of_workflow_run_id"@);
            assert(fs[2].0 == "workflow_id"@);
            assert(fs[3].0 == "name"@);
            assert(fs[4].0 == "input"@);
            assert(("workflow_run_id"@).len() == 15);
            assert(("rerun_of_workflow_run_id"@).len() == 24);
            assert(("workflow_id"@).len() == 11);
            assert(("name"@).len() == 4);
            assert(("input"@).len() == 5);
            lemma_obj_get_skip(fs, 0, "workflow_run_id"@);
            lemma_obj_get_skip(fs, 1, "rerun_of_workflow_run_id"@);
            lemma_obj_get_skip(fs, 2, "workflow_id"@);
            lemma_obj_get_skip(fs, 3, "name"@);
            lemma_obj_get_skip(fs, 4, "input"@);
            lemma_uuid_roundtrip(p.workflow_run_id.0);
            lemma_uuid_roundtrip(p.workflow_id.0);
            match p.rerun_of_workflow_run_id {
                Some(r) => {
                    lemma_uuid_roundtrip(r.0);
                },
                None => {},
            }
            assert(spec_decode_response(spec_encode_response(m)) == Some(m));
        },
        ServerEventV::PollActivityResponse(p) => {
            reveal_strlit("PollWorkflowResponse");
            reveal_strlit("PollActivityResponse");
            reveal_strlit("activity_run_id");
            reveal_strlit("workflow_run_id");
            reveal_strlit("activity_id");
            reveal_strlit("name");
            reveal_strlit("input");
            reveal_strlit("max_attempts");
            reveal_strlit("attempt_number");
            assert(("PollWorkflowResponse"@)[4] == 'W');
            assert(("PollActivityResponse"@)[4] == 'A');
            let fs = spec_encode_response(m)->Tagged_1;
            assert(fs[0].0 == "activity_run_id"@);
            assert(fs[1].0 == "workflow_run_id"@);
            assert(fs[2].0 == "activity_id"@);
            assert(fs[3].0 == "name"@);
            assert(fs[4].0 == "input"@);
            assert(fs[5].0 == "max_attempts"@);
            assert(fs[6].0 == "attempt_number"@);
            assert(("activity_run_id"@)[0] == 'a');
            assert(("workflow_run_id"@)[0] == 'w');
            assert(("activity_run_id"@).len() == 15);
            assert(("workflow_run_id"@).len() == 15);
            assert(("activity_id"@).len() == 11);
            assert(("name"@).len() == 4);
            assert(("input"@).len() == 5);
            assert(("max_attempts"@).len() == 12);
            assert(("attempt_number"@).len() == 14);
            lemma_obj_get_skip(fs, 0, "activity_run_id"@);
            lemma_obj_get_skip(fs, 1, "workflow_run_id"@);
            lemma_obj_get_skip(fs, 2, "activity_id"@);
            lemma_obj_get_skip(fs, 3, "name"@);
            lemma_obj_get_skip(fs, 4, "input"@);
            lemma_obj_get_skip(fs, 5, "max_attempts"@);
            lemma_obj_get_skip(fs, 6, "attempt_number"@);
            lemma_uuid_roundtrip(p.activity_run_id.0);
            lemma_uuid_roundtrip(p.workflow_run_id.0);
            lemma_uuid_roundtrip(p.activity_id.0);
            assert(spec_decode_response(spec_encode_response(m)) == Some(m));
        },
        ServerEventV::PollWorkflowCompletion(c) => {
            reveal_strlit("PollWorkflowResponse");
            reveal_strlit("PollActivityResponse");
            reveal_strlit("PollWorkflowCompletion");
            reveal_strlit("workflow_run_id");
            reveal_strlit("result");
            reveal_strlit("error");
            assert(("PollWorkflowResponse"@).len() == 20);
            assert(("PollActivityResponse"@).len() == 20);
            assert(("PollWorkflowCompletion"@).len() == 22);
            let fs = spec_encode_response(m)->Tagged_1;
            assert(fs[0].0 == "workflow_run_id"@);
            assert(fs[1].0 == "result"@);
            assert(fs[2].0 == "error"@);
            assert(("workflow_run_id"@).len() == 15);
            assert(("result"@).len() == 6);
            assert(("error"@).len() == 5);
            lemma_obj_get_skip(fs, 0, "workflow_run_id"@);
            lemma_obj_get_skip(fs, 1, "result"@);
            lemma_obj_get_skip(fs, 2, "error"@);
            lemma_uuid_roundtrip(c.workflow_run_id.0);
            assert(spec_decode_response(spec_encode_response(m)) == Some(m));
        },
        ServerEventV::PollActivityCompletion(c) => {
            reveal_strlit("PollWorkflowResponse");
            reveal_strlit("PollActivityResponse");
            reveal_strlit("PollWorkflowCompletion");
            reveal_strlit("PollActivityCompletion");
            reveal_strlit("activity_run_id");
            reveal_strlit("result");
            reveal_strlit("error");
            assert(("PollWorkflowResponse"@).len() == 20);
            assert(("PollActivityResponse"@).len() == 20);
            assert(("PollWorkflowCompletion"@).len() == 22);
            assert(("PollActivityCompletion"@).len() == 22);
            assert(("PollWorkflowCompletion"@)[4] == 'W');
            assert(("PollActivityCompletion"@)[4] == 'A');
            let fs = spec_encode_response(m)->Tagged_1;
            assert(fs[0].0 == "activity_run_id"@);
            assert(fs[1].0 == "result"@);
            assert(fs[2].0 == "error"@);
            assert(("activity_run_id"@).len() == 15);
            assert(("result"@).len() == 6);
            assert(("error"@).len() == 5);
            lemma_obj_get_skip(fs, 0, "activity_run_id"@);
            lemma_obj_get_skip(fs, 1, "result"@);
            lemma_obj_get_skip(fs, 2, "error"@);
            lemma_uuid_roundtrip(c.activity_run_id.0);
            assert(spec_decode_response(spec_encode_response(m)) == Some(m));
        },
        ServerEventV::GeneralSuccess { success } => {
            reveal_strlit("PollWorkflowResponse");
            reveal_strlit("PollActivityResponse");
            reveal_strlit("PollWorkflowCompletion");
            reveal_strlit("PollActivityCompletion");
            reveal_strlit("GeneralSuccess");
            reveal_strlit("success");
            assert(("PollWorkflowResponse"@).len() == 20);
            assert(("PollActivityResponse"@).len() == 20);
            assert(("PollWorkflowCompletion"@).len() == 22);
            assert(("PollActivityCompletion"@).len() == 22);
            assert(("GeneralSuccess"@).len() == 14);
            let fs = spec_encode_response(m)->Tagged_1;
            assert(fs[0].0 == "success"@);
            lemma_obj_get_skip(fs, 0, "success"@);
            assert(spec_decode_response(spec_encode_response(m)) == Some(m));
        },
        ServerEventV::NotFound => {
            assert(spec_decode_response(spec_encode_response(m)) == Some(m));
        },
    }
}

/// Builds the wire form of a server response.
pub fn encode_response(e: &ServerEvent) -> (r: Envelope)
    ensures
        r@ == spec_encode_response(e@),
{
    match e {
        ServerEvent::PollWorkflowResponse(p) => {
            let mut fields: Vec<JsonField> = Vec::new();
            fields.push(uuid_field("workflow_run_id", p.workflow_run_id.0));
            let rr: Option<u128> = match &p.rerun_of_workflow_run_id {
                Some(r) => Some(r.0),
                None => None,
            };
            fields.push(opt_uuid_field("rerun_of_workflow_run_id", rr));
            fields.push(uuid_field("workflow_id", p.workflow_id.0));
            fields.push(str_field("name", p.name.0.clone()));
            fields.push(str_field("input", p.input.clone()));
            let env = Envelope::Tagged { tag: "PollWorkflowResponse".to_owned(), fields };
            proof {
                assert(env@->Tagged_1 =~= spec_encode_response(e@)->Tagged_1);
            }
            env
        },
        ServerEvent::PollActivityResponse(p) => {
            let mut fields: Vec<JsonField> = Vec::new();
            fields.push(uuid_field("activity_run_id", p.activity_run_id.0));
            fields.push(uuid_field("workflow_run_id", p.workflow_run_id.0));
            fields.push(uuid_field("activity_id", p.activity_id.0));
            fields.push(str_field("name", p.name.0.clone()));
            fields.push(str_field("input", p.input.clone()));
            fields.push(num_field("max_attempts", p.max_attempts));
            fields.push(num_field("attempt_number", p.attempt_number));
            let env = Envelope::Tagged { tag: "PollActivityResponse".to_owned(), fields };
            proof {
                assert(env@->Tagged_1 =~= spec_encode_response(e@)->Tagged_1);
            }
            env
        },
        ServerEvent::PollWorkflowCompletion(c) => {
            let mut fields: Vec<JsonField> = Vec::new();
            fields.push(uuid_field("workflow_run_id", c.workflow_run_id.0));
            fields.push(str_field("result", c.result.clone()));
            fields.push(str_field("error", c.error.clone()));
            let env = Envelope::Tagged { tag: "PollWorkflowCompletion".to_owned(), fields };
            proof {
                assert(env@->Tagged_1 =~= spec_encode_response(e@)->Tagged_1);
            }
            env
        },
        ServerEvent::PollActivityCompletion(c) => {
            let mut fields: Vec<JsonField> = Vec::new();
            fields.push(uuid_field("activity_run_id", c.activity_run_id.0));
            fields.push(str_field("result", c.result.clone()));
            fields.push(str_field("error", c.error.clone()));
            let env = Envelope::Tagged { tag: "PollActivityCompletion".to_owned(), fields };
            proof {
                assert(env@->Tagged_1 =~= spec_encode_response(e@)->Tagged_1);
            }
            env
        },
        ServerEvent::GeneralSuccess { success } => {
            let mut fields: Vec<JsonField> = Vec::new();
            fields.push(JsonField { key: "success".to_owned(), value: JsonValue::JBool(*success) });
            let env = Envelope::Tagged { tag: "GeneralSuccess".to_owned(), fields };
            proof {
                assert(env@->Tagged_1 =~= spec_encode_response(e@)->Tagged_1);
            }
            env
        },
        ServerEvent::NotFound => Envelope::Text("NotFound".to_owned()),
    }
}

/// Reads a server response out of a wire message, refusing anything
/// malformed.
pub fn decode_response(v: &Envelope) -> (r: Option<ServerEvent>)
    ensures
        match r {
            Some(ev) => spec_decode_response(v@) == Some(ev@),
            None => spec_decode_response(v@) is None,
        },
{
    match v {
        Envelope::Tagged { tag, fields } => {
            if str_eq(tag.as_str(), "PollWorkflowResponse") {
                let wr = get_uuid_field(fields, "workflow_run_id");
                let rr = get_opt_uuid_field(fields, "rerun_of_workflow_run_id");
                let wid = get_uuid_field(fields, "workflow_id");
                let n = get_str_field(fields, "name");
                let i = get_str_field(fields, "input");
                match (wr, rr, wid, n, i) {
                    (Some(wr), Some(rr), Some(wid), Some(n), Some(i)) => Some(
                        ServerEvent::PollWorkflowResponse(
                            PollWorkflowResponse {
                                workflow_run_id: WorkflowRunId(wr),
                                rerun_of_workflow_run_id: match rr {
                                    Some(r0) => Some(WorkflowRunId(r0)),
                                    None => None,
                                },
                                workflow_id: WorkflowId(wid),
                                name: WorkflowName(n),
                                input: i,
                            },
                        ),
                    ),
                    _ => None,
                }
            } else if str_eq(tag.as_str(), "PollActivityResponse") {
                let ar = get_uuid_field(fields, "activity_run_id");
                let wr = get_uuid_field(fields, "workflow_run_id");
                let aid = get_uuid_field(fields, "activity_id");
                let n = get_str_field(fields, "name");
                let i = get_str_field(fields, "input");
                let ma = get_num_field(fields, "max_attempts");
                let an = get_num_field(fields, "attempt_number");
                match (ar, wr, aid, n, i, ma, an) {
                    (Some(ar), Some(wr), Some(aid), Some(n), Some(i), Some(ma), Some(an)) => Some(
                        ServerEvent::PollActivityResponse(
                            PollActivityResponse {
                                activity_run_id: ActivityRunId(ar),
                                workflow_run_id: WorkflowRunId(wr),
                                activity_id: ActivityId(aid),
                                name: ActivityName(n),
                                input: i,
                                max_attempts: ma,
                                attempt_number: an,
                            },
                        ),
                    ),
                    _ => None,
                }
            } else if str_eq(tag.as_str(), "PollWorkflowCompletion") {
                let wr = get_uuid_field(fields, "workflow_run_id");
                let res = get_str_field(fields, "result");
                let err = get_str_field(fields, "error");
                match (wr, res, err) {
                    (Some(wr), Some(res), Some(err)) => Some(
                        ServerEvent::PollWorkflowCompletion(
                            PollWorkflowCompletion {
                                workflow_run_id: WorkflowRunId(wr),
                                result: res,
                                error: err,
                            },
                        ),
                    ),
                    _ => None,
                }
            } else if str_eq(tag.as_str(), "PollActivityCompletion") {
                let ar = get_uuid_field(fields, "activity_run_id");
                let res = get_str_field(fields, "result");
                let err = get_str_field(fields, "error");
                match (ar, res, err) {
                    (Some(ar), Some(res), Some(err)) => Some(
                        ServerEvent::PollActivityCompletion(
                            PollActivityCompletion {
                                activity_run_id: ActivityRunId(ar),
                                result: res,
                                error: err,
                            },
                        ),
                    ),
                    _ => None,
                }
            } else if str_eq(tag.as_str(), "GeneralSuccess") {
                match get_bool_field(fields, "success") {
                    Some(b) => Some(ServerEvent::GeneralSuccess { success: b }),
                    None => None,
                }
            } else {
                None
            }
        },
        Envelope::Text(s) => {
            if str_eq(s.as_str(), "NotFound") {
                Some(ServerEvent::NotFound)
            } else {
                None
            }
        },
        _ => None,
    }
}

/// The wire form of a rerun request body: a bare object.
pub open spec fn spec_encode_rerun_payload(m: RerunWorkflowPayloadV) -> EnvelopeV {
    EnvelopeV::Obj(seq![("workflow_run_id"@, JsonValueV::Str(uuid_seq(m.workflow_run_id.0)))])
}

/// The rerun request a wire message denotes, if any.
pub open spec fn spec_decode_rerun_payload(v: EnvelopeV) -> Option<RerunWorkflowPayloadV> {
    match v {
        EnvelopeV::Obj(fs) => match get_uuid(fs, "workflow_run_id"@) {
            Some(wr) => Some(RerunWorkflowPayloadV { workflow_run_id: WorkflowRunId(wr) }),
            None => None,
        },
        _ => None,
    }
}

/// Decoding an encoded rerun request gives the request back.
pub proof fn lemma_rerun_payload_roundtrip(m: RerunWorkflowPayloadV)
    ensures
        spec_decode_rerun_payload(spec_encode_rerun_payload(m)) == Some(m),
{
    let fs = spec_encode_rerun_payload(m)->Obj_0;
    assert(fs[0].0 == "workflow_run_id"@);
    lemma_obj_get_skip(fs, 0, "workflow_run_id"@);
    lemma_uuid_roundtrip(m.workflow_run_id.0);
}

/// Builds the wire form of a rerun request body.
pub fn encode_rerun_payload(p: &RerunWorkflowPayload) -> (r: Envelope)
    ensures
        r@ == spec_encode_rerun_payload(p@),
{
    let mut fields: Vec<JsonField> = Vec::new();
    fields.push(uuid_field("workflow_run_id", p.workflow_run_id.0));
    let env = Envelope::Obj { fields };
    proof {
        assert(env@->Obj_0 =~= spec_encode_rerun_payload(p@)->Obj_0);
    }
    env
}

/// Reads a rerun request out of a wire message.
pub fn decode_rerun_payload(v: &Envelope) -> (r: Option<RerunWorkflowPayload>)
    ensures
        match r {
            Some(p) => spec_decode_rerun_payload(v@) == Some(p@),
            None => spec_decode_rerun_payload(v@) is None,
        },
{
    match v {
        Envelope::Obj { fields } => match get_uuid_field(fields, "workflow_run_id") {
            Some(wr) => Some(RerunWorkflowPayload { workflow_run_id: WorkflowRunId(wr) }),
            None => None,
        },
        _ => None,
    }
}

/// The wire form of a rerun response: a bare object carrying either the
/// fresh run id or the refusal text.
pub open spec fn spec_encode_rerun_response(m: RerunWorkflowResponseV) -> EnvelopeV {
    match m {
        RerunWorkflowResponseV::NewRun { new_workflow_id } => EnvelopeV::Obj(
            seq![("new_workflow_id"@, JsonValueV::Str(uuid_seq(new_workflow_id.0)))],
        ),
        RerunWorkflowResponseV::NotFound => EnvelopeV::Obj(
            seq![("error"@, JsonValueV::Str("workflow not found"@))],
        ),
    }
}

/// The rerun response a wire message denotes, if any.
pub open spec fn spec_decode_rerun_response(v: EnvelopeV) -> Option<RerunWorkflowResponseV> {
    match v {
        EnvelopeV::Obj(fs) => match get_uuid(fs, "new_workflow_id"@) {
            Some(nr) => Some(RerunWorkflowResponseV::NewRun { new_workflow_id: WorkflowRunId(nr) }),
            None => {
                if get_str(fs, "error"@) == Some("workflow not found"@) {
                    Some(RerunWorkflowResponseV::NotFound)
                } else {
                    None
                }
            },
        },
        _ => None,
    }
}

/// Decoding an encoded rerun response gives the response back.
pub proof fn lemma_rerun_response_roundtrip(m: RerunWorkflowResponseV)
    ensures
        spec_decode_rerun_response(spec_encode_rerun_response(m)) == Some(m),
{
    reveal_strlit("new_workflow_id");
    reveal_strlit("error");
    match m {
        RerunWorkflowResponseV::NewRun { new_workflow_id } => {
            let fs = spec_encode_rerun_response(m)->Obj_0;
            assert(fs[0].0 == "new_workflow_id"@);
            lemma_obj_get_skip(fs, 0, "new_workflow_id"@);
            lemma_uuid_roundtrip(new_workflow_id.0);
        },
        RerunWorkflowResponseV::NotFound => {
            let fs = spec_encode_rerun_response(m)->Obj_0;
            assert(fs[0].0 == "error"@);
            assert(("new_workflow_id"@).len() == 15);
            assert(("error"@).len() == 5);
            assert(fs.drop_first() =~= Seq::<(Seq<char>, JsonValueV)>::empty());
            assert(fs[0].0 != "new_workflow_id"@);
            assert(obj_get(fs.drop_first(), "new_workflow_id"@) is None);
            assert(obj_get(fs, "new_workflow_id"@) is None);
            lemma_obj_get_skip(fs, 0, "error"@);
        },
    }
}

/// Builds the wire form of a rerun response.
pub fn encode_rerun_response(e: &RerunWorkflowResponse) -> (r: Envelope)
    ensures
        r@ == spec_encode_rerun_response(e@),
{
    match e {
        RerunWorkflowResponse::NewRun { new_workflow_id } => {
            let mut fields: Vec<JsonField> = Vec::new();
            fields.push(uuid_field("new_workflow_id", new_workflow_id.0));
            let env = Envelope::Obj { fields };
            proof {
                assert(env@->Obj_0 =~= spec_encode_rerun_response(e@)->Obj_0);
            }
            env
        },
        RerunWorkflowResponse::NotFound => {
            let mut fields: Vec<JsonField> = Vec::new();
            fields.push(str_field("error", "workflow not found".to_owned()));
            let env = Envelope::Obj { fields };
            proof {
                assert(env@->Obj_0 =~= spec_encode_rerun_response(e@)->Obj_0);
            }
            env
        },
    }
}

/// Reads a rerun response out of a wire message.
pub fn decode_rerun_response(v: &Envelope) -> (r: Option<RerunWorkflowResponse>)
    ensures
        match r {
            Some(p) => spec_decode_rerun_response(v@) == Some(p@),
            None => spec_decode_rerun_response(v@) is None,
        },
{
    match v {
        Envelope::Obj { fields } => match get_uuid_field(fields, "new_workflow_id") {
            Some(nr) => Some(RerunWorkflowResponse::NewRun { new_workflow_id: WorkflowRunId(nr) }),
            None => match get_str_field(fields, "error") {
                Some(msg) => {
                    if str_eq(msg.as_str(), "workflow not found") {
                        Some(RerunWorkflowResponse::NotFound)
                    } else {
                        None
                    }
                },
                None => None,
            },
        },
        _ => None,
    }
}

} // verus!
