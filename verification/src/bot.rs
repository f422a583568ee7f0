//! One step of the agent protocol, minus the transport.
//!
//! A step is: build a request from a snapshot of working memory and the
//! current tool list; await the backend's response (the caller's I/O);
//! process the response — replay the assistant message, dispatch every
//! tool call, collect one tool-result message per call; commit the whole
//! batch to working memory at once.

use vstd::prelude::*;

use crate::common::{clone_tool_calls, Message, MessageV, ToolCall, ToolCallV, tool_calls_view};
use crate::config::Config;
use crate::json::{Json, JsonV, json_view_fields, json_view_list, lemma_json_view_fields_index,
    lemma_json_view_list_index};
use crate::rpc::{Callable, CallableInfo, Callables, decode_msg, err_envelope, is_envelope,
    not_found_msg, spec_has_name, spec_idx_of, spec_tool_def, ToolDefinition};
use crate::schema::valid;
use crate::text::{json_text, to_json_text};
use crate::working_memory::WorkingMemory;

verus! {

broadcast use vstd::std_specs::vec::group_vec_axioms, vstd::seq::group_seq_axioms;

/// A response message as received from the backend.
pub struct ResponseMessage {
    pub content: Option<String>,
    pub refusal: Option<String>,
    pub audio_id: Option<String>,
    pub tool_calls: Option<Vec<ToolCall>>,
}

pub struct ResponseMessageV {
    pub content: Option<Seq<char>>,
    pub refusal: Option<Seq<char>>,
    pub audio_id: Option<Seq<char>>,
    pub tool_calls: Option<Seq<ToolCallV>>,
}

impl View for ResponseMessage {
    type V = ResponseMessageV;

    open spec fn view(&self) -> ResponseMessageV {
        ResponseMessageV {
            content: crate::common::opt_str_view(self.content),
            refusal: crate::common::opt_str_view(self.refusal),
            audio_id: crate::common::opt_str_view(self.audio_id),
            tool_calls: match self.tool_calls {
                Some(tcs) => Some(tool_calls_view(tcs@)),
                None => None,
            },
        }
    }
}

/// A backend response: its choices, first one authoritative.
pub struct ChatResponse {
    pub choices: Vec<ResponseMessage>,
}

impl View for ChatResponse {
    type V = Seq<ResponseMessageV>;

    open spec fn view(&self) -> Seq<ResponseMessageV> {
        self.choices@.map_values(|m: ResponseMessage| m@)
    }
}

/// The request handed to the backend on every step: the whole history,
/// the whole tool list, and tool invocation set to "required".
pub struct ChatRequest {
    pub model: String,
    pub messages: Vec<Message>,
    pub tools: Vec<ToolDefinition>,
    pub tool_choice_required: bool,
    pub parallel_tool_calls: Option<bool>,
}

/// The unrecoverable protocol failures of one step.
#[derive(Clone, Copy, PartialEq, Eq, Structural, Debug)]
pub enum StepError {
    NoChoices,
    NoToolCalls,
}

/// The assistant message that replays a received response message.
pub open spec fn assistant_of(m: ResponseMessageV) -> MessageV {
    MessageV::Assistant {
        content: m.content,
        refusal: m.refusal,
        audio_id: m.audio_id,
        tool_calls: m.tool_calls,
    }
}

/// Converts a message as received into the shape used to replay history,
/// losing nothing: content, refusal, audio id and tool calls carry over.
pub fn to_request_message(response_message: ResponseMessage) -> (r: Message)
    ensures
        r@ == assistant_of(response_message@),
{
    let ResponseMessage { content, refusal, audio_id, tool_calls } = response_message;
    Message::Assistant { content, refusal, audio_id, tool_calls }
}

/// What one tool-result message must look like for its tool call: the
/// same id, an envelope as content, and the exact error envelope when
/// the name is unregistered or the arguments violate the input contract.
pub open spec fn tool_result_ok(m: MessageV, tc: ToolCallV, reg: Seq<CallableInfo>) -> bool {
    match m {
        MessageV::Tool { content, tool_call_id } => {
            &&& tool_call_id == tc.id
            &&& exists|env: JsonV| is_envelope(env) && content == json_text(env)
            &&& (!spec_has_name(reg, tc.name) ==> content == json_text(
                err_envelope(not_found_msg()),
            ))
            &&& (spec_has_name(reg, tc.name) && !valid(
                reg[spec_idx_of(reg, tc.name)].input_schema,
                tc.arguments,
            ) ==> content == json_text(err_envelope(decode_msg())))
        },
        _ => false,
    }
}

/// Builds the request for one step: a snapshot of all messages, the full
/// tool list, tool choice required, the configured parallel-call flag.
pub fn build_request<C>(
    config: &Config,
    history: &WorkingMemory,
    callables: &Callables<C>,
) -> (r: ChatRequest)
    ensures
        r.model@ == config.openai_model@,
        r.messages@.map_values(|m: Message| m@) == history@,
        r.tools@.len() == callables@.len(),
        forall|i: int|
            0 <= i < r.tools@.len() ==> (#[trigger] r.tools@[i])@ == spec_tool_def(callables@[i]),
        r.tool_choice_required,
        r.parallel_tool_calls == config.parallel_tool_calls,
{
    ChatRequest {
        model: config.openai_model.clone(),
        messages: history.messages(),
        tools: callables.tools(),
        tool_choice_required: true,
        parallel_tool_calls: config.parallel_tool_calls,
    }
}

/// Processes one response: the replayed assistant message followed by
/// exactly one tool-result message per tool call, ids and order
/// matching. A response without choices, or whose first choice has no
/// tool-calls field at all, is fatal; an empty tool-call list yields a
/// batch with the assistant message alone. Dispatch failures do not
/// stop the batch: every later call still runs.
pub fn process_response<C: Callable>(
    callables: &mut Callables<C>,
    response: ChatResponse,
) -> (r: Result<Vec<Message>, StepError>)
    requires
        old(callables).wf(),
    ensures
        final(callables)@ == old(callables)@,
        response@.len() == 0 ==> r == Err::<Vec<Message>, StepError>(StepError::NoChoices),
        response@.len() > 0 && response@[0].tool_calls is None ==> r == Err::<
            Vec<Message>,
            StepError,
        >(StepError::NoToolCalls),
        response@.len() > 0 && response@[0].tool_calls is Some ==> r is Ok && {
            let tcs = response@[0].tool_calls->0;
            let batch = r->Ok_0@.map_values(|m: Message| m@);
            &&& batch.len() == 1 + tcs.len()
            &&& batch[0] == assistant_of(response@[0])
            &&& forall|i: int|
                0 <= i < tcs.len() ==> tool_result_ok(batch[i + 1], tcs[i], old(callables)@)
        },
{
    let ChatResponse { mut choices } = response;
    if choices.len() == 0 {
        return Err(StepError::NoChoices);
    }
    let first = choices.remove(0);
    let ghost first_v = first@;
    proof {
        assert(response@[0] == first_v);
    }
    let ResponseMessage { content, refusal, audio_id, tool_calls } = first;
    match tool_calls {
        None => Err(StepError::NoToolCalls),
        Some(tcs) => {
            let replay = clone_tool_calls(&tcs);
            let assistant = Message::Assistant {
                content,
                refusal,
                audio_id,
                tool_calls: Some(replay),
            };
            proof {
                assert(assistant@ == assistant_of(first_v));
            }
            let ghost reg0 = callables@;
            let ghost tcs_v = tool_calls_view(tcs@);
            let mut batch: Vec<Message> = Vec::new();
            batch.push(assistant);
            let n = tcs.len();
            let mut i: usize = 0;
            while i < n
                invariant
                    n == tcs@.len(),
                    0 <= i <= n,
                    callables@ == reg0,
                    callables.wf(),
                    tcs_v == tool_calls_view(tcs@),
                    tcs_v.len() == n,
                    forall|k: int| 0 <= k < n ==> tcs_v[k] == (#[trigger] tcs@[k])@,
                    batch@.len() == i + 1,
                    batch@[0]@ == assistant_of(first_v),
                    forall|k: int|
                        0 <= k < i ==> tool_result_ok((#[trigger] batch@[k + 1])@, tcs_v[k], reg0),
                decreases n - i,
            {
                let args = tcs[i].arguments.clone();
                let out = callables.call(&tcs[i].name, args);
                let content = to_json_text(&out);
                let tool_msg = Message::Tool { content, tool_call_id: tcs[i].id.clone() };
                proof {
                    assert(tool_result_ok(tool_msg@, tcs_v[i as int], reg0));
                }
                batch.push(tool_msg);
                i += 1;
            }
            proof {
                let batch_v = batch@.map_values(|m: Message| m@);
                assert(batch_v.len() == 1 + tcs_v.len());
                assert(batch_v[0] == assistant_of(first_v));
                assert(first_v.tool_calls == Some(tcs_v));
                assert forall|k: int| 0 <= k < tcs_v.len() implies tool_result_ok(
                    batch_v[k + 1],
                    tcs_v[k],
                    reg0,
                ) by {
                    assert(batch_v[k + 1] == batch@[k + 1]@);
                }
            }
            Ok(batch)
        },
    }
}

/// After one committed step, working memory is exactly: the prior
/// messages, then the replayed assistant message, then one tool-result
/// message per tool call, ids and order matching the response.
pub proof fn law_step_memory(
    prior: Seq<MessageV>,
    batch: Seq<MessageV>,
    resp0: ResponseMessageV,
    tcs: Seq<ToolCallV>,
    reg: Seq<CallableInfo>,
)
    requires
        resp0.tool_calls == Some(tcs),
        batch.len() == 1 + tcs.len(),
        batch[0] == assistant_of(resp0),
        forall|i: int| 0 <= i < tcs.len() ==> tool_result_ok(#[trigger] batch[i + 1], tcs[i], reg),
    ensures
        (prior + batch).len() == prior.len() + 1 + tcs.len(),
        (prior + batch).subrange(0, prior.len() as int) =~= prior,
        (prior + batch)[prior.len() as int] == assistant_of(resp0),
        forall|i: int|
            0 <= i < tcs.len() ==> tool_result_ok(
                #[trigger] (prior + batch)[prior.len() + 1 + i],
                tcs[i],
                reg,
            ),
{
    assert forall|i: int| 0 <= i < tcs.len() implies tool_result_ok(
        #[trigger] (prior + batch)[prior.len() + 1 + i],
        tcs[i],
        reg,
    ) by {
        assert((prior + batch)[prior.len() + 1 + i] == batch[i + 1]);
    }
}

/// The usage report with every zero-valued integer field removed from
/// objects, and then every emptied object removed in turn; arrays keep
/// their length.
pub open spec fn strip_zeros(v: JsonV) -> JsonV
    decreases v,
{
    match v {
        JsonV::Arr(items) => JsonV::Arr(strip_list(items)),
        JsonV::Obj(fields) => JsonV::Obj(strip_fields(fields)),
        _ => v,
    }
}

pub open spec fn strip_list(items: Seq<JsonV>) -> Seq<JsonV>
    decreases items,
{
    if items.len() == 0 {
        Seq::empty()
    } else {
        strip_list(items.subrange(0, items.len() - 1)).push(strip_zeros(items[items.len() - 1]))
    }
}

pub open spec fn dropped_field(sv: JsonV) -> bool {
    ||| sv == JsonV::Int(0)
    ||| match sv {
        JsonV::Obj(g) => g.len() == 0,
        _ => false,
    }
}

pub open spec fn strip_fields(fields: Seq<(Seq<char>, JsonV)>) -> Seq<(Seq<char>, JsonV)>
    decreases fields,
{
    if fields.len() == 0 {
        Seq::empty()
    } else {
        let rest = strip_fields(fields.subrange(0, fields.len() - 1));
        let f = fields[fields.len() - 1];
        let sv = strip_zeros(f.1);
        if dropped_field(sv) {
            rest
        } else {
            rest.push((f.0, sv))
        }
    }
}

/// Removes zero-valued integer fields and emptied objects, recursively.
pub fn remove_zeros(value: &Json) -> (r: Json)
    ensures
        r@ == strip_zeros(value@),
    decreases *value,
{
    match value {
        Json::Null => Json::Null,
        Json::Bool(b) => Json::Bool(*b),
        Json::Int(i) => Json::Int(*i),
        Json::Str(s) => Json::Str(s.clone()),
        Json::Arr(items) => {
            let ghost m = json_view_list(items@);
            proof {
                lemma_json_view_list_index(items@);
                assert(m.subrange(0, 0) =~= Seq::<JsonV>::empty());
                assert(strip_list(m.subrange(0, 0)) =~= Seq::<JsonV>::empty());
            }
            let n = items.len();
            let mut out: Vec<Json> = Vec::new();
            let mut i: usize = 0;
            while i < n
                invariant
                    n == items@.len(),
                    0 <= i <= n,
                    value == Json::Arr(*items),
                    m == json_view_list(items@),
                    m.len() == n,
                    forall|k: int| 0 <= k < n ==> m[k] == crate::json::json_view(items@[k]),
                    json_view_list(out@) =~= strip_list(m.subrange(0, i as int)),
                decreases n - i,
            {
                proof {
                    assert(value->Arr_0 == *items);
                    assert(decreases_to!(*value => *items));
                    assert(decreases_to!(*items => items@[i as int]));
                }
                let x = remove_zeros(&items[i]);
                let ghost prev = out@;
                out.push(x);
                proof {
                    lemma_json_view_list_index(out@);
                    lemma_json_view_list_index(prev);
                    let t1 = m.subrange(0, i + 1);
                    assert(t1.subrange(0, i as int) =~= m.subrange(0, i as int));
                    assert(t1[i as int] == m[i as int]);
                    assert(json_view_list(out@) =~= strip_list(m.subrange(0, i + 1)));
                }
                i += 1;
            }
            proof {
                assert(m.subrange(0, n as int) =~= m);
                assert(JsonV::Arr(json_view_list(out@)) =~= strip_zeros(value@));
            }
            Json::Arr(out)
        },
        Json::Obj(fields) => {
            let ghost m = json_view_fields(fields@);
            proof {
                lemma_json_view_fields_index(fields@);
                assert(m.subrange(0, 0) =~= Seq::<(Seq<char>, JsonV)>::empty());
                assert(strip_fields(m.subrange(0, 0)) =~= Seq::<(Seq<char>, JsonV)>::empty());
            }
            let n = fields.len();
            let mut out: Vec<(String, Json)> = Vec::new();
            let mut i: usize = 0;
            while i < n
                invariant
                    n == fields@.len(),
                    0 <= i <= n,
                    value == Json::Obj(*fields),
                    m == json_view_fields(fields@),
                    m.len() == n,
                    forall|k: int|
                        0 <= k < n ==> m[k] == (
                            fields@[k].0@,
                            crate::json::json_view(fields@[k].1),
                        ),
                    json_view_fields(out@) =~= strip_fields(m.subrange(0, i as int)),
                decreases n - i,
            {
                let ghost t1 = m.subrange(0, i + 1);
                proof {
                    assert(t1.subrange(0, i as int) =~= m.subrange(0, i as int));
                    assert(t1[i as int] == m[i as int]);
                    assert(value->Obj_0 == *fields);
                    assert(decreases_to!(*value => *fields));
                    assert(decreases_to!(*fields => fields@[i as int]));
                }
                let sv = remove_zeros(&fields[i].1);
                let dropped = match &sv {
                    Json::Int(x) => *x == 0,
                    Json::Obj(g) => g.len() == 0,
                    _ => false,
                };
                proof {
                    lemma_json_view_fields_index(sv->Obj_0@);
                    assert(dropped == dropped_field(sv@));
                }
                if !dropped {
                    let key = fields[i].0.clone();
                    let ghost prev = out@;
                    out.push((key, sv));
                    proof {
                        lemma_json_view_fields_index(out@);
                        lemma_json_view_fields_index(prev);
                        assert(json_view_fields(out@) =~= strip_fields(m.subrange(0, i + 1)));
                    }
                } else {
                    proof {
                        assert(strip_fields(t1) == strip_fields(m.subrange(0, i as int)));
                    }
                }
                i += 1;
            }
            proof {
                assert(m.subrange(0, n as int) =~= m);
                assert(JsonV::Obj(json_view_fields(out@)) =~= strip_zeros(value@));
            }
            Json::Obj(out)
        },
    }
}

/// Renders a usage report with its zero fields stripped.
pub fn display_usage(usage: &Json) -> (r: String)
    ensures
        r@ == json_text(strip_zeros(usage@)),
{
    let stripped = remove_zeros(usage);
    to_json_text(&stripped)
}

} // verus!
