//! Conversation messages and their constructors.

use vstd::prelude::*;

use crate::json::{Json, JsonV};

verus! {

broadcast use vstd::std_specs::vec::group_vec_axioms, vstd::seq::group_seq_axioms;

/// One tool invocation requested by the model: an opaque id, the
/// capability name, and the argument document.
pub struct ToolCall {
    pub id: String,
    pub name: String,
    pub arguments: Json,
}

pub struct ToolCallV {
    pub id: Seq<char>,
    pub name: Seq<char>,
    pub arguments: JsonV,
}

impl View for ToolCall {
    type V = ToolCallV;

    open spec fn view(&self) -> ToolCallV {
        ToolCallV { id: self.id@, name: self.name@, arguments: self.arguments@ }
    }
}

impl Clone for ToolCall {
    fn clone(&self) -> (r: Self)
        ensures
            r@ == self@,
    {
        ToolCall {
            id: self.id.clone(),
            name: self.name.clone(),
            arguments: self.arguments.clone(),
        }
    }
}

pub open spec fn tool_calls_view(v: Seq<ToolCall>) -> Seq<ToolCallV> {
    v.map_values(|t: ToolCall| t@)
}

/// A message as replayed in a request. Assistant messages keep their
/// tool calls and auxiliary identifiers so history replay is lossless;
/// tool messages carry the JSON-encoded result envelope and answer one
/// tool call by id.
pub enum Message {
    System { content: String },
    User { content: String },
    Assistant {
        content: Option<String>,
        refusal: Option<String>,
        audio_id: Option<String>,
        tool_calls: Option<Vec<ToolCall>>,
    },
    Tool { content: String, tool_call_id: String },
}

pub enum MessageV {
    System { content: Seq<char> },
    User { content: Seq<char> },
    Assistant {
        content: Option<Seq<char>>,
        refusal: Option<Seq<char>>,
        audio_id: Option<Seq<char>>,
        tool_calls: Option<Seq<ToolCallV>>,
    },
    Tool { content: Seq<char>, tool_call_id: Seq<char> },
}

pub open spec fn opt_str_view(v: Option<String>) -> Option<Seq<char>> {
    match v {
        Some(s) => Some(s@),
        None => None,
    }
}

impl View for Message {
    type V = MessageV;

    open spec fn view(&self) -> MessageV {
        match *self {
            Message::System { content } => MessageV::System { content: content@ },
            Message::User { content } => MessageV::User { content: content@ },
            Message::Assistant { content, refusal, audio_id, tool_calls } => MessageV::Assistant {
                content: opt_str_view(content),
                refusal: opt_str_view(refusal),
                audio_id: opt_str_view(audio_id),
                tool_calls: match tool_calls {
                    Some(tcs) => Some(tool_calls_view(tcs@)),
                    None => None,
                },
            },
            Message::Tool { content, tool_call_id } => MessageV::Tool {
                content: content@,
                tool_call_id: tool_call_id@,
            },
        }
    }
}

fn clone_opt_str(v: &Option<String>) -> (r: Option<String>)
    ensures
        opt_str_view(r) == opt_str_view(*v),
{
    match v {
        Some(s) => Some(s.clone()),
        None => None,
    }
}

/// A deep copy of a tool-call list with the same model.
pub fn clone_tool_calls(v: &Vec<ToolCall>) -> (r: Vec<ToolCall>)
    ensures
        tool_calls_view(r@) == tool_calls_view(v@),
{
    let n = v.len();
    let mut out: Vec<ToolCall> = Vec::new();
    let mut i: usize = 0;
    while i < n
        invariant
            n == v@.len(),
            0 <= i <= n,
            out@.len() == i,
            forall|k: int| 0 <= k < i ==> (#[trigger] out@[k])@ == v@[k]@,
        decreases n - i,
    {
        let c = v[i].clone();
        out.push(c);
        i += 1;
    }
    proof {
        assert(tool_calls_view(out@) =~= tool_calls_view(v@));
    }
    out
}

impl Clone for Message {
    fn clone(&self) -> (r: Self)
        ensures
            r@ == self@,
    {
        match self {
            Message::System { content } => Message::System { content: content.clone() },
            Message::User { content } => Message::User { content: content.clone() },
            Message::Assistant { content, refusal, audio_id, tool_calls } => {
                let tcs = match tool_calls {
                    Some(v) => Some(clone_tool_calls(v)),
                    None => None,
                };
                Message::Assistant {
                    content: clone_opt_str(content),
                    refusal: clone_opt_str(refusal),
                    audio_id: clone_opt_str(audio_id),
                    tool_calls: tcs,
                }
            },
            Message::Tool { content, tool_call_id } => Message::Tool {
                content: content.clone(),
                tool_call_id: tool_call_id.clone(),
            },
        }
    }
}

/// A system message with the given text.
pub fn system(msg: String) -> (r: Message)
    ensures
        r@ == (MessageV::System { content: msg@ }),
{
    Message::System { content: msg }
}

/// A user message with the given text.
pub fn user(msg: String) -> (r: Message)
    ensures
        r@ == (MessageV::User { content: msg@ }),
{
    Message::User { content: msg }
}

} // verus!
