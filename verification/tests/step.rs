use bot::bot::{build_request, display_usage, process_response, remove_zeros, to_request_message,
    ChatResponse, ResponseMessage, StepError};
use bot::common::{system, user, Message, ToolCall};
use bot::config::{Config, ConfigError};
use bot::json::{json_eq, Json};
use bot::rpc::{Callable, Callables};
use bot::signal::TerminationSignal;
use bot::working_memory::WorkingMemory;

fn s(v: &str) -> String {
    v.to_string()
}

fn obj(fields: Vec<(&str, Json)>) -> Json {
    Json::Obj(fields.into_iter().map(|(k, v)| (k.to_string(), v)).collect())
}

struct EchoCap;

impl Callable for EchoCap {
    fn call(&mut self, input: Json) -> Result<Json, String> {
        Ok(input)
    }
}

fn open_schema() -> Json {
    obj(vec![("type", Json::Str(s("object")))])
}

fn echo_registry() -> Callables<EchoCap> {
    let mut callables = Callables::new();
    assert!(callables
        .add(s("a"), s("first"), open_schema(), Json::Null, EchoCap)
        .is_ok());
    assert!(callables
        .add(s("b"), s("second"), open_schema(), Json::Null, EchoCap)
        .is_ok());
    callables
}

fn canned_response(calls: &[(&str, &str)]) -> ChatResponse {
    ChatResponse {
        choices: vec![ResponseMessage {
            content: Some(s("working")),
            refusal: None,
            audio_id: None,
            tool_calls: Some(
                calls
                    .iter()
                    .map(|(id, name)| ToolCall {
                        id: id.to_string(),
                        name: name.to_string(),
                        arguments: obj(vec![]),
                    })
                    .collect(),
            ),
        }],
    }
}

#[test]
fn one_step_appends_assistant_then_tool_results_in_order() {
    let mut callables = echo_registry();
    let mut memory = WorkingMemory::new();
    memory.add_messages(vec![system(s("be good")), user(s("go"))]);
    let prior = memory.messages().len();
    assert_eq!(prior, 2);

    let response = canned_response(&[("call-a", "a"), ("call-b", "b")]);
    let batch = process_response(&mut callables, response).expect("step failed");
    memory.add_messages(batch);

    let msgs = memory.messages();
    assert_eq!(msgs.len(), prior + 1 + 2);
    match &msgs[prior] {
        Message::Assistant { content, tool_calls, .. } => {
            assert_eq!(content.as_deref(), Some("working"));
            let tcs = tool_calls.as_ref().expect("tool calls lost in replay");
            assert_eq!(tcs.len(), 2);
            assert_eq!(tcs[0].id, "call-a");
            assert_eq!(tcs[1].id, "call-b");
        },
        _ => panic!("expected the assistant message first"),
    }
    match &msgs[prior + 1] {
        Message::Tool { tool_call_id, content } => {
            assert_eq!(tool_call_id, "call-a");
            assert_eq!(content, "{\"Ok\":{}}");
        },
        _ => panic!("expected a tool message"),
    }
    match &msgs[prior + 2] {
        Message::Tool { tool_call_id, .. } => assert_eq!(tool_call_id, "call-b"),
        _ => panic!("expected a tool message"),
    }
}

#[test]
fn failed_dispatch_does_not_stop_later_calls() {
    let mut callables = echo_registry();
    let response = canned_response(&[("c1", "missing"), ("c2", "b")]);
    let batch = process_response(&mut callables, response).expect("step failed");
    assert_eq!(batch.len(), 3);
    match &batch[1] {
        Message::Tool { content, tool_call_id } => {
            assert_eq!(tool_call_id, "c1");
            assert_eq!(content, "{\"Err\":\"Callable not found\"}");
        },
        _ => panic!("expected a tool message"),
    }
    match &batch[2] {
        Message::Tool { content, tool_call_id } => {
            assert_eq!(tool_call_id, "c2");
            assert_eq!(content, "{\"Ok\":{}}");
        },
        _ => panic!("expected a tool message"),
    }
}

#[test]
fn missing_tool_calls_field_is_fatal_and_empty_list_is_not() {
    let mut callables = echo_registry();
    let response = ChatResponse {
        choices: vec![ResponseMessage {
            content: Some(s("free-form")),
            refusal: None,
            audio_id: None,
            tool_calls: None,
        }],
    };
    assert!(matches!(
        process_response(&mut callables, response),
        Err(StepError::NoToolCalls)
    ));

    let no_choices = ChatResponse { choices: vec![] };
    assert!(matches!(
        process_response(&mut callables, no_choices),
        Err(StepError::NoChoices)
    ));

    let empty = canned_response(&[]);
    let batch = process_response(&mut callables, empty).expect("empty list should proceed");
    assert_eq!(batch.len(), 1);
}

#[test]
fn multiple_choices_use_the_first() {
    let mut callables = echo_registry();
    let mut response = canned_response(&[("c1", "a")]);
    response.choices.push(ResponseMessage {
        content: Some(s("second choice")),
        refusal: None,
        audio_id: None,
        tool_calls: None,
    });
    let batch = process_response(&mut callables, response).expect("step failed");
    match &batch[0] {
        Message::Assistant { content, .. } => assert_eq!(content.as_deref(), Some("working")),
        _ => panic!("expected the assistant message first"),
    }
}

#[test]
fn request_carries_history_tools_and_required_choice() {
    let callables = echo_registry();
    let mut memory = WorkingMemory::new();
    memory.add_messages(vec![user(s("hello"))]);
    let config = Config {
        openai_api_key: s("SECRET-REDACTED"),
        openai_model: s("o1"),
        parallel_tool_calls: Some(true),
    };
    let request = build_request(&config, &memory, &callables);
    assert_eq!(request.model, "o1");
    assert_eq!(request.messages.len(), 1);
    assert_eq!(request.tools.len(), 2);
    assert!(request.tool_choice_required);
    assert_eq!(request.parallel_tool_calls, Some(true));
}

#[test]
fn replay_conversion_is_lossless() {
    let m = ResponseMessage {
        content: Some(s("c")),
        refusal: Some(s("r")),
        audio_id: Some(s("au")),
        tool_calls: Some(vec![ToolCall { id: s("i"), name: s("n"), arguments: Json::Int(1) }]),
    };
    match to_request_message(m) {
        Message::Assistant { content, refusal, audio_id, tool_calls } => {
            assert_eq!(content.as_deref(), Some("c"));
            assert_eq!(refusal.as_deref(), Some("r"));
            assert_eq!(audio_id.as_deref(), Some("au"));
            let tcs = tool_calls.expect("tool calls lost");
            assert_eq!(tcs[0].id, "i");
            assert_eq!(tcs[0].name, "n");
            assert!(json_eq(&tcs[0].arguments, &Json::Int(1)));
        },
        _ => panic!("expected an assistant message"),
    }
}

struct DoneCap {
    signal: TerminationSignal<String>,
}

impl Callable for DoneCap {
    fn call(&mut self, input: Json) -> Result<Json, String> {
        let tldr = match input.get(&s("tldr")) {
            Some(Json::Str(t)) => t.clone(),
            _ => return Err(s("missing tldr")),
        };
        if self.signal.set(tldr) {
            Ok(Json::Null)
        } else {
            Err(s("already done"))
        }
    }
}

#[test]
fn terminal_capability_stops_the_driver() {
    let mut callables: Callables<DoneCap> = Callables::new();
    let done_schema = obj(vec![
        ("type", Json::Str(s("object"))),
        ("properties", obj(vec![("tldr", obj(vec![("type", Json::Str(s("string")))]))])),
        ("required", Json::Arr(vec![Json::Str(s("tldr"))])),
    ]);
    assert!(callables
        .add(
            s("done"),
            s("Report completion."),
            done_schema,
            Json::Null,
            DoneCap { signal: TerminationSignal::new() },
        )
        .is_ok());
    let mut memory = WorkingMemory::new();
    memory.add_messages(vec![user(s("finish"))]);

    let mut steps = 0;
    loop {
        let response = ChatResponse {
            choices: vec![ResponseMessage {
                content: None,
                refusal: None,
                audio_id: None,
                tool_calls: Some(vec![ToolCall {
                    id: s("c1"),
                    name: s("done"),
                    arguments: obj(vec![("tldr", Json::Str(s("all good")))]),
                }]),
            }],
        };
        let batch = process_response(&mut callables, response).expect("step failed");
        memory.add_messages(batch);
        steps += 1;
        let done = callables.handler(&s("done")).expect("capability vanished");
        if done.signal.is_set() {
            break;
        }
        if steps > 3 {
            panic!("driver never observed the signal");
        }
    }
    assert_eq!(steps, 1);
}

#[test]
fn termination_signal_is_written_at_most_once() {
    let mut signal: TerminationSignal<i64> = TerminationSignal::new();
    assert!(!signal.is_set());
    assert!(signal.set(1));
    assert!(signal.is_set());
    assert!(!signal.set(2));
    assert_eq!(signal.take(), Some(1));
}

#[test]
fn memory_snapshot_equals_committed_history() {
    let mut memory = WorkingMemory::new();
    assert_eq!(memory.messages().len(), 0);
    memory.add_messages(vec![system(s("sys")), user(s("u1"))]);
    memory.add_messages(vec![user(s("u2"))]);
    let msgs = memory.messages();
    assert_eq!(msgs.len(), 3);
    match &msgs[0] {
        Message::System { content } => assert_eq!(content, "sys"),
        _ => panic!("expected the system message first"),
    }
    match &msgs[2] {
        Message::User { content } => assert_eq!(content, "u2"),
        _ => panic!("expected the appended user message last"),
    }
}

#[test]
fn config_resolution_prefers_env_and_defaults_model() {
    let c = Config::resolve(
        Some(s("file-key")),
        Some(s("file-model")),
        Some(false),
        Some(s("env-key")),
        None,
        Some(s("1")),
    )
    .expect("resolution failed");
    assert_eq!(c.openai_api_key, "env-key");
    assert_eq!(c.openai_model, "file-model");
    assert_eq!(c.parallel_tool_calls, Some(true));

    let d = Config::resolve(Some(s("k")), None, None, None, None, Some(s(""))).unwrap();
    assert_eq!(d.openai_model, "o1");
    assert_eq!(d.parallel_tool_calls, Some(false));

    assert!(matches!(
        Config::resolve(None, Some(s("m")), None, None, None, None),
        Err(ConfigError::MissingApiKey)
    ));
}

#[test]
fn usage_display_strips_zero_fields_and_emptied_objects() {
    let usage = obj(vec![
        ("prompt_tokens", Json::Int(12)),
        ("completion_tokens", Json::Int(0)),
        (
            "details",
            obj(vec![("cached", Json::Int(0)), ("audio", Json::Int(0))]),
        ),
        ("total_tokens", Json::Int(12)),
    ]);
    let stripped = remove_zeros(&usage);
    let expected = obj(vec![
        ("prompt_tokens", Json::Int(12)),
        ("total_tokens", Json::Int(12)),
    ]);
    assert!(json_eq(&stripped, &expected));
    assert_eq!(
        display_usage(&usage),
        "{\"prompt_tokens\":12,\"total_tokens\":12}"
    );
}

#[test]
fn zeros_inside_arrays_are_kept() {
    let v = obj(vec![("xs", Json::Arr(vec![Json::Int(0), Json::Int(1)]))]);
    let stripped = remove_zeros(&v);
    assert!(json_eq(&stripped, &v));
}
