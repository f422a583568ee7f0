use bot::json::{json_eq, Json};
use bot::rpc::{Callable, Callables, RegistryError};

fn s(v: &str) -> String {
    v.to_string()
}

fn obj(fields: Vec<(&str, Json)>) -> Json {
    Json::Obj(fields.into_iter().map(|(k, v)| (k.to_string(), v)).collect())
}

fn int_field_schema(keys: &[&str]) -> Json {
    let props = keys
        .iter()
        .map(|k| (k.to_string(), obj(vec![("type", Json::Str(s("integer")))])))
        .collect();
    obj(vec![
        ("type", Json::Str(s("object"))),
        ("properties", Json::Obj(props)),
        (
            "required",
            Json::Arr(keys.iter().map(|k| Json::Str(k.to_string())).collect()),
        ),
    ])
}

struct AddCap;

fn get_int(input: &Json, key: &str) -> Option<i64> {
    match input.get(&key.to_string()) {
        Some(Json::Int(v)) => Some(*v),
        _ => None,
    }
}

impl Callable for AddCap {
    fn call(&mut self, input: Json) -> Result<Json, String> {
        let a = get_int(&input, "a").ok_or_else(|| s("missing a"))?;
        let b = get_int(&input, "b").ok_or_else(|| s("missing b"))?;
        if a == 69 || b == 69 {
            return Err(s("nice"));
        }
        Ok(Json::Int(a + b))
    }
}

fn add_registry() -> Callables<AddCap> {
    let mut callables = Callables::new();
    let r = callables.add(
        s("add"),
        s("Adds two integers."),
        int_field_schema(&["a", "b"]),
        obj(vec![("type", Json::Str(s("integer")))]),
        AddCap,
    );
    assert!(r.is_ok());
    callables
}

#[test]
fn dispatch_blocked_sentinel_yields_err_nice() {
    let mut callables = add_registry();
    let out = callables.call(&s("add"), obj(vec![("a", Json::Int(69)), ("b", Json::Int(1))]));
    assert!(json_eq(&out, &obj(vec![("Err", Json::Str(s("nice")))])));
}

#[test]
fn dispatch_ok_sums() {
    let mut callables = add_registry();
    let out = callables.call(&s("add"), obj(vec![("a", Json::Int(1)), ("b", Json::Int(2))]));
    assert!(json_eq(&out, &obj(vec![("Ok", Json::Int(3))])));
}

#[test]
fn dispatch_unregistered_name_is_err_value() {
    let mut callables = add_registry();
    let out = callables.call(&s("nope"), Json::Null);
    assert!(json_eq(
        &out,
        &obj(vec![("Err", Json::Str(s("Callable not found")))])
    ));
}

#[test]
fn dispatch_bad_arguments_is_err_value_and_later_calls_run() {
    let mut callables = add_registry();
    let bad = callables.call(&s("add"), obj(vec![("a", Json::Str(s("x")))]));
    assert!(json_eq(
        &bad,
        &obj(vec![(
            "Err",
            Json::Str(s("arguments do not satisfy the input schema"))
        )])
    ));
    let good = callables.call(&s("add"), obj(vec![("a", Json::Int(2)), ("b", Json::Int(2))]));
    assert!(json_eq(&good, &obj(vec![("Ok", Json::Int(4))])));
}

#[test]
fn duplicate_registration_is_a_conflict() {
    let mut callables = add_registry();
    let before = callables.tools().len();
    let r = callables.add(
        s("add"),
        s("Another add."),
        int_field_schema(&["a"]),
        Json::Null,
        AddCap,
    );
    assert_eq!(r, Err(RegistryError::DuplicateName));
    assert_eq!(callables.tools().len(), before);
}

#[test]
fn tools_lists_each_registered_capability_strictly() {
    let mut callables = add_registry();
    let r = callables.add(
        s("mul"),
        s("Multiplies."),
        int_field_schema(&["a", "b"]),
        obj(vec![("type", Json::Str(s("integer")))]),
        AddCap,
    );
    assert!(r.is_ok());
    let tools = callables.tools();
    assert_eq!(tools.len(), 2);
    assert_eq!(tools[0].name, "add");
    assert_eq!(tools[1].name, "mul");
    assert!(tools.iter().all(|t| t.strict));
}

#[test]
fn tools_twice_is_the_same_set() {
    let callables = add_registry();
    let t1 = callables.tools();
    let t2 = callables.tools();
    assert_eq!(t1.len(), t2.len());
    for a in t1.iter() {
        let b = t2
            .iter()
            .find(|b| b.name == a.name)
            .expect("definition missing from second listing");
        assert_eq!(a.description, b.description);
        assert_eq!(a.strict, b.strict);
        assert!(json_eq(&a.parameters, &b.parameters));
    }
}

#[test]
fn description_documents_output_as_ok_or_err() {
    let callables = add_registry();
    let tools = callables.tools();
    let description = &tools[0].description;
    assert!(description.starts_with("Adds two integers.\nreturns:\n"));
    let expected_doc = bot::text::to_json_text(&bot::schema::sanitize_json(&obj(vec![(
        "oneOf",
        Json::Arr(vec![
            obj(vec![
                ("type", Json::Str(s("object"))),
                ("properties", obj(vec![("Ok", obj(vec![("type", Json::Str(s("integer")))]))])),
                ("required", Json::Arr(vec![Json::Str(s("Ok"))])),
            ]),
            obj(vec![
                ("type", Json::Str(s("object"))),
                (
                    "properties",
                    obj(vec![("Err", obj(vec![("type", Json::Str(s("string")))]))]),
                ),
                ("required", Json::Arr(vec![Json::Str(s("Err"))])),
            ]),
        ]),
    )])));
    assert_eq!(
        description.as_str(),
        format!("Adds two integers.\nreturns:\n{}", expected_doc)
    );
}

#[test]
fn registered_parameters_are_sanitized() {
    let mut callables = Callables::new();
    let schema_with_format = obj(vec![
        ("type", Json::Str(s("object"))),
        (
            "properties",
            obj(vec![(
                "when",
                obj(vec![
                    ("type", Json::Str(s("string"))),
                    ("format", Json::Str(s("date-time"))),
                ]),
            )]),
        ),
    ]);
    let r = callables.add(s("t"), s("d"), schema_with_format, Json::Null, AddCap);
    assert!(r.is_ok());
    let tools = callables.tools();
    let expected = obj(vec![
        ("type", Json::Str(s("object"))),
        (
            "properties",
            obj(vec![(
                "when",
                obj(vec![("type", Json::Str(s("string")))]),
            )]),
        ),
        ("additionalProperties", Json::Bool(false)),
    ]);
    assert!(json_eq(&tools[0].parameters, &expected));
}
