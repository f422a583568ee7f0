use bot::json::{json_eq, Json};
use bot::schema::{sanitize_json, validate_json};
use bot::text::to_json_text;

fn s(v: &str) -> String {
    v.to_string()
}

fn obj(fields: Vec<(&str, Json)>) -> Json {
    Json::Obj(fields.into_iter().map(|(k, v)| (k.to_string(), v)).collect())
}

#[test]
fn renders_scalars() {
    assert_eq!(to_json_text(&Json::Null), "null");
    assert_eq!(to_json_text(&Json::Bool(true)), "true");
    assert_eq!(to_json_text(&Json::Bool(false)), "false");
    assert_eq!(to_json_text(&Json::Int(0)), "0");
    assert_eq!(to_json_text(&Json::Int(-42)), "-42");
    assert_eq!(to_json_text(&Json::Int(i64::MIN)), "-9223372036854775808");
    assert_eq!(to_json_text(&Json::Int(i64::MAX)), "9223372036854775807");
}

#[test]
fn renders_strings_with_escapes() {
    assert_eq!(to_json_text(&Json::Str(s("hi"))), "\"hi\"");
    assert_eq!(to_json_text(&Json::Str(s("a\"b"))), "\"a\\\"b\"");
    assert_eq!(to_json_text(&Json::Str(s("a\\b"))), "\"a\\\\b\"");
    assert_eq!(to_json_text(&Json::Str(s("a\nb"))), "\"a\\u000ab\"");
}

#[test]
fn renders_arrays_and_objects() {
    let doc = obj(vec![
        ("xs", Json::Arr(vec![Json::Int(1), Json::Int(2), Json::Int(3)])),
        ("name", Json::Str(s("n"))),
        ("inner", obj(vec![("k", Json::Bool(false))])),
    ]);
    assert_eq!(
        to_json_text(&doc),
        "{\"xs\":[1,2,3],\"name\":\"n\",\"inner\":{\"k\":false}}"
    );
    assert_eq!(to_json_text(&Json::Arr(vec![])), "[]");
    assert_eq!(to_json_text(&obj(vec![])), "{}");
}

#[test]
fn json_eq_is_deep() {
    let a = obj(vec![("x", Json::Arr(vec![Json::Int(1), Json::Str(s("y"))]))]);
    let b = obj(vec![("x", Json::Arr(vec![Json::Int(1), Json::Str(s("y"))]))]);
    let c = obj(vec![("x", Json::Arr(vec![Json::Int(2), Json::Str(s("y"))]))]);
    assert!(json_eq(&a, &b));
    assert!(!json_eq(&a, &c));
    assert!(!json_eq(&a, &Json::Null));
}

fn assert_no_format_and_closed(v: &Json) {
    match v {
        Json::Obj(fields) => {
            let is_object = fields.iter().any(|(k, val)| {
                k == "properties" || (k == "type" && json_eq(val, &Json::Str(s("object"))))
            });
            for (k, val) in fields.iter() {
                assert_ne!(k, "format");
                assert_no_format_and_closed(val);
            }
            if is_object {
                let ap = fields.iter().find(|(k, _)| k == "additionalProperties");
                match ap {
                    Some((_, Json::Bool(false))) => {},
                    _ => panic!("object node not closed"),
                }
            }
        },
        Json::Arr(items) => {
            for item in items.iter() {
                assert_no_format_and_closed(item);
            }
        },
        _ => {},
    }
}

#[test]
fn sanitize_removes_format_everywhere_and_closes_objects() {
    let schema = obj(vec![
        ("type", Json::Str(s("object"))),
        ("format", Json::Str(s("date-time"))),
        (
            "properties",
            obj(vec![
                (
                    "when",
                    obj(vec![
                        ("type", Json::Str(s("string"))),
                        ("format", Json::Str(s("date-time"))),
                    ]),
                ),
                (
                    "inner",
                    obj(vec![
                        ("type", Json::Str(s("object"))),
                        ("properties", obj(vec![("n", obj(vec![("format", Json::Null)]))])),
                    ]),
                ),
            ]),
        ),
    ]);
    let clean = sanitize_json(&schema);
    assert_no_format_and_closed(&clean);
}

#[test]
fn sanitize_exact_on_small_schema() {
    let schema = obj(vec![
        ("type", Json::Str(s("object"))),
        ("format", Json::Str(s("x"))),
    ]);
    let clean = sanitize_json(&schema);
    let expected = obj(vec![
        ("type", Json::Str(s("object"))),
        ("additionalProperties", Json::Bool(false)),
    ]);
    assert!(json_eq(&clean, &expected));
}

#[test]
fn validate_checks_type_required_and_closure() {
    let schema = obj(vec![
        ("type", Json::Str(s("object"))),
        (
            "properties",
            obj(vec![
                ("a", obj(vec![("type", Json::Str(s("integer")))])),
                ("b", obj(vec![("type", Json::Str(s("integer")))])),
            ]),
        ),
        ("required", Json::Arr(vec![Json::Str(s("a")), Json::Str(s("b"))])),
        ("additionalProperties", Json::Bool(false)),
    ]);
    let good = obj(vec![("a", Json::Int(1)), ("b", Json::Int(2))]);
    assert!(validate_json(&schema, &good));

    let missing = obj(vec![("a", Json::Int(1))]);
    assert!(!validate_json(&schema, &missing));

    let wrong_type = obj(vec![("a", Json::Str(s("x"))), ("b", Json::Int(2))]);
    assert!(!validate_json(&schema, &wrong_type));

    let extra = obj(vec![("a", Json::Int(1)), ("b", Json::Int(2)), ("c", Json::Int(3))]);
    assert!(!validate_json(&schema, &extra));

    let not_an_object = Json::Int(7);
    assert!(!validate_json(&schema, &not_an_object));
}

#[test]
fn validate_checks_array_items() {
    let schema = obj(vec![
        ("type", Json::Str(s("array"))),
        ("items", obj(vec![("type", Json::Str(s("string")))])),
    ]);
    let good = Json::Arr(vec![Json::Str(s("a")), Json::Str(s("b"))]);
    assert!(validate_json(&schema, &good));
    let bad = Json::Arr(vec![Json::Str(s("a")), Json::Int(1)]);
    assert!(!validate_json(&schema, &bad));
    let empty = Json::Arr(vec![]);
    assert!(validate_json(&schema, &empty));
}

#[test]
fn envelope_wraps_each_outcome() {
    let ok = bot::rpc::envelope(Ok(Json::Int(3)));
    assert!(json_eq(&ok, &obj(vec![("Ok", Json::Int(3))])));
    let err = bot::rpc::envelope(Err(s("boom")));
    assert!(json_eq(&err, &obj(vec![("Err", Json::Str(s("boom")))])));
}

#[test]
fn get_returns_first_binding() {
    let doc = obj(vec![("a", Json::Int(1)), ("b", Json::Int(2))]);
    match doc.get(&s("b")) {
        Some(v) => assert!(json_eq(v, &Json::Int(2))),
        None => panic!("missing key"),
    }
    assert!(doc.get(&s("zz")).is_none());
    assert!(Json::Null.get(&s("a")).is_none());
}
