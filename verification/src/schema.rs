//! Backend-compatible JSON Schema sanitization and input validation.
//!
//! Two rewrite passes run over the whole schema tree before a schema is
//! handed to the model backend: every `"format"` annotation is removed,
//! and every object-typed schema node is forced to declare that no
//! additional properties are allowed. Argument payloads of tool calls
//! are validated against the sanitized input schema before dispatch.

use vstd::prelude::*;
use vstd::string::*;

use crate::json::{Json, JsonV, json_view_fields, json_view_list, lemma_json_view_fields_index,
    lemma_json_view_list_index, lookup_field};

verus! {

broadcast use vstd::std_specs::vec::group_vec_axioms, vstd::seq::group_seq_axioms;

pub open spec fn format_key() -> Seq<char> {
    "format"@
}

pub open spec fn type_key() -> Seq<char> {
    "type"@
}

pub open spec fn props_key() -> Seq<char> {
    "properties"@
}

pub open spec fn addprops_key() -> Seq<char> {
    "additionalProperties"@
}

pub open spec fn object_tag() -> Seq<char> {
    "object"@
}

/// An object node of a schema tree counts as object-typed when it
/// declares `"type": "object"` or lists properties.
pub open spec fn is_object_schema(fields: Seq<(Seq<char>, JsonV)>) -> bool {
    lookup_field(fields, type_key()) == Some(JsonV::Str(object_tag())) || lookup_field(
        fields,
        props_key(),
    ) is Some
}

/// All fields except those bound to `key`, in order.
pub open spec fn drop_key(fields: Seq<(Seq<char>, JsonV)>, key: Seq<char>) -> Seq<
    (Seq<char>, JsonV),
>
    decreases fields.len(),
{
    if fields.len() == 0 {
        Seq::empty()
    } else {
        let rest = drop_key(fields.subrange(0, fields.len() - 1), key);
        if fields[fields.len() - 1].0 == key {
            rest
        } else {
            rest.push(fields[fields.len() - 1])
        }
    }
}

/// The sanitized schema tree: `"format"` keys removed everywhere, and
/// every object-typed node closed with `"additionalProperties": false`
/// as its last field.
pub open spec fn sanitize(v: JsonV) -> JsonV
    decreases v,
{
    match v {
        JsonV::Arr(items) => JsonV::Arr(sanitize_list(items)),
        JsonV::Obj(fields) => {
            let base = sanitize_fields(fields);
            if is_object_schema(fields) {
                JsonV::Obj(
                    drop_key(base, addprops_key()).push((addprops_key(), JsonV::Bool(false))),
                )
            } else {
                JsonV::Obj(base)
            }
        },
        _ => v,
    }
}

pub open spec fn sanitize_list(items: Seq<JsonV>) -> Seq<JsonV>
    decreases items,
{
    if items.len() == 0 {
        Seq::empty()
    } else {
        sanitize_list(items.subrange(0, items.len() - 1)).push(sanitize(items[items.len() - 1]))
    }
}

pub open spec fn sanitize_fields(fields: Seq<(Seq<char>, JsonV)>) -> Seq<(Seq<char>, JsonV)>
    decreases fields,
{
    if fields.len() == 0 {
        Seq::empty()
    } else {
        let rest = sanitize_fields(fields.subrange(0, fields.len() - 1));
        let f = fields[fields.len() - 1];
        if f.0 == format_key() {
            rest
        } else {
            rest.push((f.0, sanitize(f.1)))
        }
    }
}

/// No `"format"` key occurs anywhere in the tree.
pub open spec fn no_format(v: JsonV) -> bool
    decreases v,
{
    match v {
        JsonV::Arr(items) => no_format_list(items),
        JsonV::Obj(fields) => no_format_fields(fields),
        _ => true,
    }
}

pub open spec fn no_format_list(items: Seq<JsonV>) -> bool
    decreases items,
{
    if items.len() == 0 {
        true
    } else {
        no_format_list(items.subrange(0, items.len() - 1)) && no_format(items[items.len() - 1])
    }
}

pub open spec fn no_format_fields(fields: Seq<(Seq<char>, JsonV)>) -> bool
    decreases fields,
{
    if fields.len() == 0 {
        true
    } else {
        no_format_fields(fields.subrange(0, fields.len() - 1)) && fields[fields.len() - 1].0
            != format_key() && no_format(fields[fields.len() - 1].1)
    }
}

/// Every object-typed node in the tree declares that no additional
/// properties are allowed.
pub open spec fn closed_objects(v: JsonV) -> bool
    decreases v,
{
    match v {
        JsonV::Arr(items) => closed_list(items),
        JsonV::Obj(fields) => {
            &&& (is_object_schema(fields) ==> lookup_field(fields, addprops_key()) == Some(
                JsonV::Bool(false),
            ))
            &&& closed_fields(fields)
        },
        _ => true,
    }
}

pub open spec fn closed_list(items: Seq<JsonV>) -> bool
    decreases items,
{
    if items.len() == 0 {
        true
    } else {
        closed_list(items.subrange(0, items.len() - 1)) && closed_objects(items[items.len() - 1])
    }
}

pub open spec fn closed_fields(fields: Seq<(Seq<char>, JsonV)>) -> bool
    decreases fields,
{
    if fields.len() == 0 {
        true
    } else {
        closed_fields(fields.subrange(0, fields.len() - 1)) && closed_objects(
            fields[fields.len() - 1].1,
        )
    }
}

/// How a lookup behaves on a sequence extended by one field.
pub proof fn lemma_lookup_push(s: Seq<(Seq<char>, JsonV)>, f: (Seq<char>, JsonV), k: Seq<char>)
    ensures
        lookup_field(s.push(f), k) == if lookup_field(s, k) is Some {
            lookup_field(s, k)
        } else if f.0 == k {
            Some(f.1)
        } else {
            None::<JsonV>
        },
    decreases s.len(),
{
    if s.len() == 0 {
        assert(s.push(f)[0] == f);
        assert(s.push(f).drop_first() =~= Seq::<(Seq<char>, JsonV)>::empty());
    } else {
        assert(s.push(f)[0] == s[0]);
        assert(s.push(f).drop_first() =~= s.drop_first().push(f));
        lemma_lookup_push(s.drop_first(), f, k);
    }
}

/// A lookup misses when no field carries the key.
pub proof fn lemma_lookup_absent(s: Seq<(Seq<char>, JsonV)>, k: Seq<char>)
    requires
        forall|i: int| 0 <= i < s.len() ==> (#[trigger] s[i]).0 != k,
    ensures
        lookup_field(s, k) is None,
    decreases s.len(),
{
    if s.len() > 0 {
        lemma_lookup_absent(s.drop_first(), k);
    }
}

/// After dropping a key, no field carries it.
pub proof fn lemma_drop_key_absent(s: Seq<(Seq<char>, JsonV)>, k: Seq<char>)
    ensures
        forall|i: int|
            0 <= i < drop_key(s, k).len() ==> (#[trigger] drop_key(s, k)[i]).0 != k,
    decreases s.len(),
{
    if s.len() > 0 {
        let s0 = s.subrange(0, s.len() - 1);
        let f = s[s.len() - 1];
        lemma_drop_key_absent(s0, k);
        if f.0 != k {
            let d0 = drop_key(s0, k);
            let d = d0.push(f);
            assert(drop_key(s, k) == d);
            assert forall|i: int| 0 <= i < d.len() implies (#[trigger] d[i]).0 != k by {
                if i < d0.len() {
                    assert(d[i] == d0[i]);
                } else {
                    assert(d[i] == f);
                }
            }
        }
    }
}

/// Sanitizing fields turns each surviving binding into its sanitized
/// value and never invents or loses a non-`format` key.
pub proof fn lemma_sanitize_fields_lookup(fields: Seq<(Seq<char>, JsonV)>, k: Seq<char>)
    requires
        k != format_key(),
    ensures
        lookup_field(sanitize_fields(fields), k) == match lookup_field(fields, k) {
            Some(v) => Some(sanitize(v)),
            None => None::<JsonV>,
        },
    decreases fields.len(),
{
    if fields.len() > 0 {
        let s0 = fields.subrange(0, fields.len() - 1);
        let f = fields[fields.len() - 1];
        lemma_sanitize_fields_lookup(s0, k);
        assert(s0.push(f) =~= fields);
        lemma_lookup_push(s0, f, k);
        if f.0 != format_key() {
            lemma_lookup_push(sanitize_fields(s0), (f.0, sanitize(f.1)), k);
        }
    }
}

/// A sanitized value is a string exactly when the original was, and is
/// then the same string.
pub proof fn lemma_sanitize_str(v: JsonV)
    ensures
        (sanitize(v) == JsonV::Str(object_tag())) == (v == JsonV::Str(object_tag())),
{
}

/// Sanitizing fields does not change whether the node is object-typed.
pub proof fn lemma_sanitize_obj_shape(fields: Seq<(Seq<char>, JsonV)>)
    ensures
        is_object_schema(sanitize_fields(fields)) == is_object_schema(fields),
{
    reveal_strlit("format");
    reveal_strlit("type");
    reveal_strlit("properties");
    assert(format_key().len() == 6);
    assert(type_key().len() == 4);
    assert(type_key() != format_key());
    assert(props_key() != format_key());
    lemma_sanitize_fields_lookup(fields, type_key());
    lemma_sanitize_fields_lookup(fields, props_key());
    match lookup_field(fields, type_key()) {
        Some(v) => {
            lemma_sanitize_str(v);
        },
        None => {},
    }
}

/// The two well-formedness predicates survive dropping a key.
pub proof fn lemma_drop_key_preserves(s: Seq<(Seq<char>, JsonV)>, k: Seq<char>)
    requires
        no_format_fields(s),
        closed_fields(s),
    ensures
        no_format_fields(drop_key(s, k)),
        closed_fields(drop_key(s, k)),
    decreases s.len(),
{
    if s.len() > 0 {
        let s0 = s.subrange(0, s.len() - 1);
        let f = s[s.len() - 1];
        lemma_drop_key_preserves(s0, k);
        if f.0 != k {
            let d0 = drop_key(s0, k);
            let d = d0.push(f);
            assert(d.subrange(0, d.len() - 1) =~= d0);
            assert(d[d.len() - 1] == f);
        }
    }
}

/// The sanitized tree of any schema satisfies both mandatory passes:
/// it contains no `"format"` key anywhere, and every object-typed node
/// declares that no additional properties are allowed.
pub proof fn lemma_sanitize_wf(v: JsonV)
    ensures
        no_format(sanitize(v)),
        closed_objects(sanitize(v)),
    decreases v,
{
    match v {
        JsonV::Arr(items) => {
            lemma_sanitize_wf_list(items);
        },
        JsonV::Obj(fields) => {
            reveal_strlit("format");
            reveal_strlit("additionalProperties");
            assert(addprops_key().len() == 20);
            assert(format_key().len() == 6);
            assert(addprops_key() != format_key());
            lemma_sanitize_wf_fields(fields);
            let base = sanitize_fields(fields);
            lemma_sanitize_obj_shape(fields);
            if is_object_schema(fields) {
                let d = drop_key(base, addprops_key());
                lemma_drop_key_preserves(base, addprops_key());
                let apf = (addprops_key(), JsonV::Bool(false));
                let all = d.push(apf);
                assert(all.subrange(0, all.len() - 1) =~= d);
                assert(all[all.len() - 1] == apf);
                assert(no_format_fields(d));
                assert(closed_fields(d));
                assert(no_format(JsonV::Bool(false)));
                assert(closed_objects(JsonV::Bool(false)));
                assert(no_format_fields(all) == (no_format_fields(all.subrange(0, all.len() - 1))
                    && all[all.len() - 1].0 != format_key() && no_format(all[all.len() - 1].1)));
                assert(no_format_fields(all));
                assert(closed_fields(all) == (closed_fields(all.subrange(0, all.len() - 1))
                    && closed_objects(all[all.len() - 1].1)));
                assert(closed_fields(all));
                lemma_drop_key_absent(base, addprops_key());
                lemma_lookup_absent(d, addprops_key());
                lemma_lookup_push(d, apf, addprops_key());
                assert(lookup_field(all, addprops_key()) == Some(JsonV::Bool(false)));
            } else {
                assert(!is_object_schema(base));
            }
        },
        _ => {},
    }
}

pub proof fn lemma_sanitize_wf_list(items: Seq<JsonV>)
    ensures
        no_format_list(sanitize_list(items)),
        closed_list(sanitize_list(items)),
    decreases items,
{
    if items.len() > 0 {
        let s0 = items.subrange(0, items.len() - 1);
        lemma_sanitize_wf_list(s0);
        lemma_sanitize_wf(items[items.len() - 1]);
        let d = sanitize_list(s0).push(sanitize(items[items.len() - 1]));
        assert(d.subrange(0, d.len() - 1) =~= sanitize_list(s0));
    }
}

pub proof fn lemma_sanitize_wf_fields(fields: Seq<(Seq<char>, JsonV)>)
    ensures
        no_format_fields(sanitize_fields(fields)),
        closed_fields(sanitize_fields(fields)),
    decreases fields,
{
    if fields.len() > 0 {
        let s0 = fields.subrange(0, fields.len() - 1);
        let f = fields[fields.len() - 1];
        lemma_sanitize_wf_fields(s0);
        if f.0 != format_key() {
            lemma_sanitize_wf(f.1);
            let d = sanitize_fields(s0).push((f.0, sanitize(f.1)));
            assert(d.subrange(0, d.len() - 1) =~= sanitize_fields(s0));
            assert(d[d.len() - 1] == (f.0, sanitize(f.1)));
        }
    }
}

pub open spec fn required_key() -> Seq<char> {
    "required"@
}

pub open spec fn items_key() -> Seq<char> {
    "items"@
}

/// Whether a value matches a schema `"type"` tag.
pub open spec fn type_ok(t: Seq<char>, v: JsonV) -> bool {
    if t == "integer"@ || t == "number"@ {
        v is Int
    } else if t == "string"@ {
        v is Str
    } else if t == "boolean"@ {
        v is Bool
    } else if t == "null"@ {
        v is Null
    } else if t == "array"@ {
        v is Arr
    } else if t == object_tag() {
        v is Obj
    } else {
        false
    }
}

/// The condition imposed by a schema's `"type"` field, if any.
pub open spec fn type_cond(sf: Seq<(Seq<char>, JsonV)>, v: JsonV) -> bool {
    match lookup_field(sf, type_key()) {
        Some(JsonV::Str(t)) => type_ok(t, v),
        Some(_) => false,
        None => true,
    }
}

/// Every key of a `"required"` list is a string naming a present field.
pub open spec fn required_ok(keys: Seq<JsonV>, vf: Seq<(Seq<char>, JsonV)>) -> bool
    decreases keys.len(),
{
    if keys.len() == 0 {
        true
    } else {
        required_ok(keys.subrange(0, keys.len() - 1), vf) && match keys[keys.len() - 1] {
            JsonV::Str(k) => lookup_field(vf, k) is Some,
            _ => false,
        }
    }
}

/// The condition imposed by a schema's `"required"` field, if any.
/// It only constrains object values; the type condition rejects the rest.
pub open spec fn required_cond(sf: Seq<(Seq<char>, JsonV)>, v: JsonV) -> bool {
    match lookup_field(sf, required_key()) {
        Some(JsonV::Arr(keys)) => match v {
            JsonV::Obj(vf) => required_ok(keys, vf),
            _ => true,
        },
        Some(_) => false,
        None => true,
    }
}

/// Whether the schema's `"properties"` object declares the key.
pub open spec fn declared(sf: Seq<(Seq<char>, JsonV)>, k: Seq<char>) -> bool {
    match lookup_field(sf, props_key()) {
        Some(JsonV::Obj(pf)) => lookup_field(pf, k) is Some,
        _ => false,
    }
}

/// Every field of the value carries a declared key.
pub open spec fn covered(vf: Seq<(Seq<char>, JsonV)>, sf: Seq<(Seq<char>, JsonV)>) -> bool
    decreases vf.len(),
{
    if vf.len() == 0 {
        true
    } else {
        covered(vf.subrange(0, vf.len() - 1), sf) && declared(sf, vf[vf.len() - 1].0)
    }
}

/// The condition imposed by `"additionalProperties": false`: an object
/// value may only carry declared keys.
pub open spec fn closed_cond(sf: Seq<(Seq<char>, JsonV)>, v: JsonV) -> bool {
    if lookup_field(sf, addprops_key()) == Some(JsonV::Bool(false)) {
        match v {
            JsonV::Obj(vf) => covered(vf, sf),
            _ => true,
        }
    } else {
        true
    }
}

/// A value satisfies a schema when it passes the type, required,
/// closed-object and per-property conditions. A boolean schema accepts
/// or rejects everything; other non-object schemas are permissive.
pub open spec fn valid(schema: JsonV, v: JsonV) -> bool
    decreases schema, 0int,
{
    match schema {
        JsonV::Bool(b) => b,
        JsonV::Obj(sf) => type_cond(sf, v) && required_cond(sf, v) && closed_cond(sf, v)
            && rec_conds(sf, v),
        _ => true,
    }
}

/// The recursive conditions: each `"properties"` field checks present
/// fields of the value against their declared schemas.
pub open spec fn rec_conds(sf: Seq<(Seq<char>, JsonV)>, v: JsonV) -> bool
    decreases sf, 0int,
{
    if sf.len() == 0 {
        true
    } else {
        rec_conds(sf.subrange(0, sf.len() - 1), v) && field_cond(sf[sf.len() - 1], v)
    }
}

pub open spec fn field_cond(f: (Seq<char>, JsonV), v: JsonV) -> bool
    decreases f, 0int,
{
    if f.0 == props_key() {
        match f.1 {
            JsonV::Obj(pf) => props_ok(pf, v),
            _ => false,
        }
    } else if f.0 == items_key() {
        match v {
            JsonV::Arr(elems) => items_ok(f.1, elems),
            _ => true,
        }
    } else {
        true
    }
}

/// Every element of an array value satisfies the `"items"` schema.
pub open spec fn items_ok(sch: JsonV, elems: Seq<JsonV>) -> bool
    decreases sch, 1int,
{
    forall|i: int| 0 <= i < elems.len() ==> valid(sch, #[trigger] elems[i])
}

/// Each declared property that is present in the value satisfies its
/// schema; absent properties are the business of `"required"`.
pub open spec fn props_ok(pf: Seq<(Seq<char>, JsonV)>, v: JsonV) -> bool
    decreases pf, 0int,
{
    if pf.len() == 0 {
        true
    } else {
        props_ok(pf.subrange(0, pf.len() - 1), v) && prop_cond(pf[pf.len() - 1], v)
    }
}

pub open spec fn prop_cond(f: (Seq<char>, JsonV), v: JsonV) -> bool
    decreases f, 0int,
{
    match v {
        JsonV::Obj(vf) => match lookup_field(vf, f.0) {
            Some(x) => valid(f.1, x),
            None => true,
        },
        _ => true,
    }
}

fn key_is(k: &String, lit: &str) -> (r: bool)
    ensures
        r == (k@ == lit@),
{
    let s: String = lit.to_owned();
    *k == s
}

fn fields_get<'a>(fields: &'a Vec<(String, Json)>, key: &str) -> (r: Option<&'a Json>)
    ensures
        match lookup_field(json_view_fields(fields@), key@) {
            Some(v) => r is Some && r->0@ == v,
            None => r is None,
        },
{
    let ghost m = json_view_fields(fields@);
    let n = fields.len();
    proof {
        lemma_json_view_fields_index(fields@);
        assert(m.skip(0) =~= m);
    }
    let mut i: usize = 0;
    while i < n
        invariant
            n == fields@.len(),
            0 <= i <= n,
            m == json_view_fields(fields@),
            m.len() == n,
            forall|k: int| 0 <= k < n ==> m[k] == (fields@[k].0@, crate::json::json_view(fields@[k].1)),
            lookup_field(m, key@) == lookup_field(m.skip(i as int), key@),
        decreases n - i,
    {
        proof {
            assert(m.skip(i as int)[0] == m[i as int]);
        }
        if key_is(&fields[i].0, key) {
            return Some(&fields[i].1);
        }
        proof {
            assert(m.skip(i as int).drop_first() =~= m.skip(i as int + 1));
        }
        i += 1;
    }
    proof {
        assert(m.skip(n as int) =~= Seq::<(Seq<char>, JsonV)>::empty());
    }
    None
}

fn is_object_schema_x(fields: &Vec<(String, Json)>) -> (r: bool)
    ensures
        r == is_object_schema(json_view_fields(fields@)),
{
    let ghost m = json_view_fields(fields@);
    let t = fields_get(fields, "type");
    let is_t = match t {
        Some(Json::Str(s)) => {
            let tag: String = "object".to_owned();
            *s == tag
        },
        _ => false,
    };
    proof {
        match lookup_field(m, type_key()) {
            Some(v) => {
                assert(is_t == (v == JsonV::Str(object_tag())));
            },
            None => {
                assert(!is_t);
            },
        }
    }
    if is_t {
        return true;
    }
    let p = fields_get(fields, "properties");
    match p {
        Some(_) => true,
        None => false,
    }
}

/// The sanitizer itself: returns the tree with both passes applied.
pub fn sanitize_json(j: &Json) -> (r: Json)
    ensures
        r@ == sanitize(j@),
    decreases *j,
{
    match j {
        Json::Null => Json::Null,
        Json::Bool(b) => Json::Bool(*b),
        Json::Int(i) => Json::Int(*i),
        Json::Str(s) => Json::Str(s.clone()),
        Json::Arr(items) => {
            let ghost m = json_view_list(items@);
            proof {
                lemma_json_view_list_index(items@);
                assert(m.subrange(0, 0) =~= Seq::<JsonV>::empty());
                assert(sanitize_list(m.subrange(0, 0)) =~= Seq::<JsonV>::empty());
            }
            let n = items.len();
            let mut out: Vec<Json> = Vec::new();
            let mut i: usize = 0;
            while i < n
                invariant
                    n == items@.len(),
                    0 <= i <= n,
                    j == Json::Arr(*items),
                    m == json_view_list(items@),
                    m.len() == n,
                    forall|k: int| 0 <= k < n ==> m[k] == crate::json::json_view(items@[k]),
                    json_view_list(out@) =~= sanitize_list(m.subrange(0, i as int)),
                    out@.len() == i,
                decreases n - i,
            {
                proof {
                    assert(j->Arr_0 == *items);
                    assert(decreases_to!(*j => *items));
                    assert(decreases_to!(*items => items@[i as int]));
                }
                let x = sanitize_json(&items[i]);
                let ghost prev = out@;
                out.push(x);
                proof {
                    lemma_json_view_list_index(out@);
                    lemma_json_view_list_index(prev);
                    assert(json_view_list(out@) =~= json_view_list(prev).push(x@));
                    let t1 = m.subrange(0, i + 1);
                    assert(t1.subrange(0, i as int) =~= m.subrange(0, i as int));
                    assert(t1[i as int] == m[i as int]);
                    assert(sanitize_list(t1) == sanitize_list(m.subrange(0, i as int)).push(
                        sanitize(m[i as int]),
                    ));
                    assert(json_view_list(out@) =~= sanitize_list(m.subrange(0, i + 1)));
                }
                i += 1;
            }
            proof {
                assert(m.subrange(0, n as int) =~= m);
                assert(JsonV::Arr(json_view_list(out@)) =~= sanitize(j@));
            }
            Json::Arr(out)
        },
        Json::Obj(fields) => {
            let ghost m = json_view_fields(fields@);
            let is_obj = is_object_schema_x(fields);
            proof {
                lemma_json_view_fields_index(fields@);
                assert(m.subrange(0, 0) =~= Seq::<(Seq<char>, JsonV)>::empty());
                assert(sanitize_fields(m.subrange(0, 0)) =~= Seq::<(Seq<char>, JsonV)>::empty());
            }
            let n = fields.len();
            let mut out: Vec<(String, Json)> = Vec::new();
            let mut i: usize = 0;
            while i < n
                invariant
                    n == fields@.len(),
                    0 <= i <= n,
                    j == Json::Obj(*fields),
                    m == json_view_fields(fields@),
                    m.len() == n,
                    forall|k: int|
                        0 <= k < n ==> m[k] == (
                            fields@[k].0@,
                            crate::json::json_view(fields@[k].1),
                        ),
                    json_view_fields(out@) =~= sanitize_fields(m.subrange(0, i as int)),
                decreases n - i,
            {
                let ghost t1 = m.subrange(0, i + 1);
                proof {
                    assert(t1.subrange(0, i as int) =~= m.subrange(0, i as int));
                    assert(t1[i as int] == m[i as int]);
                }
                if !key_is(&fields[i].0, "format") {
                    proof {
                        assert(j->Obj_0 == *fields);
                        assert(decreases_to!(*j => *fields));
                        assert(decreases_to!(*fields => fields@[i as int]));
                    }
                    let key = fields[i].0.clone();
                    let val = sanitize_json(&fields[i].1);
                    let ghost prev = out@;
                    out.push((key, val));
                    proof {
                        lemma_json_view_fields_index(out@);
                        lemma_json_view_fields_index(prev);
                        assert(json_view_fields(out@) =~= json_view_fields(prev).push(
                            (key@, val@),
                        ));
                        assert(sanitize_fields(t1) == sanitize_fields(
                            m.subrange(0, i as int),
                        ).push((m[i as int].0, sanitize(m[i as int].1))));
                        assert(json_view_fields(out@) =~= sanitize_fields(m.subrange(0, i + 1)));
                    }
                } else {
                    proof {
                        assert(sanitize_fields(t1) == sanitize_fields(m.subrange(0, i as int)));
                    }
                }
                i += 1;
            }
            proof {
                assert(m.subrange(0, n as int) =~= m);
            }
            if is_obj {
                let ghost base = json_view_fields(out@);
                proof {
                    lemma_json_view_fields_index(out@);
                    assert(base.subrange(0, 0) =~= Seq::<(Seq<char>, JsonV)>::empty());
                    assert(drop_key(base.subrange(0, 0), addprops_key()) =~= Seq::<
                        (Seq<char>, JsonV),
                    >::empty());
                }
                let n2 = out.len();
                let mut kept: Vec<(String, Json)> = Vec::new();
                let mut i2: usize = 0;
                while i2 < n2
                    invariant
                        n2 == out@.len(),
                        0 <= i2 <= n2,
                        base == json_view_fields(out@),
                        base.len() == n2,
                        forall|k: int|
                            0 <= k < n2 ==> base[k] == (
                                out@[k].0@,
                                crate::json::json_view(out@[k].1),
                            ),
                        json_view_fields(kept@) =~= drop_key(
                            base.subrange(0, i2 as int),
                            addprops_key(),
                        ),
                    decreases n2 - i2,
                {
                    let ghost t1 = base.subrange(0, i2 + 1);
                    proof {
                        assert(t1.subrange(0, i2 as int) =~= base.subrange(0, i2 as int));
                        assert(t1[i2 as int] == base[i2 as int]);
                    }
                    if !key_is(&out[i2].0, "additionalProperties") {
                        let key = out[i2].0.clone();
                        let val = out[i2].1.clone();
                        let ghost prev = kept@;
                        kept.push((key, val));
                        proof {
                            lemma_json_view_fields_index(kept@);
                            lemma_json_view_fields_index(prev);
                            assert(json_view_fields(kept@) =~= json_view_fields(prev).push(
                                (key@, val@),
                            ));
                            assert(json_view_fields(kept@) =~= drop_key(
                                base.subrange(0, i2 + 1),
                                addprops_key(),
                            ));
                        }
                    }
                    i2 += 1;
                }
                proof {
                    assert(base.subrange(0, n2 as int) =~= base);
                }
                let apk: String = "additionalProperties".to_owned();
                let ghost prev = kept@;
                kept.push((apk, Json::Bool(false)));
                proof {
                    lemma_json_view_fields_index(kept@);
                    lemma_json_view_fields_index(prev);
                    assert(json_view_fields(kept@) =~= json_view_fields(prev).push(
                        (addprops_key(), JsonV::Bool(false)),
                    ));
                    assert(JsonV::Obj(json_view_fields(kept@)) =~= sanitize(j@));
                }
                Json::Obj(kept)
            } else {
                proof {
                    assert(JsonV::Obj(json_view_fields(out@)) =~= sanitize(j@));
                }
                Json::Obj(out)
            }
        },
    }
}

fn fields_find<'a>(fields: &'a Vec<(String, Json)>, key: &String) -> (r: Option<&'a Json>)
    ensures
        match lookup_field(json_view_fields(fields@), key@) {
            Some(v) => r is Some && r->0@ == v,
            None => r is None,
        },
{
    let ghost m = json_view_fields(fields@);
    let n = fields.len();
    proof {
        lemma_json_view_fields_index(fields@);
        assert(m.skip(0) =~= m);
    }
    let mut i: usize = 0;
    while i < n
        invariant
            n == fields@.len(),
            0 <= i <= n,
            m == json_view_fields(fields@),
            m.len() == n,
            forall|k: int| 0 <= k < n ==> m[k] == (fields@[k].0@, crate::json::json_view(fields@[k].1)),
            lookup_field(m, key@) == lookup_field(m.skip(i as int), key@),
        decreases n - i,
    {
        proof {
            assert(m.skip(i as int)[0] == m[i as int]);
        }
        if fields[i].0 == *key {
            return Some(&fields[i].1);
        }
        proof {
            assert(m.skip(i as int).drop_first() =~= m.skip(i as int + 1));
        }
        i += 1;
    }
    proof {
        assert(m.skip(n as int) =~= Seq::<(Seq<char>, JsonV)>::empty());
    }
    None
}

fn type_ok_x(t: &String, v: &Json) -> (r: bool)
    ensures
        r == type_ok(t@, v@),
{
    if key_is(t, "integer") || key_is(t, "number") {
        match v {
            Json::Int(_) => true,
            _ => false,
        }
    } else if key_is(t, "string") {
        match v {
            Json::Str(_) => true,
            _ => false,
        }
    } else if key_is(t, "boolean") {
        match v {
            Json::Bool(_) => true,
            _ => false,
        }
    } else if key_is(t, "null") {
        match v {
            Json::Null => true,
            _ => false,
        }
    } else if key_is(t, "array") {
        match v {
            Json::Arr(_) => true,
            _ => false,
        }
    } else if key_is(t, "object") {
        match v {
            Json::Obj(_) => true,
            _ => false,
        }
    } else {
        false
    }
}

fn check_type(sf: &Vec<(String, Json)>, v: &Json) -> (r: bool)
    ensures
        r == type_cond(json_view_fields(sf@), v@),
{
    match fields_get(sf, "type") {
        None => true,
        Some(j) => match j {
            Json::Str(t) => type_ok_x(t, v),
            _ => false,
        },
    }
}

fn check_required(sf: &Vec<(String, Json)>, v: &Json) -> (r: bool)
    ensures
        r == required_cond(json_view_fields(sf@), v@),
{
    match fields_get(sf, "required") {
        None => true,
        Some(j) => match j {
            Json::Arr(keys) => match v {
                Json::Obj(vf) => {
                    let ghost mkeys = json_view_list(keys@);
                    let ghost mvf = json_view_fields(vf@);
                    proof {
                        lemma_json_view_list_index(keys@);
                        assert(mkeys.subrange(0, 0) =~= Seq::<JsonV>::empty());
                    }
                    let n = keys.len();
                    let mut ok = true;
                    let mut i: usize = 0;
                    while i < n
                        invariant
                            n == keys@.len(),
                            0 <= i <= n,
                            mkeys == json_view_list(keys@),
                            mkeys.len() == n,
                            forall|k: int|
                                0 <= k < n ==> mkeys[k] == crate::json::json_view(keys@[k]),
                            mvf == json_view_fields(vf@),
                            ok == required_ok(mkeys.subrange(0, i as int), mvf),
                        decreases n - i,
                    {
                        let here = match &keys[i] {
                            Json::Str(kk) => match fields_find(vf, kk) {
                                Some(_) => true,
                                None => false,
                            },
                            _ => false,
                        };
                        proof {
                            let t1 = mkeys.subrange(0, i + 1);
                            assert(t1.subrange(0, i as int) =~= mkeys.subrange(0, i as int));
                            assert(t1[i as int] == mkeys[i as int]);
                        }
                        ok = ok && here;
                        i += 1;
                    }
                    proof {
                        assert(mkeys.subrange(0, n as int) =~= mkeys);
                    }
                    ok
                },
                _ => true,
            },
            _ => false,
        },
    }
}

fn check_declared(sf: &Vec<(String, Json)>, key: &String) -> (r: bool)
    ensures
        r == declared(json_view_fields(sf@), key@),
{
    match fields_get(sf, "properties") {
        Some(j) => match j {
            Json::Obj(pf) => match fields_find(pf, key) {
                Some(_) => true,
                None => false,
            },
            _ => false,
        },
        None => false,
    }
}

fn check_closed(sf: &Vec<(String, Json)>, v: &Json) -> (r: bool)
    ensures
        r == closed_cond(json_view_fields(sf@), v@),
{
    let ghost msf = json_view_fields(sf@);
    let is_closed = match fields_get(sf, "additionalProperties") {
        Some(j) => match j {
            Json::Bool(b) => !*b,
            _ => false,
        },
        None => false,
    };
    proof {
        assert(is_closed == (lookup_field(msf, addprops_key()) == Some(JsonV::Bool(false))));
    }
    if !is_closed {
        return true;
    }
    match v {
        Json::Obj(vf) => {
            let ghost mvf = json_view_fields(vf@);
            proof {
                lemma_json_view_fields_index(vf@);
                assert(mvf.subrange(0, 0) =~= Seq::<(Seq<char>, JsonV)>::empty());
            }
            let n = vf.len();
            let mut ok = true;
            let mut i: usize = 0;
            while i < n
                invariant
                    n == vf@.len(),
                    0 <= i <= n,
                    msf == json_view_fields(sf@),
                    mvf == json_view_fields(vf@),
                    mvf.len() == n,
                    forall|k: int|
                        0 <= k < n ==> mvf[k] == (
                            vf@[k].0@,
                            crate::json::json_view(vf@[k].1),
                        ),
                    ok == covered(mvf.subrange(0, i as int), msf),
                decreases n - i,
            {
                let here = check_declared(sf, &vf[i].0);
                proof {
                    let t1 = mvf.subrange(0, i + 1);
                    assert(t1.subrange(0, i as int) =~= mvf.subrange(0, i as int));
                    assert(t1[i as int] == mvf[i as int]);
                }
                ok = ok && here;
                i += 1;
            }
            proof {
                assert(mvf.subrange(0, n as int) =~= mvf);
            }
            ok
        },
        _ => true,
    }
}

fn items_all(sch: &Json, elems: &Vec<Json>) -> (r: bool)
    requires
        elems@.len() > 0,
    ensures
        r == items_ok(sch@, json_view_list(elems@)),
    decreases *sch, elems@.len(),
{
    let ghost m = json_view_list(elems@);
    proof {
        lemma_json_view_list_index(elems@);
    }
    let n = elems.len();
    let mut ok = true;
    let mut i: usize = 0;
    while i < n
        invariant
            n == elems@.len(),
            0 < n,
            0 <= i <= n,
            m == json_view_list(elems@),
            m.len() == n,
            forall|k: int| 0 <= k < n ==> m[k] == crate::json::json_view(elems@[k]),
            ok == (forall|k: int| 0 <= k < i ==> valid(sch@, #[trigger] m[k])),
        decreases n - i,
    {
        proof {
            assert(decreases_to!(*elems => elems@[i as int]));
        }
        let here = validate_json(sch, &elems[i]);
        let ghost was = ok;
        ok = ok && here;
        proof {
            assert(here == valid(sch@, m[i as int]));
            if was && here {
                assert forall|k: int| 0 <= k < i + 1 implies valid(sch@, #[trigger] m[k]) by {
                    if k < i {
                        assert(valid(sch@, m[k]));
                    }
                }
            }
        }
        i += 1;
    }
    ok
}

fn props_all(pf: &Vec<(String, Json)>, v: &Json) -> (r: bool)
    ensures
        r == props_ok(json_view_fields(pf@), v@),
    decreases *pf, 0int,
{
    let ghost mpf = json_view_fields(pf@);
    proof {
        lemma_json_view_fields_index(pf@);
        assert(mpf.subrange(0, 0) =~= Seq::<(Seq<char>, JsonV)>::empty());
    }
    let n = pf.len();
    let mut ok = true;
    let mut i: usize = 0;
    while i < n
        invariant
            n == pf@.len(),
            0 <= i <= n,
            mpf == json_view_fields(pf@),
            mpf.len() == n,
            forall|k: int| 0 <= k < n ==> mpf[k] == (pf@[k].0@, crate::json::json_view(pf@[k].1)),
            ok == props_ok(mpf.subrange(0, i as int), v@),
        decreases n - i,
    {
        let here = match v {
            Json::Obj(vf) => match fields_find(vf, &pf[i].0) {
                Some(x) => {
                    proof {
                        assert(decreases_to!(*pf => pf@[i as int]));
                    }
                    validate_json(&pf[i].1, x)
                },
                None => true,
            },
            _ => true,
        };
        proof {
            let t1 = mpf.subrange(0, i + 1);
            assert(t1.subrange(0, i as int) =~= mpf.subrange(0, i as int));
            assert(t1[i as int] == mpf[i as int]);
            assert(here == prop_cond(mpf[i as int], v@));
        }
        ok = ok && here;
        i += 1;
    }
    proof {
        assert(mpf.subrange(0, n as int) =~= mpf);
    }
    ok
}

fn rec_props(sf: &Vec<(String, Json)>, v: &Json) -> (r: bool)
    ensures
        r == rec_conds(json_view_fields(sf@), v@),
    decreases *sf, 0int,
{
    let ghost msf = json_view_fields(sf@);
    proof {
        lemma_json_view_fields_index(sf@);
        assert(msf.subrange(0, 0) =~= Seq::<(Seq<char>, JsonV)>::empty());
    }
    let n = sf.len();
    let mut ok = true;
    let mut i: usize = 0;
    while i < n
        invariant
            n == sf@.len(),
            0 <= i <= n,
            msf == json_view_fields(sf@),
            msf.len() == n,
            forall|k: int| 0 <= k < n ==> msf[k] == (sf@[k].0@, crate::json::json_view(sf@[k].1)),
            ok == rec_conds(msf.subrange(0, i as int), v@),
        decreases n - i,
    {
        let here = if key_is(&sf[i].0, "properties") {
            match &sf[i].1 {
                Json::Obj(pf) => {
                    proof {
                        assert(decreases_to!(*sf => sf@[i as int]));
                        assert(sf@[i as int].1->Obj_0 == *pf);
                        assert(decreases_to!(sf@[i as int].1 => *pf));
                    }
                    props_all(pf, v)
                },
                _ => false,
            }
        } else if key_is(&sf[i].0, "items") {
            match v {
                Json::Arr(elems) => {
                    if elems.len() == 0 {
                        true
                    } else {
                        proof {
                            assert(decreases_to!(*sf => sf@[i as int]));
                        }
                        items_all(&sf[i].1, elems)
                    }
                },
                _ => true,
            }
        } else {
            true
        };
        proof {
            let t1 = msf.subrange(0, i + 1);
            assert(t1.subrange(0, i as int) =~= msf.subrange(0, i as int));
            assert(t1[i as int] == msf[i as int]);
            assert(here == field_cond(msf[i as int], v@));
        }
        ok = ok && here;
        i += 1;
    }
    proof {
        assert(msf.subrange(0, n as int) =~= msf);
    }
    ok
}

/// Whether a value satisfies a schema: the runtime decision procedure
/// for the input contract of a capability.
pub fn validate_json(schema: &Json, v: &Json) -> (r: bool)
    ensures
        r == valid(schema@, v@),
    decreases *schema, 0int,
{
    match schema {
        Json::Bool(b) => *b,
        Json::Obj(sf) => {
            let a = check_type(sf, v);
            let b = check_required(sf, v);
            let c = check_closed(sf, v);
            proof {
                assert(schema->Obj_0 == *sf);
                assert(decreases_to!(*schema => *sf));
            }
            let d = rec_props(sf, v);
            a && b && c && d
        },
        _ => true,
    }
}

} // verus!
