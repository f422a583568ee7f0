//! A self-contained JSON document model.
//!
//! Dynamic JSON values flow through the whole dispatch layer: tool-call
//! arguments, tool results, schemas, and usage reports. The executable
//! type `Json` keeps objects as ordered key/value lists; its mathematical
//! model `JsonV` uses unbounded integers and character sequences.

use vstd::prelude::*;

verus! {

broadcast use vstd::std_specs::vec::group_vec_axioms, vstd::seq::group_seq_axioms;

/// Mathematical model of a JSON document.
#[verifier::ext_equal]
pub enum JsonV {
    Null,
    Bool(bool),
    Int(int),
    Str(Seq<char>),
    Arr(Seq<JsonV>),
    Obj(Seq<(Seq<char>, JsonV)>),
}

/// Executable JSON document. Object fields keep their insertion order.
pub enum Json {
    Null,
    Bool(bool),
    Int(i64),
    Str(String),
    Arr(Vec<Json>),
    Obj(Vec<(String, Json)>),
}

pub open spec fn json_view(j: Json) -> JsonV
    decreases j,
{
    match j {
        Json::Null => JsonV::Null,
        Json::Bool(b) => JsonV::Bool(b),
        Json::Int(i) => JsonV::Int(i as int),
        Json::Str(s) => JsonV::Str(s@),
        Json::Arr(items) => JsonV::Arr(json_view_list(items@)),
        Json::Obj(fields) => JsonV::Obj(json_view_fields(fields@)),
    }
}

pub open spec fn json_view_list(items: Seq<Json>) -> Seq<JsonV>
    decreases items,
{
    if items.len() == 0 {
        Seq::empty()
    } else {
        json_view_list(items.subrange(0, items.len() - 1))
            .push(json_view(items[items.len() - 1]))
    }
}

pub open spec fn json_view_fields(fields: Seq<(String, Json)>) -> Seq<(Seq<char>, JsonV)>
    decreases fields,
{
    if fields.len() == 0 {
        Seq::empty()
    } else {
        json_view_fields(fields.subrange(0, fields.len() - 1))
            .push((fields[fields.len() - 1].0@, json_view(fields[fields.len() - 1].1)))
    }
}

pub broadcast proof fn lemma_json_view_list_index(items: Seq<Json>)
    ensures
        (#[trigger] json_view_list(items)).len() == items.len(),
        forall|i: int| 0 <= i < items.len() ==> json_view_list(items)[i] == json_view(items[i]),
    decreases items.len(),
{
    if items.len() > 0 {
        lemma_json_view_list_index(items.subrange(0, items.len() - 1));
    }
}

pub broadcast proof fn lemma_json_view_fields_index(fields: Seq<(String, Json)>)
    ensures
        (#[trigger] json_view_fields(fields)).len() == fields.len(),
        forall|i: int|
            0 <= i < fields.len() ==> json_view_fields(fields)[i]
                == (fields[i].0@, json_view(fields[i].1)),
    decreases fields.len(),
{
    if fields.len() > 0 {
        lemma_json_view_fields_index(fields.subrange(0, fields.len() - 1));
    }
}

impl View for Json {
    type V = JsonV;

    open spec fn view(&self) -> JsonV {
        json_view(*self)
    }
}

/// First binding of `key` among the fields of an object, if any.
pub open spec fn lookup_field(fields: Seq<(Seq<char>, JsonV)>, key: Seq<char>) -> Option<JsonV>
    decreases fields.len(),
{
    if fields.len() == 0 {
        None
    } else if fields[0].0 == key {
        Some(fields[0].1)
    } else {
        lookup_field(fields.drop_first(), key)
    }
}

impl Json {
    /// First value bound to `key`, if this document is an object that
    /// contains the key.
    pub fn get<'a>(&'a self, key: &String) -> (r: Option<&'a Json>)
        ensures
            match *self {
                Json::Obj(_) => match lookup_field(self@->Obj_0, key@) {
                    Some(v) => r is Some && r->0@ == v,
                    None => r is None,
                },
                _ => r is None,
            },
    {
        match self {
            Json::Obj(fields) => {
                let n = fields.len();
                proof {
                    lemma_json_view_fields_index(fields@);
                    assert(self@->Obj_0.skip(0) =~= self@->Obj_0);
                }
                let mut i: usize = 0;
                while i < n
                    invariant
                        n == fields@.len(),
                        0 <= i <= n,
                        lookup_field(self@->Obj_0, key@)
                            == lookup_field(self@->Obj_0.skip(i as int), key@),
                        self == Json::Obj(*fields),
                    decreases n - i,
                {
                    proof {
                        lemma_json_view_fields_index(fields@);
                        assert(self@->Obj_0.skip(i as int)[0] == self@->Obj_0[i as int]);
                        assert(self@->Obj_0[i as int] == (fields@[i as int].0@, json_view(fields@[i as int].1)));
                    }
                    if fields[i].0 == *key {
                        return Some(&fields[i].1);
                    }
                    proof {
                        assert(self@->Obj_0.skip(i as int).drop_first()
                            =~= self@->Obj_0.skip(i as int + 1));
                    }
                    i += 1;
                }
                proof {
                    assert(self@->Obj_0.skip(n as int) =~= Seq::<(Seq<char>, JsonV)>::empty());
                }
                None
            },
            _ => None,
        }
    }
}

/// Deep structural equality of two documents, decided at runtime and
/// equivalent to equality of their models.
pub fn json_eq(a: &Json, b: &Json) -> (r: bool)
    ensures
        r == (a@ == b@),
    decreases *a,
{
    match (a, b) {
        (Json::Null, Json::Null) => true,
        (Json::Bool(x), Json::Bool(y)) => *x == *y,
        (Json::Int(x), Json::Int(y)) => *x == *y,
        (Json::Str(x), Json::Str(y)) => *x == *y,
        (Json::Arr(x), Json::Arr(y)) => {
            proof {
                lemma_json_view_list_index(x@);
                lemma_json_view_list_index(y@);
            }
            if x.len() != y.len() {
                return false;
            }
            let n = x.len();
            let mut i: usize = 0;
            while i < n
                invariant
                    n == x@.len() == y@.len(),
                    0 <= i <= n,
                    a == Json::Arr(*x) && b == Json::Arr(*y),
                    forall|k: int| 0 <= k < i ==> json_view(x@[k]) == json_view(y@[k]),
                decreases n - i,
            {
                proof {
                    assert(a->Arr_0 == *x);
                    assert(decreases_to!(*a => *x));
                    assert(decreases_to!(*x => x@[i as int]));
                }
                if !json_eq(&x[i], &y[i]) {
                    proof {
                        lemma_json_view_list_index(x@);
                        lemma_json_view_list_index(y@);
                        assert(json_view_list(x@)[i as int] != json_view_list(y@)[i as int]);
                    }
                    return false;
                }
                i += 1;
            }
            proof {
                lemma_json_view_list_index(x@);
                lemma_json_view_list_index(y@);
                assert(json_view_list(x@) =~= json_view_list(y@));
            }
            true
        },
        (Json::Obj(x), Json::Obj(y)) => {
            proof {
                lemma_json_view_fields_index(x@);
                lemma_json_view_fields_index(y@);
            }
            if x.len() != y.len() {
                return false;
            }
            let n = x.len();
            let mut i: usize = 0;
            while i < n
                invariant
                    n == x@.len() == y@.len(),
                    0 <= i <= n,
                    a == Json::Obj(*x) && b == Json::Obj(*y),
                    forall|k: int|
                        0 <= k < i ==> x@[k].0@ == y@[k].0@ && json_view(x@[k].1) == json_view(
                            y@[k].1,
                        ),
                decreases n - i,
            {
                proof {
                    assert(a->Obj_0 == *x);
                    assert(decreases_to!(*a => *x));
                    assert(decreases_to!(*x => x@[i as int]));
                }
                if !(x[i].0 == y[i].0) || !json_eq(&x[i].1, &y[i].1) {
                    proof {
                        lemma_json_view_fields_index(x@);
                        lemma_json_view_fields_index(y@);
                        assert(json_view_fields(x@)[i as int] != json_view_fields(y@)[i as int]);
                    }
                    return false;
                }
                i += 1;
            }
            proof {
                lemma_json_view_fields_index(x@);
                lemma_json_view_fields_index(y@);
                assert(json_view_fields(x@) =~= json_view_fields(y@));
            }
            true
        },
        _ => {
            proof {
                assert(a@ != b@);
            }
            false
        },
    }
}

impl Clone for Json {
    /// A deep copy whose model is the model of the original.
    fn clone(&self) -> (r: Self)
        ensures
            r@ == self@,
        decreases *self,
    {
        match self {
            Json::Null => Json::Null,
            Json::Bool(b) => Json::Bool(*b),
            Json::Int(i) => Json::Int(*i),
            Json::Str(s) => Json::Str(s.clone()),
            Json::Arr(items) => {
                let n = items.len();
                let mut out: Vec<Json> = Vec::new();
                let mut i: usize = 0;
                while i < n
                    invariant
                        n == items@.len(),
                        0 <= i <= n,
                        out@.len() == i,
                        self == Json::Arr(*items),
                        forall|k: int| 0 <= k < i ==> json_view(out@[k]) == json_view(items@[k]),
                    decreases n - i,
                {
                    proof {
                        assert(self->Arr_0 == *items);
                        assert(decreases_to!(*self => *items));
                        assert(decreases_to!(*items => items@[i as int]));
                    }
                    let c = items[i].clone();
                    out.push(c);
                    i += 1;
                }
                proof {
                    lemma_json_view_list_index(out@);
                    lemma_json_view_list_index(items@);
                    assert(json_view_list(out@) =~= json_view_list(items@));
                }
                Json::Arr(out)
            },
            Json::Obj(fields) => {
                let n = fields.len();
                let mut out: Vec<(String, Json)> = Vec::new();
                let mut i: usize = 0;
                while i < n
                    invariant
                        n == fields@.len(),
                        0 <= i <= n,
                        out@.len() == i,
                        self == Json::Obj(*fields),
                        forall|k: int|
                            0 <= k < i ==> out@[k].0@ == fields@[k].0@ && json_view(out@[k].1)
                                == json_view(fields@[k].1),
                    decreases n - i,
                {
                    proof {
                        assert(self->Obj_0 == *fields);
                        assert(decreases_to!(*self => *fields));
                        assert(decreases_to!(*fields => fields@[i as int]));
                    }
                    let key = fields[i].0.clone();
                    let val = fields[i].1.clone();
                    out.push((key, val));
                    i += 1;
                }
                proof {
                    lemma_json_view_fields_index(out@);
                    lemma_json_view_fields_index(fields@);
                    assert(json_view_fields(out@) =~= json_view_fields(fields@));
                }
                Json::Obj(out)
            },
        }
    }
}

/// A JSON string built from a literal.
pub fn str_of(s: &str) -> (r: Json)
    ensures
        r@ == JsonV::Str(s@),
{
    Json::Str(s.to_owned())
}

/// An object with one field.
pub fn obj1(k: &str, v: Json) -> (r: Json)
    ensures
        r@ == JsonV::Obj(seq![(k@, v@)]),
{
    let mut f: Vec<(String, Json)> = Vec::new();
    f.push((k.to_owned(), v));
    proof {
        lemma_json_view_fields_index(f@);
        assert(json_view_fields(f@) =~= seq![(k@, f@[0].1@)]);
    }
    Json::Obj(f)
}

/// An object with two fields.
pub fn obj2(k1: &str, v1: Json, k2: &str, v2: Json) -> (r: Json)
    ensures
        r@ == JsonV::Obj(seq![(k1@, v1@), (k2@, v2@)]),
{
    let ghost m1 = v1@;
    let ghost m2 = v2@;
    let mut f: Vec<(String, Json)> = Vec::new();
    f.push((k1.to_owned(), v1));
    f.push((k2.to_owned(), v2));
    proof {
        lemma_json_view_fields_index(f@);
        assert(json_view_fields(f@) =~= seq![(k1@, m1), (k2@, m2)]);
    }
    Json::Obj(f)
}

/// An object with three fields.
pub fn obj3(k1: &str, v1: Json, k2: &str, v2: Json, k3: &str, v3: Json) -> (r: Json)
    ensures
        r@ == JsonV::Obj(seq![(k1@, v1@), (k2@, v2@), (k3@, v3@)]),
{
    let ghost m1 = v1@;
    let ghost m2 = v2@;
    let ghost m3 = v3@;
    let mut f: Vec<(String, Json)> = Vec::new();
    f.push((k1.to_owned(), v1));
    f.push((k2.to_owned(), v2));
    f.push((k3.to_owned(), v3));
    proof {
        lemma_json_view_fields_index(f@);
        assert(json_view_fields(f@) =~= seq![(k1@, m1), (k2@, m2), (k3@, m3)]);
    }
    Json::Obj(f)
}

/// An array with one element.
pub fn arr1(v: Json) -> (r: Json)
    ensures
        r@ == JsonV::Arr(seq![v@]),
{
    let ghost m = v@;
    let mut items: Vec<Json> = Vec::new();
    items.push(v);
    proof {
        lemma_json_view_list_index(items@);
        assert(json_view_list(items@) =~= seq![m]);
    }
    Json::Arr(items)
}

/// An array with two elements.
pub fn arr2(v1: Json, v2: Json) -> (r: Json)
    ensures
        r@ == JsonV::Arr(seq![v1@, v2@]),
{
    let ghost m1 = v1@;
    let ghost m2 = v2@;
    let mut items: Vec<Json> = Vec::new();
    items.push(v1);
    items.push(v2);
    proof {
        lemma_json_view_list_index(items@);
        assert(json_view_list(items@) =~= seq![m1, m2]);
    }
    Json::Arr(items)
}

} // verus!
