//! The capability registry and the dispatcher.
//!
//! Independently written capabilities register under a uniform contract:
//! a name, a description, an input schema, an output schema and a
//! handler. Dispatch resolves a call by name, validates the argument
//! payload against the stored input schema, runs the handler, and always
//! returns a JSON value: every failure is rendered as an `{"Err": ...}`
//! envelope rather than escaping, so a failing tool stays visible to the
//! model as ordinary tool-result content.

use vstd::prelude::*;
use vstd::string::*;

use crate::json::{Json, JsonV, arr1, arr2, obj1, obj3, str_of};
use crate::schema::{closed_objects, lemma_sanitize_wf, no_format, object_tag, props_key,
    required_key, sanitize, sanitize_json, type_key, valid, validate_json};
use crate::text::{json_text, to_json_text};

verus! {

broadcast use vstd::std_specs::vec::group_vec_axioms, vstd::seq::group_seq_axioms;

/// A capability's handler. Implementations decode what they need from
/// the argument document and report failure as a message string; the
/// dispatcher renders either outcome as data. The receiver is mutable so
/// a terminal capability can write its completion signal.
pub trait Callable {
    fn call(&mut self, input: Json) -> Result<Json, String>;
}

/// What the registry records about one capability, as seen by contracts.
pub struct CallableInfo {
    pub name: Seq<char>,
    pub description: Seq<char>,
    pub input_schema: JsonV,
}

/// One tool as offered to the model backend.
pub struct ToolDefinition {
    pub name: String,
    pub description: String,
    pub parameters: Json,
    pub strict: bool,
}

/// Model of a tool definition.
pub struct ToolDefinitionV {
    pub name: Seq<char>,
    pub description: Seq<char>,
    pub parameters: JsonV,
    pub strict: bool,
}

impl View for ToolDefinition {
    type V = ToolDefinitionV;

    open spec fn view(&self) -> ToolDefinitionV {
        ToolDefinitionV {
            name: self.name@,
            description: self.description@,
            parameters: self.parameters@,
            strict: self.strict,
        }
    }
}

/// Registering a name that is already taken is a conflict.
#[derive(Clone, Copy, PartialEq, Eq, Structural, Debug)]
pub enum RegistryError {
    DuplicateName,
}

/// The three ways a dispatch can fail before or inside the handler.
#[derive(Debug)]
pub enum DispatchError {
    NotFound,
    Decode,
    Handler(String),
}

struct Entry<C> {
    name: String,
    description: String,
    input_schema: Json,
    callable: C,
}

/// The capability registry: named capabilities with their sanitized
/// input schemas, their documentation and their handlers.
pub struct Callables<C> {
    entries: Vec<Entry<C>>,
}

/// The `{"Ok": value}` success envelope.
pub open spec fn ok_envelope(v: JsonV) -> JsonV {
    JsonV::Obj(seq![("Ok"@, v)])
}

/// The `{"Err": message}` failure envelope.
pub open spec fn err_envelope(m: Seq<char>) -> JsonV {
    JsonV::Obj(seq![("Err"@, JsonV::Str(m))])
}

/// Every dispatch result is one of the two envelopes.
pub open spec fn is_envelope(v: JsonV) -> bool {
    (exists|x: JsonV| v == ok_envelope(x)) || (exists|m: Seq<char>| v == err_envelope(m))
}

pub open spec fn not_found_msg() -> Seq<char> {
    "Callable not found"@
}

pub open spec fn decode_msg() -> Seq<char> {
    "arguments do not satisfy the input schema"@
}

/// The schema documenting a capability's result: exactly one of the
/// successful output value or a string failure message.
pub open spec fn result_schema(os: JsonV) -> JsonV {
    JsonV::Obj(
        seq![
            ("oneOf"@, JsonV::Arr(seq![ok_branch(os), err_branch()])),
        ],
    )
}

pub open spec fn ok_branch(os: JsonV) -> JsonV {
    JsonV::Obj(
        seq![
            (type_key(), JsonV::Str(object_tag())),
            (props_key(), JsonV::Obj(seq![("Ok"@, os)])),
            (required_key(), JsonV::Arr(seq![JsonV::Str("Ok"@)])),
        ],
    )
}

pub open spec fn err_branch() -> JsonV {
    JsonV::Obj(
        seq![
            (type_key(), JsonV::Str(object_tag())),
            (
                props_key(),
                JsonV::Obj(seq![("Err"@, JsonV::Obj(seq![(type_key(), JsonV::Str("string"@))]))]),
            ),
            (required_key(), JsonV::Arr(seq![JsonV::Str("Err"@)])),
        ],
    )
}

/// The documented output shape, sanitized like every schema.
pub open spec fn described_output(os: JsonV) -> JsonV {
    sanitize(result_schema(os))
}

/// The stored description: the capability's own prose, then its
/// documented output schema rendered to text.
pub open spec fn full_description(d: Seq<char>, os: JsonV) -> Seq<char> {
    d + "\nreturns:\n"@ + json_text(described_output(os))
}

/// Whether some recorded capability bears the name.
pub open spec fn spec_has_name(reg: Seq<CallableInfo>, n: Seq<char>) -> bool {
    exists|i: int| 0 <= i < reg.len() && (#[trigger] reg[i]).name == n
}

/// The position of the named capability.
pub open spec fn spec_idx_of(reg: Seq<CallableInfo>, n: Seq<char>) -> int {
    choose|i: int| 0 <= i < reg.len() && (#[trigger] reg[i]).name == n
}

impl<C> Callables<C> {
    /// The registry as contracts see it: the recorded capability facts,
    /// in registration order.
    pub closed spec fn view(&self) -> Seq<CallableInfo> {
        self.entries@.map_values(
            |e: Entry<C>|
                CallableInfo {
                    name: e.name@,
                    description: e.description@,
                    input_schema: e.input_schema@,
                },
        )
    }

    /// Capability names are unique.
    pub open spec fn wf(&self) -> bool {
        forall|i: int, j: int|
            0 <= i < j < self@.len() ==> (#[trigger] self@[i]).name != (#[trigger] self@[j]).name
    }

    pub open spec fn has_name(&self, n: Seq<char>) -> bool {
        spec_has_name(self@, n)
    }

    /// The position of the named capability.
    pub open spec fn idx_of(&self, n: Seq<char>) -> int {
        spec_idx_of(self@, n)
    }

    pub fn new() -> (r: Self)
        ensures
            r@ =~= Seq::<CallableInfo>::empty(),
            r.wf(),
    {
        Callables { entries: Vec::new() }
    }

    fn find(&self, name: &String) -> (r: Option<usize>)
        ensures
            match r {
                Some(i) => 0 <= i < self@.len() && self@[i as int].name == name@,
                None => forall|k: int| 0 <= k < self@.len() ==> (#[trigger] self@[k]).name != name@,
            },
    {
        let n = self.entries.len();
        proof {
            assert(self@.len() == self.entries@.len());
        }
        let mut i: usize = 0;
        while i < n
            invariant
                n == self.entries@.len(),
                self@.len() == n,
                0 <= i <= n,
                forall|k: int| 0 <= k < n ==> (#[trigger] self@[k]).name == self.entries@[k].name@,
                forall|k: int| 0 <= k < i ==> (#[trigger] self@[k]).name != name@,
            decreases n - i,
        {
            if self.entries[i].name == *name {
                return Some(i);
            }
            i += 1;
        }
        None
    }

    /// Registers a capability. A name that is already present is a
    /// conflict and leaves the registry unchanged; otherwise the entry
    /// is recorded with its sanitized input schema and its description
    /// extended by the documented output shape.
    pub fn add(
        &mut self,
        name: String,
        description: String,
        input_schema: Json,
        output_schema: Json,
        callable: C,
    ) -> (r: Result<(), RegistryError>)
        ensures
            old(self).has_name(name@) ==> r == Err::<(), RegistryError>(
                RegistryError::DuplicateName,
            ) && final(self)@ == old(self)@,
            !old(self).has_name(name@) ==> r == Ok::<(), RegistryError>(()) && final(self)@
                =~= old(self)@.push(
                CallableInfo {
                    name: name@,
                    description: full_description(description@, output_schema@),
                    input_schema: sanitize(input_schema@),
                },
            ),
            old(self).wf() ==> final(self).wf(),
            no_format(sanitize(input_schema@)) && closed_objects(sanitize(input_schema@)),
    {
        proof {
            lemma_sanitize_wf(input_schema@);
        }
        match self.find(&name) {
            Some(_) => {
                proof {
                    assert(old(self).has_name(name@));
                }
                Err(RegistryError::DuplicateName)
            },
            None => {
                proof {
                    assert(!old(self).has_name(name@));
                }
                let sanitized = sanitize_json(&input_schema);
                let doc = described_output_x(&output_schema);
                let rendered = to_json_text(&doc);
                let ghost d0 = description@;
                let mut description = description;
                description.append("\nreturns:\n");
                description.append(rendered.as_str());
                proof {
                    assert(description@ =~= full_description(d0, output_schema@));
                }
                let ghost oldmap = self@;
                self.entries.push(
                    Entry { name, description, input_schema: sanitized, callable },
                );
                proof {
                    assert(final(self)@ =~= oldmap.push(
                        CallableInfo {
                            name: name@,
                            description: full_description(d0, output_schema@),
                            input_schema: sanitize(input_schema@),
                        },
                    ));
                    let newmap = self@;
                    if old(self).wf() {
                        assert forall|i: int, j: int|
                            0 <= i < j < newmap.len() implies (#[trigger] newmap[i]).name != (
                        #[trigger] newmap[j]).name by {
                            if j < oldmap.len() {
                            } else {
                                assert(newmap[j].name == name@);
                                assert(!old(self).has_name(name@));
                            }
                        }
                    }
                }
                Ok(())
            },
        }
    }

}

/// Renders a handler outcome as the result envelope: success as
/// `{"Ok": value}`, failure as `{"Err": message}` — never both, never
/// neither.
pub fn envelope(res: Result<Json, String>) -> (r: Json)
    ensures
        match res {
            Ok(v) => r@ == ok_envelope(v@),
            Err(m) => r@ == err_envelope(m@),
        },
{
    match res {
        Ok(v) => obj1("Ok", v),
        Err(m) => obj1("Err", Json::Str(m)),
    }
}

impl<C: Callable> Callables<C> {
    /// Resolves and runs one call. The registry's recorded facts are
    /// unchanged; only the named handler's own state may move.
    pub fn call_inner(&mut self, name: &String, input: Json) -> (r: Result<Json, DispatchError>)
        requires
            old(self).wf(),
        ensures
            final(self)@ == old(self)@,
            !old(self).has_name(name@) ==> r matches Err(DispatchError::NotFound),
            old(self).has_name(name@) && !valid(
                old(self)@[old(self).idx_of(name@)].input_schema,
                input@,
            ) ==> r matches Err(DispatchError::Decode),
            old(self).has_name(name@) && valid(
                old(self)@[old(self).idx_of(name@)].input_schema,
                input@,
            ) ==> (r is Ok || r matches Err(DispatchError::Handler(_))),
    {
        match self.find(name) {
            None => {
                proof {
                    assert(!old(self).has_name(name@));
                }
                Err(DispatchError::NotFound)
            },
            Some(i) => {
                proof {
                    assert(old(self).has_name(name@));
                    let j = old(self).idx_of(name@);
                    assert(0 <= j < old(self)@.len() && old(self)@[j].name == name@);
                    assert(j == i as int);
                }
                let ghost oldmap = self@;
                let mut e = self.entries.remove(i);
                let out: Result<Json, DispatchError> = if validate_json(&e.input_schema, &input) {
                    match e.callable.call(input) {
                        Ok(v) => Ok(v),
                        Err(m) => Err(DispatchError::Handler(m)),
                    }
                } else {
                    Err(DispatchError::Decode)
                };
                self.entries.insert(i, e);
                proof {
                    assert(final(self)@ =~= oldmap);
                }
                out
            },
        }
    }

    /// Dispatch: always returns a JSON value. An unregistered name or a
    /// payload violating the input contract is reported inside an
    /// `{"Err": ...}` envelope; a handler outcome is wrapped as
    /// `{"Ok": value}` or `{"Err": message}`. Nothing escapes.
    pub fn call(&mut self, name: &String, input: Json) -> (r: Json)
        requires
            old(self).wf(),
        ensures
            final(self)@ == old(self)@,
            is_envelope(r@),
            !old(self).has_name(name@) ==> r@ == err_envelope(not_found_msg()),
            old(self).has_name(name@) && !valid(
                old(self)@[old(self).idx_of(name@)].input_schema,
                input@,
            ) ==> r@ == err_envelope(decode_msg()),
    {
        match self.call_inner(name, input) {
            Ok(v) => envelope(Ok(v)),
            Err(DispatchError::NotFound) => envelope(Err("Callable not found".to_owned())),
            Err(DispatchError::Decode) => envelope(
                Err("arguments do not satisfy the input schema".to_owned()),
            ),
            Err(DispatchError::Handler(m)) => envelope(Err(m)),
        }
    }

}

impl<C> Callables<C> {
    /// A borrow of the named capability's handler, for the driver to
    /// observe handler-owned state such as a termination signal.
    pub fn handler<'a>(&'a self, name: &String) -> (r: Option<&'a C>)
        ensures
            r is Some <==> self.has_name(name@),
    {
        match self.find(name) {
            Some(i) => Some(&self.entries[i].callable),
            None => None,
        }
    }

    /// The full tool-definition list for a request: one definition per
    /// registered capability, in registration order, each strict.
    pub fn tools(&self) -> (r: Vec<ToolDefinition>)
        ensures
            r@.len() == self@.len(),
            forall|i: int|
                0 <= i < r@.len() ==> (#[trigger] r@[i])@ == spec_tool_def(self@[i]),
    {
        let n = self.entries.len();
        proof {
            assert(self@.len() == self.entries@.len());
        }
        let mut out: Vec<ToolDefinition> = Vec::new();
        let mut i: usize = 0;
        while i < n
            invariant
                n == self.entries@.len(),
                self@.len() == n,
                0 <= i <= n,
                out@.len() == i,
                forall|k: int|
                    0 <= k < n ==> #[trigger] self@[k] == (CallableInfo {
                        name: self.entries@[k].name@,
                        description: self.entries@[k].description@,
                        input_schema: self.entries@[k].input_schema@,
                    }),
                forall|k: int| 0 <= k < i ==> (#[trigger] out@[k])@ == spec_tool_def(self@[k]),
            decreases n - i,
        {
            let e = &self.entries[i];
            let td = ToolDefinition {
                name: e.name.clone(),
                description: e.description.clone(),
                parameters: e.input_schema.clone(),
                strict: true,
            };
            out.push(td);
            i += 1;
        }
        out
    }
}

/// The tool definition recorded facts induce.
pub open spec fn spec_tool_def(info: CallableInfo) -> ToolDefinitionV {
    ToolDefinitionV {
        name: info.name,
        description: info.description,
        parameters: info.input_schema,
        strict: true,
    }
}

/// Listing tools is a pure function of the registry: two lists taken
/// from the same registry state are equal element by element, and so
/// equal as sets of tool definitions.
pub proof fn law_tools_deterministic(
    reg: Seq<CallableInfo>,
    r1: Seq<ToolDefinitionV>,
    r2: Seq<ToolDefinitionV>,
)
    requires
        r1.len() == reg.len(),
        forall|i: int| 0 <= i < r1.len() ==> #[trigger] r1[i] == spec_tool_def(reg[i]),
        r2.len() == reg.len(),
        forall|i: int| 0 <= i < r2.len() ==> #[trigger] r2[i] == spec_tool_def(reg[i]),
    ensures
        r1 == r2,
        r1.to_set() == r2.to_set(),
{
    assert(r1 =~= r2);
}

/// The executable builder for the documented output schema.
fn described_output_x(output_schema: &Json) -> (r: Json)
    ensures
        r@ == described_output(output_schema@),
{
    let os = output_schema.clone();
    let okb = obj3(
        "type",
        str_of("object"),
        "properties",
        obj1("Ok", os),
        "required",
        arr1(str_of("Ok")),
    );
    let errb = obj3(
        "type",
        str_of("object"),
        "properties",
        obj1("Err", obj1("type", str_of("string"))),
        "required",
        arr1(str_of("Err")),
    );
    proof {
        assert(okb@ =~= ok_branch(output_schema@));
        assert(errb@ =~= err_branch());
    }
    let raw = obj1("oneOf", arr2(okb, errb));
    proof {
        assert(raw@ =~= result_schema(output_schema@));
    }
    sanitize_json(&raw)
}

} // verus!
