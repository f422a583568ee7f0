//! Rendering a JSON document to its textual form.
//!
//! The dispatch layer needs text in two places: a capability's output
//! schema is rendered into its description, and every tool-result message
//! carries the JSON-encoded success/failure envelope as its content.

use vstd::prelude::*;
use vstd::string::*;

use crate::json::{Json, JsonV, json_view_list, json_view_fields, lemma_json_view_list_index,
    lemma_json_view_fields_index};

verus! {

broadcast use vstd::std_specs::vec::group_vec_axioms, vstd::seq::group_seq_axioms;

/// The decimal digit character for `d`.
pub open spec fn dec_digit(d: int) -> char {
    if d == 0 {
        '0'
    } else if d == 1 {
        '1'
    } else if d == 2 {
        '2'
    } else if d == 3 {
        '3'
    } else if d == 4 {
        '4'
    } else if d == 5 {
        '5'
    } else if d == 6 {
        '6'
    } else if d == 7 {
        '7'
    } else if d == 8 {
        '8'
    } else {
        '9'
    }
}

/// The lower-case hexadecimal digit character for `d`.
pub open spec fn hex_digit(d: int) -> char {
    if d < 10 {
        dec_digit(d)
    } else if d == 10 {
        'a'
    } else if d == 11 {
        'b'
    } else if d == 12 {
        'c'
    } else if d == 13 {
        'd'
    } else if d == 14 {
        'e'
    } else {
        'f'
    }
}

/// Decimal representation of a non-negative integer, most significant
/// digit first.
pub open spec fn dec_rep(n: nat) -> Seq<char>
    decreases n,
{
    if n < 10 {
        seq![dec_digit(n as int)]
    } else {
        dec_rep(n / 10).push(dec_digit((n % 10) as int))
    }
}

/// Textual form of an integer: a minus sign for negative values, then
/// the decimal digits.
pub open spec fn int_text(i: int) -> Seq<char> {
    if i < 0 {
        seq!['-'] + dec_rep((-i) as nat)
    } else {
        dec_rep(i as nat)
    }
}

/// JSON escape of one character: quotes and backslashes are escaped,
/// control characters take the `\u00XX` form, everything else stands
/// for itself.
pub open spec fn esc_char(c: char) -> Seq<char> {
    if c == '"' {
        seq!['\\', '"']
    } else if c == '\\' {
        seq!['\\', '\\']
    } else if (c as int) < 32 {
        seq!['\\', 'u', '0', '0', hex_digit(c as int / 16), hex_digit(c as int % 16)]
    } else {
        seq![c]
    }
}

/// JSON escape of a whole character sequence.
pub open spec fn esc_seq(s: Seq<char>) -> Seq<char>
    decreases s.len(),
{
    if s.len() == 0 {
        Seq::empty()
    } else {
        esc_seq(s.subrange(0, s.len() - 1)) + esc_char(s[s.len() - 1])
    }
}

/// Textual form of a JSON string: the escaped characters in quotes.
pub open spec fn str_text(s: Seq<char>) -> Seq<char> {
    seq!['"'] + esc_seq(s) + seq!['"']
}

/// Textual form of a JSON document: no spacing, object fields in their
/// stored order.
pub open spec fn json_text(v: JsonV) -> Seq<char>
    decreases v,
{
    match v {
        JsonV::Null => seq!['n', 'u', 'l', 'l'],
        JsonV::Bool(b) => if b {
            seq!['t', 'r', 'u', 'e']
        } else {
            seq!['f', 'a', 'l', 's', 'e']
        },
        JsonV::Int(i) => int_text(i),
        JsonV::Str(s) => str_text(s),
        JsonV::Arr(items) => seq!['['] + list_text(items) + seq![']'],
        JsonV::Obj(fields) => seq!['{'] + fields_text(fields) + seq!['}'],
    }
}

/// Comma-separated textual forms of the elements of an array.
pub open spec fn list_text(items: Seq<JsonV>) -> Seq<char>
    decreases items,
{
    if items.len() == 0 {
        Seq::empty()
    } else if items.len() == 1 {
        json_text(items[0])
    } else {
        list_text(items.subrange(0, items.len() - 1)) + seq![','] + json_text(
            items[items.len() - 1],
        )
    }
}

/// Comma-separated `"key":value` renderings of the fields of an object.
pub open spec fn fields_text(fields: Seq<(Seq<char>, JsonV)>) -> Seq<char>
    decreases fields,
{
    if fields.len() == 0 {
        Seq::empty()
    } else if fields.len() == 1 {
        field_text(fields[0])
    } else {
        fields_text(fields.subrange(0, fields.len() - 1)) + seq![','] + field_text(
            fields[fields.len() - 1],
        )
    }
}

/// One `"key":value` rendering.
pub open spec fn field_text(f: (Seq<char>, JsonV)) -> Seq<char>
    decreases f,
{
    str_text(f.0) + seq![':'] + json_text(f.1)
}

/// Relies on std's `String::push`: appends exactly the given character.
#[verifier::external_body]
fn push_char(out: &mut String, c: char)
    ensures
        final(out)@ == old(out)@.push(c),
{
    out.push(c);
}

fn dec_digit_x(d: u64) -> (c: char)
    requires
        d < 10,
    ensures
        c == dec_digit(d as int),
{
    if d == 0 {
        '0'
    } else if d == 1 {
        '1'
    } else if d == 2 {
        '2'
    } else if d == 3 {
        '3'
    } else if d == 4 {
        '4'
    } else if d == 5 {
        '5'
    } else if d == 6 {
        '6'
    } else if d == 7 {
        '7'
    } else if d == 8 {
        '8'
    } else {
        '9'
    }
}

fn hex_digit_x(d: u32) -> (c: char)
    requires
        d < 16,
    ensures
        c == hex_digit(d as int),
{
    if d < 10 {
        dec_digit_x(d as u64)
    } else if d == 10 {
        'a'
    } else if d == 11 {
        'b'
    } else if d == 12 {
        'c'
    } else if d == 13 {
        'd'
    } else if d == 14 {
        'e'
    } else {
        'f'
    }
}

fn write_dec(out: &mut String, n: u64)
    ensures
        final(out)@ == old(out)@ + dec_rep(n as nat),
    decreases n,
{
    if n < 10 {
        push_char(out, dec_digit_x(n));
        proof {
            assert(final(out)@ =~= old(out)@ + dec_rep(n as nat));
        }
    } else {
        write_dec(out, n / 10);
        push_char(out, dec_digit_x(n % 10));
        proof {
            assert(final(out)@ =~= old(out)@ + dec_rep(n as nat));
        }
    }
}

fn write_int(out: &mut String, i: i64)
    ensures
        final(out)@ == old(out)@ + int_text(i as int),
{
    if i >= 0 {
        write_dec(out, i as u64);
    } else {
        push_char(out, '-');
        let m: u64 = (-(i as i128)) as u64;
        write_dec(out, m);
        proof {
            assert(final(out)@ =~= old(out)@ + int_text(i as int));
        }
    }
}

fn write_escaped(out: &mut String, s: &String)
    ensures
        final(out)@ == old(out)@ + esc_seq(s@),
{
    let n = s.as_str().unicode_len();
    let ghost orig = out@;
    proof {
        assert(s@.subrange(0, 0) =~= Seq::<char>::empty());
        assert(orig + esc_seq(s@.subrange(0, 0)) =~= orig);
    }
    let mut i: usize = 0;
    while i < n
        invariant
            n == s@.len(),
            0 <= i <= n,
            out@ == orig + esc_seq(s@.subrange(0, i as int)),
        decreases n - i,
    {
        let c = s.as_str().get_char(i);
        let ghost before = out@;
        if c == '"' {
            push_char(out, '\\');
            push_char(out, '"');
        } else if c == '\\' {
            push_char(out, '\\');
            push_char(out, '\\');
        } else if (c as u32) < 32 {
            let v = c as u32;
            push_char(out, '\\');
            push_char(out, 'u');
            push_char(out, '0');
            push_char(out, '0');
            push_char(out, hex_digit_x(v / 16));
            push_char(out, hex_digit_x(v % 16));
        } else {
            push_char(out, c);
        }
        proof {
            assert(out@ =~= before + esc_char(c));
            assert(s@.subrange(0, i + 1).subrange(0, i as int) =~= s@.subrange(0, i as int));
            assert(s@.subrange(0, i + 1)[i as int] == s@[i as int]);
            assert(esc_seq(s@.subrange(0, i + 1)) == esc_seq(s@.subrange(0, i as int)) + esc_char(
                s@[i as int],
            ));
            assert(out@ =~= orig + esc_seq(s@.subrange(0, i + 1)));
        }
        i += 1;
    }
    proof {
        assert(s@.subrange(0, n as int) =~= s@);
    }
}

fn write_str_value(out: &mut String, s: &String)
    ensures
        final(out)@ == old(out)@ + str_text(s@),
{
    push_char(out, '"');
    write_escaped(out, s);
    push_char(out, '"');
    proof {
        assert(final(out)@ =~= old(out)@ + str_text(s@));
    }
}

fn write_json(out: &mut String, j: &Json)
    ensures
        final(out)@ == old(out)@ + json_text(j@),
    decreases *j,
{
    match j {
        Json::Null => {
            out.append("null");
            proof {
                reveal_strlit("null");
                assert("null"@ =~= seq!['n', 'u', 'l', 'l']);
            }
        },
        Json::Bool(b) => {
            if *b {
                out.append("true");
                proof {
                    reveal_strlit("true");
                    assert("true"@ =~= seq!['t', 'r', 'u', 'e']);
                }
            } else {
                out.append("false");
                proof {
                    reveal_strlit("false");
                    assert("false"@ =~= seq!['f', 'a', 'l', 's', 'e']);
                }
            }
        },
        Json::Int(i) => {
            write_int(out, *i);
        },
        Json::Str(s) => {
            write_str_value(out, s);
        },
        Json::Arr(items) => {
            let ghost orig = out@;
            let ghost model = json_view_list(items@);
            proof {
                lemma_json_view_list_index(items@);
            }
            push_char(out, '[');
            let n = items.len();
            let mut i: usize = 0;
            while i < n
                invariant
                    n == items@.len(),
                    0 <= i <= n,
                    j == Json::Arr(*items),
                    model == json_view_list(items@),
                    model.len() == n,
                    forall|k: int| 0 <= k < n ==> model[k] == crate::json::json_view(items@[k]),
                    out@ == orig.push('[') + list_text(model.subrange(0, i as int)),
                decreases n - i,
            {
                if i > 0 {
                    push_char(out, ',');
                }
                proof {
                    assert(j->Arr_0 == *items);
                    assert(decreases_to!(*j => *items));
                    assert(decreases_to!(*items => items@[i as int]));
                }
                write_json(out, &items[i]);
                proof {
                    assert(model.subrange(0, i + 1).subrange(0, i as int) =~= model.subrange(
                        0,
                        i as int,
                    ));
                    assert(model.subrange(0, i + 1)[i as int] == model[i as int]);
                    if i == 0 {
                        assert(list_text(model.subrange(0, 1)) == json_text(model[0]));
                        assert(out@ =~= orig.push('[') + list_text(model.subrange(0, i + 1)));
                    } else {
                        assert(list_text(model.subrange(0, i + 1)) == list_text(
                            model.subrange(0, i as int),
                        ) + seq![','] + json_text(model[i as int]));
                        assert(out@ =~= orig.push('[') + list_text(model.subrange(0, i + 1)));
                    }
                }
                i += 1;
            }
            push_char(out, ']');
            proof {
                assert(model.subrange(0, n as int) =~= model);
                assert(final(out)@ =~= orig + json_text(j@));
            }
        },
        Json::Obj(fields) => {
            let ghost orig = out@;
            let ghost model = json_view_fields(fields@);
            proof {
                lemma_json_view_fields_index(fields@);
            }
            push_char(out, '{');
            let n = fields.len();
            let mut i: usize = 0;
            while i < n
                invariant
                    n == fields@.len(),
                    0 <= i <= n,
                    j == Json::Obj(*fields),
                    model == json_view_fields(fields@),
                    model.len() == n,
                    forall|k: int|
                        0 <= k < n ==> model[k] == (
                            fields@[k].0@,
                            crate::json::json_view(fields@[k].1),
                        ),
                    out@ == orig.push('{') + fields_text(model.subrange(0, i as int)),
                decreases n - i,
            {
                if i > 0 {
                    push_char(out, ',');
                }
                let ghost before = out@;
                write_str_value(out, &fields[i].0);
                push_char(out, ':');
                proof {
                    assert(j->Obj_0 == *fields);
                    assert(decreases_to!(*j => *fields));
                    assert(decreases_to!(*fields => fields@[i as int]));
                }
                write_json(out, &fields[i].1);
                proof {
                    assert(out@ =~= before + field_text(model[i as int]));
                    assert(model.subrange(0, i + 1).subrange(0, i as int) =~= model.subrange(
                        0,
                        i as int,
                    ));
                    assert(model.subrange(0, i + 1)[i as int] == model[i as int]);
                    if i == 0 {
                        assert(fields_text(model.subrange(0, 1)) == field_text(model[0]));
                        assert(out@ =~= orig.push('{') + fields_text(model.subrange(0, i + 1)));
                    } else {
                        assert(fields_text(model.subrange(0, i + 1)) == fields_text(
                            model.subrange(0, i as int),
                        ) + seq![','] + field_text(model[i as int]));
                        assert(out@ =~= orig.push('{') + fields_text(model.subrange(0, i + 1)));
                    }
                }
                i += 1;
            }
            push_char(out, '}');
            proof {
                assert(model.subrange(0, n as int) =~= model);
                assert(final(out)@ =~= orig + json_text(j@));
            }
        },
    }
}

/// The canonical textual form of a document: no spacing, fields in
/// stored order, `\u00XX` escapes for control characters.
pub fn to_json_text(j: &Json) -> (r: String)
    ensures
        r@ == json_text(j@),
{
    let mut out = String::new();
    write_json(&mut out, j);
    proof {
        assert(out@ =~= json_text(j@));
    }
    out
}

} // verus!
