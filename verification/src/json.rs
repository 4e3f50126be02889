//! The engine's JSON document model and its verified serializer.
//!
//! Requests, variables, response data, error extensions and paths are all
//! loosely typed JSON documents. [`JsonValue`] is their executable form,
//! [`JsonVal`] the mathematical one, and [`json_text`] the exact wire text
//! that [`JsonValue::to_text`] is proved to produce. Object entries keep
//! their insertion order, which is why an object is a sequence of pairs and
//! not a map.

use crate::text::dec_int;
use crate::text::i64_to_string;
use vstd::prelude::*;
use vstd::string::StrSliceExecFns;
use vstd::string::StringExecFns;

verus! {

broadcast use vstd::std_specs::vec::group_vec_axioms;

/// A JSON document.
#[derive(Debug, PartialEq)]
pub enum JsonValue {
    Null,
    Bool(bool),
    Int(i64),
    Str(String),
    Arr(Vec<JsonValue>),
    Obj(Vec<(String, JsonValue)>),
}

/// The mathematical form of a JSON document.
#[verifier::ext_equal]
pub enum JsonVal {
    Null,
    Bool(bool),
    Int(int),
    Str(Seq<char>),
    Arr(Seq<JsonVal>),
    Obj(Seq<(Seq<char>, JsonVal)>),
}

/// The mathematical form of an executable JSON document.
pub open spec fn json_val_of(v: JsonValue) -> JsonVal
    decreases v,
    via json_val_of_decreases
{
    match v {
        JsonValue::Null => JsonVal::Null,
        JsonValue::Bool(b) => JsonVal::Bool(b),
        JsonValue::Int(i) => JsonVal::Int(i as int),
        JsonValue::Str(s) => JsonVal::Str(s@),
        JsonValue::Arr(items) => JsonVal::Arr(
            Seq::new(
                items@.len(),
                |i: int|
                    if 0 <= i < items@.len() {
                        json_val_of(items@[i])
                    } else {
                        JsonVal::Null
                    },
            ),
        ),
        JsonValue::Obj(entries) => JsonVal::Obj(
            Seq::new(
                entries@.len(),
                |i: int|
                    if 0 <= i < entries@.len() {
                        (entries@[i].0@, json_val_of(entries@[i].1))
                    } else {
                        (Seq::<char>::empty(), JsonVal::Null)
                    },
            ),
        ),
    }
}

#[via_fn]
proof fn json_val_of_decreases(v: JsonValue) {
    match v {
        JsonValue::Arr(items) => {
            assert forall|i: int| 0 <= i < items@.len() implies decreases_to!(v => items@[i]) by {
                assert(decreases_to!(v => items));
                assert(decreases_to!(items => items@));
                assert(decreases_to!(items@ => items@[i]));
            }
        },
        JsonValue::Obj(entries) => {
            assert forall|i: int| 0 <= i < entries@.len() implies decreases_to!(
                v => entries@[i].1,
            ) by {
                assert(decreases_to!(v => entries));
                assert(decreases_to!(entries => entries@));
                assert(decreases_to!(entries@ => entries@[i]));
                assert(decreases_to!(entries@[i] => entries@[i].1));
            }
        },
        _ => {},
    }
}

impl View for JsonValue {
    type V = JsonVal;

    open spec fn view(&self) -> JsonVal {
        json_val_of(*self)
    }
}

/// An executable array whose elements have the given mathematical forms is
/// the array of those forms.
pub proof fn lemma_arr_eq(v: JsonValue, s: Seq<JsonVal>)
    requires
        v is Arr,
        (v->Arr_0)@.len() == s.len(),
        forall|k: int| 0 <= k < s.len() ==> json_val_of(#[trigger] (v->Arr_0)@[k]) == s[k],
    ensures
        json_val_of(v) == JsonVal::Arr(s),
{
    assert forall|k: int| 0 <= k < s.len() implies json_val_of(v)->Arr_0[k] == s[k] by {
        assert(json_val_of(v)->Arr_0[k] == json_val_of((v->Arr_0)@[k]));
    }
    assert(json_val_of(v)->Arr_0 =~= s);
    assert(json_val_of(v) =~~= JsonVal::Arr(s));
}

/// An executable object whose keys and values have the given mathematical
/// forms is the object of those forms.
pub proof fn lemma_obj_eq(v: JsonValue, s: Seq<(Seq<char>, JsonVal)>)
    requires
        v is Obj,
        (v->Obj_0)@.len() == s.len(),
        forall|k: int|
            0 <= k < s.len() ==> (#[trigger] (v->Obj_0)@[k]).0@ == s[k].0 && json_val_of(
                (v->Obj_0)@[k].1,
            ) == s[k].1,
    ensures
        json_val_of(v) == JsonVal::Obj(s),
{
    assert forall|k: int| 0 <= k < s.len() implies json_val_of(v)->Obj_0[k] == s[k] by {
        assert((v->Obj_0)@[k].0@ == s[k].0);
        assert(json_val_of((v->Obj_0)@[k].1) == s[k].1);
        assert(json_val_of(v)->Obj_0[k] == ((v->Obj_0)@[k].0@, json_val_of((v->Obj_0)@[k].1)));
    }
    assert(json_val_of(v)->Obj_0 =~= s);
    assert(json_val_of(v) =~~= JsonVal::Obj(s));
}

/// The hexadecimal digit character for a value below sixteen.
pub open spec fn hex_char(d: int) -> char {
    if d < 10 {
        crate::text::digit_char(d)
    } else if d == 10 {
        'a'
    } else if d == 11 {
        'b'
    } else if d == 12 {
        'c'
    } else if d == 13 {
        'd'
    } else if d == 14 {
        'e'
    } else {
        'f'
    }
}

/// How one character appears inside a JSON string literal: quote, backslash
/// and the common control characters get two-character escapes, the other
/// control characters a `\u00..` escape, and everything else stands as is.
pub open spec fn escaped_char(c: char) -> Seq<char> {
    if c == '"' {
        seq!['\\', '"']
    } else if c == '\\' {
        seq!['\\', '\\']
    } else if c == '\n' {
        seq!['\\', 'n']
    } else if c == '\r' {
        seq!['\\', 'r']
    } else if c == '\t' {
        seq!['\\', 't']
    } else if (c as u32) < 32 {
        seq!['\\', 'u', '0', '0', hex_char((c as u32) as int / 16), hex_char((c as u32) as int % 16)]
    } else {
        seq![c]
    }
}

/// The escaped text of the first `i` characters of a string body.
pub open spec fn escaped_upto(s: Seq<char>, i: int) -> Seq<char>
    decreases i,
{
    if i <= 0 {
        Seq::<char>::empty()
    } else {
        escaped_upto(s, i - 1) + escaped_char(s[i - 1])
    }
}

/// The escaped text of a whole JSON string body, quotes not included.
pub open spec fn escaped_text(s: Seq<char>) -> Seq<char> {
    escaped_upto(s, s.len() as int)
}

/// The serialized text of a JSON document: no spaces, object entries in
/// stored order, integers in decimal.
pub open spec fn json_text(v: JsonVal) -> Seq<char>
    decreases v, 1int,
{
    match v {
        JsonVal::Null => "null"@,
        JsonVal::Bool(b) => if b {
            "true"@
        } else {
            "false"@
        },
        JsonVal::Int(i) => dec_int(i),
        JsonVal::Str(s) => seq!['"'] + escaped_text(s) + seq!['"'],
        JsonVal::Arr(items) => seq!['['] + arr_text_upto(items, items.len() as int) + seq![']'],
        JsonVal::Obj(entries) => seq!['{'] + obj_text_upto(entries, entries.len() as int)
            + seq!['}'],
    }
}

/// The serialized text of the first `i` array elements, commas between them.
pub open spec fn arr_text_upto(items: Seq<JsonVal>, i: int) -> Seq<char>
    decreases items, i,
{
    if i <= 0 || i > items.len() {
        Seq::<char>::empty()
    } else if i == 1 {
        json_text(items[0])
    } else {
        arr_text_upto(items, i - 1) + seq![','] + json_text(items[i - 1])
    }
}

/// The serialized text of the first `i` object entries, commas between them,
/// each entry a quoted escaped key, a colon and the entry's value.
pub open spec fn obj_text_upto(entries: Seq<(Seq<char>, JsonVal)>, i: int) -> Seq<char>
    decreases entries, i,
{
    if i <= 0 || i > entries.len() {
        Seq::<char>::empty()
    } else if i == 1 {
        seq!['"'] + escaped_text(entries[0].0) + seq!['"', ':'] + json_text(entries[0].1)
    } else {
        obj_text_upto(entries, i - 1) + seq![','] + seq!['"'] + escaped_text(entries[i - 1].0)
            + seq!['"', ':'] + json_text(entries[i - 1].1)
    }
}

/// The hexadecimal digit string for a value below sixteen.
fn hex_str(d: u32) -> (s: &'static str)
    requires
        d < 16,
    ensures
        s@ == seq![hex_char(d as int)],
{
    let s: &'static str = if d == 0 {
        "0"
    } else if d == 1 {
        "1"
    } else if d == 2 {
        "2"
    } else if d == 3 {
        "3"
    } else if d == 4 {
        "4"
    } else if d == 5 {
        "5"
    } else if d == 6 {
        "6"
    } else if d == 7 {
        "7"
    } else if d == 8 {
        "8"
    } else if d == 9 {
        "9"
    } else if d == 10 {
        "a"
    } else if d == 11 {
        "b"
    } else if d == 12 {
        "c"
    } else if d == 13 {
        "d"
    } else if d == 14 {
        "e"
    } else {
        "f"
    };
    proof {
        reveal_strlit("0");
        reveal_strlit("1");
        reveal_strlit("2");
        reveal_strlit("3");
        reveal_strlit("4");
        reveal_strlit("5");
        reveal_strlit("6");
        reveal_strlit("7");
        reveal_strlit("8");
        reveal_strlit("9");
        reveal_strlit("a");
        reveal_strlit("b");
        reveal_strlit("c");
        reveal_strlit("d");
        reveal_strlit("e");
        reveal_strlit("f");
        assert(s@ =~= seq![hex_char(d as int)]);
    }
    s
}

/// Appends the escaped form of a character that needs an escape.
fn write_escaped_char(c: char, out: &mut String)
    requires
        c == '"' || c == '\\' || (c as u32) < 32,
    ensures
        final(out)@ == old(out)@ + escaped_char(c),
{
    let ghost base = out@;
    if c == '"' {
        out.append("\\\"");
        proof {
            reveal_strlit("\\\"");
            assert(out@ =~= base + escaped_char(c));
        }
    } else if c == '\\' {
        out.append("\\\\");
        proof {
            reveal_strlit("\\\\");
            assert(out@ =~= base + escaped_char(c));
        }
    } else if c == '\n' {
        out.append("\\n");
        proof {
            reveal_strlit("\\n");
            assert(out@ =~= base + escaped_char(c));
        }
    } else if c == '\r' {
        out.append("\\r");
        proof {
            reveal_strlit("\\r");
            assert(out@ =~= base + escaped_char(c));
        }
    } else if c == '\t' {
        out.append("\\t");
        proof {
            reveal_strlit("\\t");
            assert(out@ =~= base + escaped_char(c));
        }
    } else {
        out.append("\\u00");
        out.append(hex_str((c as u32) / 16));
        out.append(hex_str((c as u32) % 16));
        proof {
            reveal_strlit("\\u00");
            assert(out@ =~= base + escaped_char(c));
        }
    }
}

/// Appends the escaped body of a JSON string literal.
fn write_escaped(s: &String, out: &mut String)
    ensures
        final(out)@ == old(out)@ + escaped_text(s@),
{
    let ghost base = out@;
    let n = s.as_str().unicode_len();
    let mut i: usize = 0;
    while i < n
        invariant
            n == s@.len(),
            i <= n,
            out@ =~= base + escaped_upto(s@, i as int),
        decreases n - i,
    {
        let c = s.as_str().get_char(i);
        if c == '"' || c == '\\' || (c as u32) < 32 {
            write_escaped_char(c, out);
        } else {
            let piece = s.as_str().substring_char(i, i + 1);
            out.append(piece);
            proof {
                assert(piece@ =~= seq![c]);
                assert(escaped_char(c) =~= seq![c]);
            }
        }
        i = i + 1;
        proof {
            assert(out@ =~= base + escaped_upto(s@, i as int));
        }
    }
    proof {
        assert(escaped_upto(s@, n as int) == escaped_text(s@));
    }
}

/// Appends the serialized text of a document.
fn write_json(v: &JsonValue, out: &mut String)
    ensures
        final(out)@ == old(out)@ + json_text(v@),
    decreases v, 1int,
{
    let ghost base = out@;
    match v {
        JsonValue::Null => {
            out.append("null");
        },
        JsonValue::Bool(b) => {
            if *b {
                out.append("true");
            } else {
                out.append("false");
            }
        },
        JsonValue::Int(i) => {
            let t = i64_to_string(*i);
            out.append(t.as_str());
        },
        JsonValue::Str(s) => {
            out.append("\"");
            write_escaped(s, out);
            out.append("\"");
            proof {
                reveal_strlit("\"");
                assert(out@ =~= base + json_text(v@));
            }
        },
        JsonValue::Arr(items) => {
            let ghost vitems = v@->Arr_0;
            out.append("[");
            proof {
                reveal_strlit("[");
                reveal_strlit(",");
                reveal_strlit("]");
            }
            let mut i: usize = 0;
            while i < items.len()
                invariant
                    vitems == v@->Arr_0,
                    v@ is Arr,
                    *v matches JsonValue::Arr(it) && it == *items,
                    vitems.len() == items@.len(),
                    forall|k: int| 0 <= k < items@.len() ==> vitems[k] == json_val_of(items@[k]),
                    i <= items@.len(),
                    out@ =~= base + seq!['['] + arr_text_upto(vitems, i as int),
                    "["@ =~= seq!['['],
                    ","@ =~= seq![','],
                    "]"@ =~= seq![']'],
                decreases items@.len() - i,
            {
                if i > 0 {
                    out.append(",");
                }
                proof {
                    assert(decreases_to!(*v => (*v)->Arr_0));
                    assert(*items == (*v)->Arr_0);
                    assert(decreases_to!(*items => items@));
                    assert(decreases_to!(items@ => items@[i as int]));
                }
                write_json(&items[i], out);
                i = i + 1;
                proof {
                    assert(out@ =~= base + seq!['['] + arr_text_upto(vitems, i as int));
                }
            }
            out.append("]");
            proof {
                assert(out@ =~= base + json_text(v@));
            }
        },
        JsonValue::Obj(entries) => {
            let ghost ventries = v@->Obj_0;
            out.append("{");
            proof {
                reveal_strlit("{");
                reveal_strlit(",");
                reveal_strlit("\"");
                reveal_strlit("\":");
                reveal_strlit("}");
            }
            let mut i: usize = 0;
            while i < entries.len()
                invariant
                    ventries == v@->Obj_0,
                    v@ is Obj,
                    *v matches JsonValue::Obj(en) && en == *entries,
                    ventries.len() == entries@.len(),
                    forall|k: int| 0 <= k < entries@.len() ==> ventries[k] == (
                    entries@[k].0@,
                    json_val_of(entries@[k].1),
                    ),
                    i <= entries@.len(),
                    out@ =~= base + seq!['{'] + obj_text_upto(ventries, i as int),
                    "{"@ =~= seq!['{'],
                    ","@ =~= seq![','],
                    "\""@ =~= seq!['"'],
                    "\":"@ =~= seq!['"', ':'],
                    "}"@ =~= seq!['}'],
                decreases entries@.len() - i,
            {
                if i > 0 {
                    out.append(",");
                }
                out.append("\"");
                let entry = &entries[i];
                write_escaped(&entry.0, out);
                out.append("\":");
                proof {
                    assert(decreases_to!(*v => (*v)->Obj_0));
                    assert(*entries == (*v)->Obj_0);
                    assert(decreases_to!(*entries => entries@));
                    assert(decreases_to!(entries@ => entries@[i as int]));
                    assert(decreases_to!(entries@[i as int] => entries@[i as int].1));
                }
                write_json(&entry.1, out);
                i = i + 1;
                proof {
                    assert(out@ =~= base + seq!['{'] + obj_text_upto(ventries, i as int));
                }
            }
            out.append("}");
            proof {
                assert(out@ =~= base + json_text(v@));
            }
        },
    }
    proof {
        match v {
            JsonValue::Null => {
                reveal_strlit("null");
                assert(out@ =~= base + json_text(v@));
            },
            JsonValue::Bool(b) => {
                reveal_strlit("true");
                reveal_strlit("false");
                assert(out@ =~= base + json_text(v@));
            },
            JsonValue::Int(i) => {
                assert(out@ =~= base + json_text(v@));
            },
            _ => {},
        }
    }
}

impl JsonValue {
    /// Serializes the document: the result is exactly [`json_text`] of its
    /// mathematical form.
    pub fn to_text(&self) -> (s: String)
        ensures
            s@ == json_text(self@),
    {
        let mut out = String::new();
        write_json(self, &mut out);
        proof {
            assert(out@ =~= json_text(self@));
        }
        out
    }

    /// A deep copy with the same mathematical form.
    pub fn duplicate(&self) -> (r: JsonValue)
        ensures
            r@ == self@,
        decreases self,
    {
        match self {
            JsonValue::Null => JsonValue::Null,
            JsonValue::Bool(b) => JsonValue::Bool(*b),
            JsonValue::Int(i) => JsonValue::Int(*i),
            JsonValue::Str(s) => JsonValue::Str(s.clone()),
            JsonValue::Arr(items) => {
                let mut out: Vec<JsonValue> = Vec::new();
                let mut i: usize = 0;
                while i < items.len()
                    invariant
                        *self matches JsonValue::Arr(it) && it == *items,
                        i <= items@.len(),
                        out@.len() == i,
                        forall|k: int|
                            0 <= k < i ==> json_val_of(out@[k]) == json_val_of(items@[k]),
                    decreases items@.len() - i,
                {
                    proof {
                        assert(decreases_to!(*self => (*self)->Arr_0));
                        assert(*items == (*self)->Arr_0);
                        assert(decreases_to!(*items => items@));
                        assert(decreases_to!(items@ => items@[i as int]));
                    }
                    let copy = items[i].duplicate();
                    out.push(copy);
                    i = i + 1;
                }
                let r = JsonValue::Arr(out);
                proof {
                    assert(r@ is Arr && self@ is Arr);
                    assert(r@->Arr_0.len() == self@->Arr_0.len());
                    assert forall|k: int| 0 <= k < self@->Arr_0.len() implies r@->Arr_0[k]
                        == self@->Arr_0[k] by {
                        assert(json_val_of(out@[k]) == json_val_of(items@[k]));
                    }
                    assert(r@->Arr_0 =~= self@->Arr_0);
                    assert(r@ =~~= self@);
                }
                r
            },
            JsonValue::Obj(entries) => {
                let mut out: Vec<(String, JsonValue)> = Vec::new();
                let mut i: usize = 0;
                while i < entries.len()
                    invariant
                        *self matches JsonValue::Obj(en) && en == *entries,
                        i <= entries@.len(),
                        out@.len() == i,
                        forall|k: int|
                            0 <= k < i ==> out@[k].0@ == entries@[k].0@ && json_val_of(out@[k].1)
                                == json_val_of(entries@[k].1),
                    decreases entries@.len() - i,
                {
                    proof {
                        assert(decreases_to!(*self => (*self)->Obj_0));
                        assert(*entries == (*self)->Obj_0);
                        assert(decreases_to!(*entries => entries@));
                        assert(decreases_to!(entries@ => entries@[i as int]));
                        assert(decreases_to!(entries@[i as int] => entries@[i as int].1));
                    }
                    let entry = &entries[i];
                    let copy = (entry.0.clone(), entry.1.duplicate());
                    out.push(copy);
                    i = i + 1;
                }
                let r = JsonValue::Obj(out);
                proof {
                    assert(r@ is Obj && self@ is Obj);
                    assert(r@->Obj_0.len() == self@->Obj_0.len());
                    assert forall|k: int| 0 <= k < self@->Obj_0.len() implies r@->Obj_0[k]
                        == self@->Obj_0[k] by {
                        assert(out@[k].0@ == entries@[k].0@);
                        assert(json_val_of(out@[k].1) == json_val_of(entries@[k].1));
                    }
                    assert(r@->Obj_0 =~= self@->Obj_0);
                    assert(r@ =~~= self@);
                }
                r
            },
        }
    }
}

} // verus!
