//! The library's model of a JSON document, the trusted bridge to the outside
//! parser, and a verified serializer.

use crate::encoding::{dec_int, push_dec_i64};
use vstd::prelude::*;
use vstd::string::StrSliceExecFns;

verus! {

broadcast use vstd::std_specs::vec::group_vec_axioms;

/// One JSON document. Numbers are carried as signed 64-bit integers; a number
/// the parser cannot fit in one is carried as null.
pub enum JsonValue {
    Null,
    Bool(bool),
    Int(i64),
    Str(String),
    Arr(Vec<JsonValue>),
    Obj(Vec<(String, JsonValue)>),
}

/// The mathematical shape of a JSON document.
pub enum JsonSpec {
    Null,
    Bool(bool),
    Int(i64),
    Str(Seq<char>),
    Arr(Seq<JsonSpec>),
    Obj(Seq<(Seq<char>, JsonSpec)>),
}

/// The abstract document a value holds.
pub open spec fn jspec(v: JsonValue) -> JsonSpec
    decreases v,
{
    match v {
        JsonValue::Null => JsonSpec::Null,
        JsonValue::Bool(b) => JsonSpec::Bool(b),
        JsonValue::Int(i) => JsonSpec::Int(i),
        JsonValue::Str(s) => JsonSpec::Str(s@),
        JsonValue::Arr(a) => JsonSpec::Arr(jspec_seq(a@)),
        JsonValue::Obj(o) => JsonSpec::Obj(jspec_obj(o@)),
    }
}

/// The abstract documents of a sequence of values.
pub open spec fn jspec_seq(s: Seq<JsonValue>) -> Seq<JsonSpec>
    decreases s,
{
    if s.len() == 0 {
        Seq::empty()
    } else {
        jspec_seq(s.subrange(0, s.len() - 1)).push(jspec(s[s.len() - 1]))
    }
}

/// The abstract members of a sequence of key-value pairs.
pub open spec fn jspec_obj(s: Seq<(String, JsonValue)>) -> Seq<(Seq<char>, JsonSpec)>
    decreases s,
{
    if s.len() == 0 {
        Seq::empty()
    } else {
        jspec_obj(s.subrange(0, s.len() - 1)).push(
            (s[s.len() - 1].0@, jspec(s[s.len() - 1].1)),
        )
    }
}

/// Mapping a sequence of values maps each element.
pub proof fn lemma_jspec_seq(s: Seq<JsonValue>)
    ensures
        jspec_seq(s).len() == s.len(),
        forall|i: int| 0 <= i < s.len() ==> jspec_seq(s)[i] == jspec(s[i]),
    decreases s.len(),
{
    if s.len() > 0 {
        lemma_jspec_seq(s.subrange(0, s.len() - 1));
    }
}

/// Mapping a sequence of pairs maps each member.
pub proof fn lemma_jspec_obj(s: Seq<(String, JsonValue)>)
    ensures
        jspec_obj(s).len() == s.len(),
        forall|i: int|
            0 <= i < s.len() ==> jspec_obj(s)[i] == (s[i].0@, jspec(s[i].1)),
    decreases s.len(),
{
    if s.len() > 0 {
        lemma_jspec_obj(s.subrange(0, s.len() - 1));
    }
}

impl View for JsonValue {
    type V = JsonSpec;

    open spec fn view(&self) -> JsonSpec {
        jspec(*self)
    }
}

/// What the outside JSON parser yields on a text: a function of the text
/// alone, `None` on malformed input.
pub uninterp spec fn json_parse(s: Seq<char>) -> Option<JsonSpec>;

/// The outside parser's document type, opaque to this library.
#[verifier::external_type_specification]
#[verifier::external_body]
pub struct ExValue(serde_json::Value);

/// Relies on serde_json::from_str::<Value>: the outcome is a function of the
/// text alone; `Err` on input the parser refuses, which is malformed JSON or
/// nesting beyond its fixed recursion limit.
#[verifier::external_body]
pub fn parse_json(s: &str) -> (r: Option<JsonValue>)
    ensures
        match r {
            Some(v) => json_parse(s@) == Some(v@),
            None => json_parse(s@) is None,
        },
{
    match serde_json::from_str::<serde_json::Value>(s) {
        Ok(v) => Some(from_value(v)),
        Err(_) => None,
    }
}

/// Relies on serde_json::Value's public variants: one arm per case, fields
/// moved over; a number outside i64 becomes null.
#[verifier::external_body]
fn from_value(v: serde_json::Value) -> JsonValue {
    match v {
        serde_json::Value::Null => JsonValue::Null,
        serde_json::Value::Bool(b) => JsonValue::Bool(b),
        serde_json::Value::Number(n) => match n.as_i64() {
            Some(i) => JsonValue::Int(i),
            None => JsonValue::Null,
        },
        serde_json::Value::String(s) => JsonValue::Str(s),
        serde_json::Value::Array(a) => JsonValue::Arr(a.into_iter().map(from_value).collect()),
        serde_json::Value::Object(o) => JsonValue::Obj(
            o.into_iter().map(|(k, inner)| (k, from_value(inner))).collect(),
        ),
    }
}

/// ASCII byte of the lowercase hexadecimal digit for a value below sixteen.
pub open spec fn hex_byte(n: int) -> u8 {
    if n < 10 {
        (0x30 + n) as u8
    } else {
        (0x57 + n) as u8
    }
}

/// Four lowercase hexadecimal digits of a value below 0x10000.
pub open spec fn hex4(n: int) -> Seq<u8> {
    seq![
        hex_byte((n / 0x1000) % 16),
        hex_byte((n / 0x100) % 16),
        hex_byte((n / 0x10) % 16),
        hex_byte(n % 16),
    ]
}

/// How one character is written inside a JSON string: printable ASCII stands
/// as itself, everything else is a unicode escape.
pub open spec fn esc_char(c: char) -> Seq<u8> {
    if c == '"' {
        seq![0x5c, 0x22]
    } else if c == '\\' {
        seq![0x5c, 0x5c]
    } else if 0x20 <= c as u32 && c as u32 <= 0x7e {
        seq![c as u8]
    } else if (c as u32) < 0x10000 {
        seq![0x5c, 0x75] + hex4(c as u32 as int)
    } else {
        seq![0x5c, 0x75] + hex4(0xd800 + ((c as u32 - 0x10000) as int) / 0x400) + seq![0x5c, 0x75]
            + hex4(0xdc00 + ((c as u32 - 0x10000) as int) % 0x400)
    }
}

/// A character sequence written inside a JSON string.
pub open spec fn esc_chars(s: Seq<char>) -> Seq<u8>
    decreases s.len(),
{
    if s.len() == 0 {
        Seq::empty()
    } else {
        esc_chars(s.drop_last()) + esc_char(s.last())
    }
}

/// The serialized form of a document: compact JSON, ASCII only.
pub open spec fn json_bytes(j: JsonSpec) -> Seq<u8>
    decreases j,
{
    match j {
        JsonSpec::Null => seq![0x6e, 0x75, 0x6c, 0x6c],
        JsonSpec::Bool(b) => if b {
            seq![0x74, 0x72, 0x75, 0x65]
        } else {
            seq![0x66, 0x61, 0x6c, 0x73, 0x65]
        },
        JsonSpec::Int(i) => dec_int(i as int),
        JsonSpec::Str(s) => seq![0x22] + esc_chars(s) + seq![0x22],
        JsonSpec::Arr(a) => seq![0x5b] + arr_items_bytes(a) + seq![0x5d],
        JsonSpec::Obj(o) => seq![0x7b] + obj_items_bytes(o) + seq![0x7d],
    }
}

/// Array elements, comma separated.
pub open spec fn arr_items_bytes(a: Seq<JsonSpec>) -> Seq<u8>
    decreases a,
{
    if a.len() == 0 {
        Seq::empty()
    } else if a.len() == 1 {
        json_bytes(a[0])
    } else {
        arr_items_bytes(a.subrange(0, a.len() - 1)) + seq![0x2c] + json_bytes(a[a.len() - 1])
    }
}

/// One object member: quoted key, colon, value.
pub open spec fn kv_bytes(kv: (Seq<char>, JsonSpec)) -> Seq<u8>
    decreases kv,
{
    seq![0x22] + esc_chars(kv.0) + seq![0x22, 0x3a] + json_bytes(kv.1)
}

/// Object members, comma separated.
pub open spec fn obj_items_bytes(o: Seq<(Seq<char>, JsonSpec)>) -> Seq<u8>
    decreases o,
{
    if o.len() == 0 {
        Seq::empty()
    } else if o.len() == 1 {
        kv_bytes(o[0])
    } else {
        obj_items_bytes(o.subrange(0, o.len() - 1)) + seq![0x2c] + kv_bytes(o[o.len() - 1])
    }
}

/// ASCII byte of one lowercase hexadecimal digit.
pub fn hex_byte_of(n: u16) -> (r: u8)
    requires
        n < 16,
    ensures
        r == hex_byte(n as int),
{
    if n < 10 {
        0x30 + (n as u8)
    } else {
        0x57 + (n as u8)
    }
}

/// Append four lowercase hexadecimal digits.
fn push_hex4(n: u16, out: &mut Vec<u8>)
    ensures
        final(out)@ == old(out)@ + hex4(n as int),
{
    out.push(hex_byte_of((n / 0x1000) % 16));
    out.push(hex_byte_of((n / 0x100) % 16));
    out.push(hex_byte_of((n / 0x10) % 16));
    out.push(hex_byte_of(n % 16));
    proof {
        assert(out@ =~= old(out)@ + hex4(n as int));
    }
}

/// Append the escape of one character.
fn push_esc_char(c: char, out: &mut Vec<u8>)
    ensures
        final(out)@ == old(out)@ + esc_char(c),
{
    let u = c as u32;
    if c == '"' {
        out.push(0x5c);
        out.push(0x22);
    } else if c == '\\' {
        out.push(0x5c);
        out.push(0x5c);
    } else if 0x20 <= u && u <= 0x7e {
        out.push(c as u8);
    } else if u < 0x10000 {
        out.push(0x5c);
        out.push(0x75);
        push_hex4(u as u16, out);
    } else {
        let v = u - 0x10000;
        proof {
            vstd::utf8::char_is_scalar(c);
            assert(v / 0x400 <= 0x3ff) by (nonlinear_arith)
                requires
                    v <= 0xfffff,
            ;
            assert(v % 0x400 <= 0x3ff) by (nonlinear_arith);
        }
        out.push(0x5c);
        out.push(0x75);
        push_hex4(0xd800 + (v / 0x400) as u16, out);
        out.push(0x5c);
        out.push(0x75);
        push_hex4(0xdc00 + (v % 0x400) as u16, out);
    }
    proof {
        assert(out@ =~= old(out)@ + esc_char(c));
    }
}

/// Append a quoted, escaped JSON string.
fn push_json_str(s: &str, out: &mut Vec<u8>)
    ensures
        final(out)@ == old(out)@ + seq![0x22u8] + esc_chars(s@) + seq![0x22u8],
{
    out.push(0x22);
    let n = s.unicode_len();
    let mut i: usize = 0;
    proof {
        assert(s@.take(0) =~= Seq::<char>::empty());
        assert(out@ =~= old(out)@ + seq![0x22u8] + esc_chars(s@.take(0)));
    }
    while i < n
        invariant
            n == s@.len(),
            i <= n,
            out@ == old(out)@ + seq![0x22u8] + esc_chars(s@.take(i as int)),
        decreases n - i,
    {
        let c = s.get_char(i);
        push_esc_char(c, out);
        i += 1;
        proof {
            assert(s@.take(i as int).drop_last() =~= s@.take(i as int - 1));
            assert(s@.take(i as int).last() == s@[i as int - 1]);
            assert(out@ =~= old(out)@ + seq![0x22u8] + esc_chars(s@.take(i as int)));
        }
    }
    proof {
        assert(s@.take(s@.len() as int) =~= s@);
    }
    out.push(0x22);
    proof {
        assert(out@ =~= old(out)@ + seq![0x22u8] + esc_chars(s@) + seq![0x22u8]);
    }
}

/// Append the serialized form of a document.
#[verifier::loop_isolation(false)]
#[verifier::rlimit(60)]
pub fn write_json(v: &JsonValue, out: &mut Vec<u8>)
    ensures
        final(out)@ == old(out)@ + json_bytes(v@),
    decreases *v,
{
    match v {
        JsonValue::Null => {
            out.push(0x6e);
            out.push(0x75);
            out.push(0x6c);
            out.push(0x6c);
            proof {
                assert(out@ =~= old(out)@ + json_bytes(v@));
            }
        },
        JsonValue::Bool(b) => {
            if *b {
                out.push(0x74);
                out.push(0x72);
                out.push(0x75);
                out.push(0x65);
            } else {
                out.push(0x66);
                out.push(0x61);
                out.push(0x6c);
                out.push(0x73);
                out.push(0x65);
            }
            proof {
                assert(out@ =~= old(out)@ + json_bytes(v@));
            }
        },
        JsonValue::Int(i) => {
            push_dec_i64(*i, out);
        },
        JsonValue::Str(s) => {
            push_json_str(s.as_str(), out);
            proof {
                assert(out@ =~= old(out)@ + json_bytes(v@));
            }
        },
        JsonValue::Arr(a) => {
            let ghost items = jspec_seq(a@);
            out.push(0x5b);
            let mut i: usize = 0;
            proof {
                lemma_jspec_seq(a@);
                assert(arr_items_bytes(items.take(0)) =~= Seq::<u8>::empty());
                assert(out@ =~= old(out)@ + seq![0x5bu8] + arr_items_bytes(items.take(0)));
            }
            while i < a.len()
                invariant
                    i <= a@.len(),
                    items == jspec_seq(a@),
                    items.len() == a@.len(),
                    forall|k: int| 0 <= k < a@.len() ==> items[k] == jspec(a@[k]),
                    out@ == old(out)@ + seq![0x5bu8] + arr_items_bytes(items.take(i as int)),
                decreases a@.len() - i,
            {
                if i > 0 {
                    out.push(0x2c);
                }
                write_json(&a[i], out);
                i += 1;
                proof {
                    assert(items.take(i as int).subrange(0, i as int - 1) =~= items.take(
                        i as int - 1,
                    ));
                    assert(items.take(i as int)[i as int - 1] == items[i as int - 1]);
                    assert(out@ =~= old(out)@ + seq![0x5bu8] + arr_items_bytes(
                        items.take(i as int),
                    ));
                }
            }
            out.push(0x5d);
            proof {
                assert(items.take(items.len() as int) =~= items);
                assert(out@ =~= old(out)@ + json_bytes(v@));
            }
        },
        JsonValue::Obj(o) => {
            let ghost items = jspec_obj(o@);
            out.push(0x7b);
            let mut i: usize = 0;
            proof {
                lemma_jspec_obj(o@);
                assert(obj_items_bytes(items.take(0)) =~= Seq::<u8>::empty());
                assert(out@ =~= old(out)@ + seq![0x7bu8] + obj_items_bytes(items.take(0)));
            }
            while i < o.len()
                invariant
                    i <= o@.len(),
                    items == jspec_obj(o@),
                    items.len() == o@.len(),
                    forall|k: int|
                        0 <= k < o@.len() ==> items[k] == (o@[k].0@, jspec(o@[k].1)),
                    out@ == old(out)@ + seq![0x7bu8] + obj_items_bytes(items.take(i as int)),
                decreases o@.len() - i,
            {
                if i > 0 {
                    out.push(0x2c);
                }
                let pair = &o[i];
                push_json_str(pair.0.as_str(), out);
                out.push(0x3a);
                write_json(&pair.1, out);
                i += 1;
                proof {
                    let k = i as int - 1;
                    assert(items.take(k + 1).subrange(0, k) =~= items.take(k));
                    assert(items.take(k + 1)[k] == items[k]);
                    assert(kv_bytes(items[k]) =~= seq![0x22u8] + esc_chars(o@[k].0@) + seq![
                        0x22u8,
                        0x3au8,
                    ] + json_bytes(jspec(o@[k].1)));
                    if k == 0 {
                        assert(obj_items_bytes(items.take(1)) == kv_bytes(items.take(1)[0]));
                    } else {
                        assert(obj_items_bytes(items.take(k + 1)) == obj_items_bytes(
                            items.take(k),
                        ) + seq![0x2cu8] + kv_bytes(items[k]));
                    }
                    assert(out@ =~= old(out)@ + seq![0x7bu8] + obj_items_bytes(
                        items.take(i as int),
                    ));
                }
            }
            out.push(0x7d);
            proof {
                assert(items.take(items.len() as int) =~= items);
                assert(out@ =~= old(out)@ + json_bytes(v@));
            }
        },
    }
}

/// Copy a document.
#[verifier::loop_isolation(false)]
pub fn clone_json(v: &JsonValue) -> (r: JsonValue)
    ensures
        r@ == v@,
    decreases *v,
{
    match v {
        JsonValue::Null => JsonValue::Null,
        JsonValue::Bool(b) => JsonValue::Bool(*b),
        JsonValue::Int(i) => JsonValue::Int(*i),
        JsonValue::Str(s) => JsonValue::Str(s.clone()),
        JsonValue::Arr(a) => {
            let mut items: Vec<JsonValue> = Vec::new();
            let mut i: usize = 0;
            while i < a.len()
                invariant
                    i <= a@.len(),
                    items@.len() == i,
                    forall|k: int| 0 <= k < i ==> items@[k]@ == jspec(a@[k]),
                decreases a@.len() - i,
            {
                items.push(clone_json(&a[i]));
                i += 1;
            }
            proof {
                lemma_jspec_seq(a@);
                lemma_jspec_seq(items@);
                assert(jspec_seq(items@) =~= jspec_seq(a@));
            }
            JsonValue::Arr(items)
        },
        JsonValue::Obj(o) => {
            let mut items: Vec<(String, JsonValue)> = Vec::new();
            let mut i: usize = 0;
            while i < o.len()
                invariant
                    i <= o@.len(),
                    items@.len() == i,
                    forall|k: int|
                        0 <= k < i ==> items@[k].0@ == o@[k].0@ && items@[k].1@ == jspec(
                            o@[k].1,
                        ),
                decreases o@.len() - i,
            {
                let pair = &o[i];
                items.push((pair.0.clone(), clone_json(&pair.1)));
                i += 1;
            }
            proof {
                lemma_jspec_obj(o@);
                lemma_jspec_obj(items@);
                assert(jspec_obj(items@) =~= jspec_obj(o@));
            }
            JsonValue::Obj(items)
        },
    }
}

/// The serialized form of a document as a fresh byte string.
pub fn json_to_bytes(v: &JsonValue) -> (r: Vec<u8>)
    ensures
        r@ == json_bytes(v@),
{
    let mut out: Vec<u8> = Vec::new();
    write_json(v, &mut out);
    out
}

} // verus!
