//! Values that the host hands to programs.

use std::collections::HashMap;

use serde_json::Value as SerdeValue;
use vstd::prelude::*;
use vstd::string::*;
use vstd::utf8::*;

use crate::machine::Machine;
use crate::object::{ClassView, InstanceView};
use crate::value::Value;

verus! {

/// The value type of the `serde_json` crate.
#[verifier::external_type_specification]
#[verifier::external_body]
pub struct ExJsonValue(SerdeValue);

/// A JSON value as far as programs can be given it.
#[derive(Debug)]
pub enum Json {
    Null,
    Bool(bool),
    /// The bits of a 64-bit floating-point number.
    Number(u64),
    /// The bytes of a string.
    String(Vec<u8>),
    /// An array or an object.
    Compound,
}

pub enum JsonView {
    Null,
    Bool(bool),
    Number(u64),
    String(Seq<u8>),
    Compound,
}

impl View for Json {
    type V = JsonView;

    open spec fn view(&self) -> JsonView {
        match self {
            Json::Null => JsonView::Null,
            Json::Bool(b) => JsonView::Bool(*b),
            Json::Number(n) => JsonView::Number(*n),
            Json::String(s) => JsonView::String(s@),
            Json::Compound => JsonView::Compound,
        }
    }
}

/// What a `serde_json` value is to programs.
pub uninterp spec fn json_scalar(value: SerdeValue) -> JsonView;

/// Tells the variants of `serde_json::Value` apart. A number is taken as
/// `Number::as_f64` gives it, by its bits; `as_f64` gives one for every number, unless
/// the crate is built with arbitrary precision. The result depends on the value alone.
#[verifier::external_body]
fn json_of(value: &SerdeValue) -> (r: Json)
    ensures
        r@ == json_scalar(*value),
{
    match value {
        SerdeValue::Null => Json::Null,
        SerdeValue::Bool(b) => Json::Bool(*b),
        SerdeValue::Number(n) => Json::Number(n.as_f64().unwrap().to_bits()),
        SerdeValue::String(s) => Json::String(s.as_bytes().to_vec()),
        SerdeValue::Array(_) => Json::Compound,
        SerdeValue::Object(_) => Json::Compound,
    }
}

/// Whether the list holds each entry of the map once, and nothing else. The order
/// is left open.
pub open spec fn enumerates<K, V>(list: Seq<(K, V)>, map: Map<K, V>) -> bool {
    &&& forall|i: int|
        0 <= i < list.len() ==> map.contains_key((#[trigger] list[i]).0) && map[list[i].0]
            == list[i].1
    &&& forall|k: K| #[trigger]
        map.contains_key(k) ==> exists|i: int| 0 <= i < list.len() && (#[trigger] list[i]).0 == k
    &&& forall|i: int, j: int|
        0 <= i < j < list.len() ==> (#[trigger] list[i]).0 != (#[trigger] list[j]).0
}

/// `HashMap::into_iter` on a map by `String`: every entry once, no two with one text
/// as their key, in an order that is left open.
#[verifier::external_body]
fn into_variables(map: HashMap<String, SerdeValue>) -> (r: Vec<(String, SerdeValue)>)
    ensures
        enumerates(r@, map@),
        forall|i: int, j: int|
            0 <= i < j < r@.len() ==> (#[trigger] r@[i]).0@ != (#[trigger] r@[j]).0@,
{
    map.into_iter().collect()
}

/// `HashMap::into_iter` on a map by `&str`: every entry once, no two with one text
/// as their key, in an order that is left open.
#[verifier::external_body]
fn into_fields(map: HashMap<&'static str, SerdeValue>) -> (r: Vec<(&'static str, SerdeValue)>)
    ensures
        enumerates(r@, map@),
        forall|i: int, j: int|
            0 <= i < j < r@.len() ==> (#[trigger] r@[i]).0@ != (#[trigger] r@[j]).0@,
{
    map.into_iter().collect()
}

/// A JSON value as a value of the machine, whose strings it may add to; `None`
/// where the machine has no such value.
pub open spec fn json_value(m: Machine, v: JsonView) -> Option<(Machine, Value)> {
    match v {
        JsonView::Null => Some((m, Value::Nil)),
        JsonView::Bool(b) => Some((m, Value::Boolean(b))),
        JsonView::Number(n) => Some((m, Value::Number(n))),
        JsonView::String(s) => Some((m.interning(s), Value::String(m.place_of(s)))),
        JsonView::Compound => None,
    }
}

/// The machine with a global variable that the host gives it.
pub open spec fn with_variable(m: Machine, name: Seq<u8>, v: JsonView) -> Machine {
    let named = m.interning(name);
    match json_value(named, v) {
        Some((after, value)) => after.with_global(m.place_of(name), value),
        None => named,
    }
}

/// The machine with all global variables that the host gives it, in order.
pub open spec fn with_variables(m: Machine, list: Seq<(Seq<u8>, JsonView)>) -> Machine
    decreases list.len(),
{
    if list.len() == 0 {
        m
    } else {
        with_variable(with_variables(m, list.drop_last()), list.last().0, list.last().1)
    }
}

/// The machine and the fields of an instance with one more field.
pub open spec fn with_field(
    m: Machine,
    fields: Map<usize, Value>,
    name: Seq<u8>,
    v: JsonView,
) -> (Machine, Map<usize, Value>) {
    match json_value(m, v) {
        Some((after, value)) => (
            after.interning(name),
            fields.insert(after.place_of(name), value),
        ),
        None => (m, fields),
    }
}

/// The machine and the fields of an instance with all fields of the list, in order.
pub open spec fn with_fields(m: Machine, list: Seq<(Seq<u8>, JsonView)>) -> (
    Machine,
    Map<usize, Value>,
)
    decreases list.len(),
{
    if list.len() == 0 {
        (m, Map::empty())
    } else {
        let (before, fields) = with_fields(m, list.drop_last());
        with_field(before, fields, list.last().0, list.last().1)
    }
}

/// The machine with a global variable that holds an instance of a new class, both
/// of the given name.
pub open spec fn with_object(m: Machine, name: Seq<u8>, list: Seq<(Seq<u8>, JsonView)>) -> Machine {
    let place = m.place_of(name);
    let class = m.classes.len() as usize;
    let (after, fields) = with_fields(
        m.interning(name).with_class(ClassView { name: place, methods: Map::empty() }),
        list,
    );
    after.with_instance(InstanceView { class, fields }).with_global(
        place,
        Value::Instance(after.instances.len() as usize),
    )
}

/// Whether no two items of the list have one name.
pub open spec fn distinct_names(list: Seq<(Seq<u8>, JsonView)>) -> bool {
    forall|i: int, j: int|
        0 <= i < j < list.len() ==> (#[trigger] list[i]).0 != (#[trigger] list[j]).0
}

/// Names and values as the machine takes them.
pub open spec fn scalars(list: Seq<(String, Json)>) -> Seq<(Seq<u8>, JsonView)> {
    list.map_values(|item: (String, Json)| (encode_utf8(item.0@), item.1@))
}

/// Names and `serde_json` values as the machine takes them.
pub open spec fn json_scalars(list: Seq<(String, SerdeValue)>) -> Seq<
    (Seq<u8>, JsonView),
> {
    list.map_values(
        |item: (String, SerdeValue)| (encode_utf8(item.0@), json_scalar(item.1)),
    )
}

/// Static names and `serde_json` values as the machine takes them.
pub open spec fn static_json_scalars(list: Seq<(&'static str, SerdeValue)>) -> Seq<
    (Seq<u8>, JsonView),
> {
    list.map_values(
        |item: (&'static str, SerdeValue)| (encode_utf8(item.0@), json_scalar(item.1)),
    )
}

/// The entries of a map of variables.
pub(crate) fn variable_entries(variables: HashMap<String, SerdeValue>) -> (r: Vec<
    (String, Json),
>)
    ensures
        exists|list: Seq<(String, SerdeValue)>|
            enumerates(list, variables@) && scalars(r@) == json_scalars(list),
        distinct_names(scalars(r@)),
{
    let entries: Vec<(String, SerdeValue)> = into_variables(variables);
    let ghost list = entries@;
    let mut r: Vec<(String, Json)> = Vec::new();
    for entry in iter: entries
        invariant
            iter.seq() == list,
            r@.len() == iter.index(),
            forall|i: int|
                0 <= i < r@.len() ==> (#[trigger] r@[i]).0 == list[i].0 && r@[i].1@ == json_scalar(
                    list[i].1,
                ),
    {
        let (name, value): (String, SerdeValue) = entry;
        r.push((name, json_of(&value)));
    }
    assert(scalars(r@) =~= json_scalars(list));
    let ghost named = scalars(r@);
    assert forall|i: int, j: int| 0 <= i < j < named.len() implies (#[trigger] named[i]).0 != (
    #[trigger] named[j]).0 by {
        assert(list[i].0@ != list[j].0@);
        encode_utf8_decode_utf8(list[i].0@);
        encode_utf8_decode_utf8(list[j].0@);
    }
    r
}

/// The entries of a map of fields.
pub(crate) fn field_entries(fields: HashMap<&'static str, SerdeValue>) -> (r: Vec<
    (String, Json),
>)
    ensures
        exists|list: Seq<(&'static str, SerdeValue)>|
            enumerates(list, fields@) && scalars(r@) == static_json_scalars(list),
        distinct_names(scalars(r@)),
{
    let entries: Vec<(&'static str, SerdeValue)> = into_fields(fields);
    let ghost list = entries@;
    let mut r: Vec<(String, Json)> = Vec::new();
    for entry in iter: entries
        invariant
            iter.seq() == list,
            r@.len() == iter.index(),
            forall|i: int|
                0 <= i < r@.len() ==> (#[trigger] r@[i]).0@ == list[i].0@ && r@[i].1@
                    == json_scalar(list[i].1),
    {
        let (name, value): (&'static str, SerdeValue) = entry;
        r.push((name.to_owned(), json_of(&value)));
    }
    assert(scalars(r@) =~= static_json_scalars(list));
    let ghost named = scalars(r@);
    assert forall|i: int, j: int| 0 <= i < j < named.len() implies (#[trigger] named[i]).0 != (
    #[trigger] named[j]).0 by {
        assert(list[i].0@ != list[j].0@);
        encode_utf8_decode_utf8(list[i].0@);
        encode_utf8_decode_utf8(list[j].0@);
    }
    r
}

} // verus!
