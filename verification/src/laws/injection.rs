//! What the host gives programs.

use serde_json::Value as SerdeValue;
use vstd::prelude::*;
use vstd::string::*;
use vstd::utf8::*;

use crate::inject::{
    distinct_names, enumerates, json_scalar, json_scalars, json_value, static_json_scalars,
    with_field, with_fields, with_object, with_variable, with_variables, JsonView,
};
use crate::laws::growth::begins;
use crate::laws::validity::interning_is_valid;
use crate::machine::Machine;
use crate::object::{ClassView, InstanceView};
use crate::semantics::with_builtins;
use crate::string::{distinct, interned_at, interning};
use crate::value::{NativeFn, Value};

verus! {

/// What a table holds under a name.
pub open spec fn entry(m: Machine, table: Map<usize, Value>, name: Seq<u8>) -> Option<Value> {
    if m.strings.contains(name) && table.contains_key(m.place_of(name)) {
        Some(table[m.place_of(name)])
    } else {
        None
    }
}

/// The value of a global variable.
pub open spec fn variable(m: Machine, name: Seq<u8>) -> Option<Value> {
    entry(m, m.globals, name)
}

/// Whether a value of the machine is the one that the host gave.
pub open spec fn means(m: Machine, value: Value, v: JsonView) -> bool {
    match v {
        JsonView::Null => value == Value::Nil,
        JsonView::Bool(b) => value == Value::Boolean(b),
        JsonView::Number(n) => value == Value::Number(n),
        JsonView::String(s) => value matches Value::String(p) && p < m.strings.len()
            && m.strings[p as int] == s,
        JsonView::Compound => false,
    }
}

/// A string that was interned keeps its place.
pub proof fn places_stay(strings: Seq<Seq<u8>>, more: Seq<Seq<u8>>, name: Seq<u8>)
    requires
        distinct(strings),
        distinct(more),
        begins(strings, more),
        strings.contains(name),
    ensures
        more.contains(name),
        interned_at(more, name) == interned_at(strings, name),
{
    interning(strings, name);
    interning(more, name);
    let p = interned_at(strings, name);
    assert(more[p] == name);
    assert(more.contains(more[p]));
}

/// Two strings that are interned have two places.
proof fn places_differ(strings: Seq<Seq<u8>>, a: Seq<u8>, b: Seq<u8>)
    requires
        distinct(strings),
        strings.contains(a),
        strings.contains(b),
        a != b,
    ensures
        interned_at(strings, a) != interned_at(strings, b),
{
    interning(strings, a);
    interning(strings, b);
}

/// What more strings leave of a table.
pub proof fn entries_outlast(m: Machine, more: Machine, table: Map<usize, Value>, name: Seq<u8>)
    requires
        m.table_ok(table),
        distinct(m.strings),
        distinct(more.strings),
        begins(m.strings, more.strings),
        more.strings.len() <= usize::MAX,
    ensures
        entry(more, table, name) == entry(m, table, name),
{
    if m.strings.contains(name) {
        places_stay(m.strings, more.strings, name);
    } else if more.strings.contains(name) {
        interning(more.strings, name);
        let i = interned_at(more.strings, name);
        if i < m.strings.len() {
            assert(m.strings.contains(m.strings[i]));
        }
    }
}

/// What interning one more string leaves of a table.
proof fn entries_stay(m: Machine, table: Map<usize, Value>, bytes: Seq<u8>, name: Seq<u8>)
    requires
        m.valid(),
        m.table_ok(table),
        m.interning(bytes).strings.len() <= usize::MAX,
    ensures
        entry(m.interning(bytes), table, name) == entry(m, table, name),
{
    interning_is_valid(m, bytes);
    entries_outlast(m, m.interning(bytes), table, name);
}

/// What putting a value under a name does to a table.
proof fn entry_is_put(m: Machine, table: Map<usize, Value>, name: Seq<u8>, v: Value, other: Seq<u8>)
    requires
        m.valid(),
        m.strings.contains(name),
        m.strings.len() <= usize::MAX,
    ensures
        entry(m, table.insert(m.place_of(name), v), name) == Some(v),
        other != name ==> entry(m, table.insert(m.place_of(name), v), other) == entry(
            m,
            table,
            other,
        ),
{
    interning(m.strings, name);
    if other != name && m.strings.contains(other) {
        interning(m.strings, other);
        places_differ(m.strings, name, other);
    }
}

/// What a JSON value becomes.
proof fn json_values_mean(m: Machine, v: JsonView)
    requires
        m.valid(),
    ensures
        match json_value(m, v) {
            Some((a, value)) => {
                &&& a.valid()
                &&& begins(m.strings, a.strings)
                &&& a == (Machine { strings: a.strings, ..m })
                &&& a.value_ok(value)
                &&& a.strings.len() <= usize::MAX ==> means(a, value, v)
            },
            None => v is Compound,
        },
{
    match v {
        JsonView::String(s) => {
            interning(m.strings, s);
        },
        _ => {},
    }
}

/// What a value means does not change with more strings.
pub proof fn meanings_stay(m: Machine, after: Machine, value: Value, v: JsonView)
    requires
        begins(m.strings, after.strings),
        means(m, value, v),
    ensures
        means(after, value, v),
{
}

/// What giving a variable to programs changes: strings, that variable, and nothing
/// else.
pub proof fn variable_is_given(m: Machine, name: Seq<u8>, v: JsonView, other: Seq<u8>)
    requires
        m.valid(),
        with_variable(m, name, v).strings.len() <= usize::MAX,
    ensures
        ({
            let a = with_variable(m, name, v);
            &&& a.valid()
            &&& begins(m.strings, a.strings)
            &&& a == (Machine { strings: a.strings, globals: a.globals, ..m })
            &&& !(v is Compound) ==> (variable(a, name) matches Some(w) && means(a, w, v))
            &&& v is Compound || other != name ==> variable(a, other) == variable(m, other)
        }),
{
    let named = m.interning(name);
    interning_is_valid(m, name);
    json_values_mean(named, v);
    let a = with_variable(m, name, v);
    assert(begins(named.strings, a.strings));
    entries_stay(m, m.globals, name, other);
    match json_value(named, v) {
        Some((after, value)) => {
            match v {
                JsonView::String(bytes) => {
                    entries_stay(named, named.globals, bytes, other);
                },
                _ => {},
            }
            assert(variable(after, other) == variable(m, other));
            interning(m.strings, name);
            places_stay(named.strings, after.strings, name);
            interning(named.strings, name);
            let p = m.place_of(name);
            assert(named.strings[interned_at(m.strings, name)] == name);
            assert(named.strings[interned_at(named.strings, name)] == name);
            assert(after.place_of(name) == p);
            entry_is_put(after, after.globals, name, value, other);
            assert(a == after.with_global(p, value));
            assert(a.strings == after.strings);
            assert(a.globals == after.globals.insert(p, value));
            assert(variable(a, name) == Some(value));
            assert(a.table_ok(a.globals));
        },
        None => {},
    }
}

/// The machine is valid once programs have been given variables, and only strings
/// and variables have changed.
pub proof fn giving_keeps_validity(m: Machine, list: Seq<(Seq<u8>, JsonView)>)
    requires
        m.valid(),
        with_variables(m, list).strings.len() <= usize::MAX,
    ensures
        ({
            let a = with_variables(m, list);
            &&& a.valid()
            &&& begins(m.strings, a.strings)
            &&& a == (Machine { strings: a.strings, globals: a.globals, ..m })
            &&& list.len() > 0 ==> with_variables(m, list.drop_last()).strings.len() <= usize::MAX
        }),
    decreases list.len(),
{
    if list.len() > 0 {
        let before = with_variables(m, list.drop_last());
        let (name, v) = list.last();
        assert(before.strings.len() <= usize::MAX) by {
            strings_only_grow(m, list);
        }
        giving_keeps_validity(m, list.drop_last());
        variable_is_given(before, name, v, name);
    }
}

/// Each variable that is given to programs makes strings no fewer.
proof fn strings_only_grow(m: Machine, list: Seq<(Seq<u8>, JsonView)>)
    requires
        list.len() > 0,
    ensures
        with_variables(m, list.drop_last()).strings.len() <= with_variables(m, list).strings.len(),
{
}

/// Programs find each variable that they are given under its name, with its value.
/// Of arrays and objects they are given nothing.
pub proof fn variables_are_given(m: Machine, list: Seq<(Seq<u8>, JsonView)>, i: int)
    requires
        m.valid(),
        distinct_names(list),
        0 <= i < list.len(),
        !(list[i].1 is Compound),
        with_variables(m, list).strings.len() <= usize::MAX,
    ensures
        variable(with_variables(m, list), list[i].0) matches Some(w) && means(
            with_variables(m, list),
            w,
            list[i].1,
        ),
    decreases list.len(),
{
    let rest = list.drop_last();
    let before = with_variables(m, rest);
    let (name, v) = list.last();
    giving_keeps_validity(m, list);
    giving_keeps_validity(m, rest);
    variable_is_given(before, name, v, list[i].0);
    if i < rest.len() {
        assert(rest[i] == list[i]);
        assert(list[i].0 != list[list.len() - 1].0);
        variables_are_given(m, rest, i);
    }
}

/// Variables that programs are not given are as they were.
pub proof fn other_variables_stay(m: Machine, list: Seq<(Seq<u8>, JsonView)>, name: Seq<u8>)
    requires
        m.valid(),
        forall|i: int|
            0 <= i < list.len() ==> (#[trigger] list[i]).0 != name || list[i].1 is Compound,
        with_variables(m, list).strings.len() <= usize::MAX,
    ensures
        variable(with_variables(m, list), name) == variable(m, name),
    decreases list.len(),
{
    if list.len() > 0 {
        let rest = list.drop_last();
        let before = with_variables(m, rest);
        giving_keeps_validity(m, list);
        giving_keeps_validity(m, rest);
        assert(list[list.len() - 1] == list.last());
        assert forall|i: int| 0 <= i < rest.len() implies (#[trigger] rest[i]).0 != name
            || rest[i].1 is Compound by {
            assert(rest[i] == list[i]);
        }
        variable_is_given(before, list.last().0, list.last().1, name);
        other_variables_stay(m, rest, name);
    }
}

/// What one more field changes: strings, that field, and nothing else.
proof fn field_is_given(
    m: Machine,
    fields: Map<usize, Value>,
    name: Seq<u8>,
    v: JsonView,
    other: Seq<u8>,
)
    requires
        m.valid(),
        m.table_ok(fields),
        with_field(m, fields, name, v).0.strings.len() <= usize::MAX,
    ensures
        ({
            let (a, more) = with_field(m, fields, name, v);
            &&& a.valid()
            &&& begins(m.strings, a.strings)
            &&& a == (Machine { strings: a.strings, ..m })
            &&& a.table_ok(more)
            &&& !(v is Compound) ==> (entry(a, more, name) matches Some(w) && means(a, w, v))
            &&& v is Compound || other != name ==> entry(a, more, other) == entry(m, fields, other)
        }),
{
    json_values_mean(m, v);
    match json_value(m, v) {
        Some((after, value)) => {
            let a = after.interning(name);
            interning_is_valid(after, name);
            match v {
                JsonView::String(bytes) => {
                    entries_stay(m, fields, bytes, other);
                },
                _ => {},
            }
            assert(after.table_ok(fields));
            entries_stay(after, fields, name, other);
            interning(after.strings, name);
            interning(a.strings, name);
            assert(a.strings[interned_at(after.strings, name)] == name);
            assert(a.strings[interned_at(a.strings, name)] == name);
            assert(after.place_of(name) == a.place_of(name));
            entry_is_put(a, fields, name, value, other);
            meanings_stay(after, a, value, v);
        },
        None => {},
    }
}

/// Each field makes strings no fewer.
proof fn fields_only_add(m: Machine, list: Seq<(Seq<u8>, JsonView)>)
    requires
        list.len() > 0,
    ensures
        with_fields(m, list.drop_last()).0.strings.len() <= with_fields(m, list).0.strings.len(),
{
}

/// What a list of fields makes: each field under its name, with its value, and no
/// others. Arrays and objects are passed over.
pub proof fn fields_are_given(m: Machine, list: Seq<(Seq<u8>, JsonView)>)
    requires
        m.valid(),
        distinct_names(list),
        with_fields(m, list).0.strings.len() <= usize::MAX,
    ensures
        ({
            let (a, fields) = with_fields(m, list);
            &&& a.valid()
            &&& begins(m.strings, a.strings)
            &&& a == (Machine { strings: a.strings, ..m })
            &&& a.table_ok(fields)
            &&& forall|i: int|
                0 <= i < list.len() && !(list[i].1 is Compound) ==> (entry(
                    a,
                    fields,
                    (#[trigger] list[i]).0,
                ) matches Some(w) && means(a, w, list[i].1))
            &&& forall|name: Seq<u8>|
                (forall|i: int|
                    0 <= i < list.len() ==> (#[trigger] list[i]).0 != name
                        || list[i].1 is Compound) ==> #[trigger] entry(a, fields, name) is None
        }),
    decreases list.len(),
{
    if list.len() > 0 {
        let rest = list.drop_last();
        let (before, some) = with_fields(m, rest);
        let (name, v) = list.last();
        let (a, fields) = with_fields(m, list);
        fields_only_add(m, list);
        fields_are_given(m, rest);
        field_is_given(before, some, name, v, name);
        assert forall|i: int| 0 <= i < list.len() && !(list[i].1 is Compound) implies (entry(
            a,
            fields,
            (#[trigger] list[i]).0,
        ) matches Some(w) && means(a, w, list[i].1)) by {
            if i < rest.len() {
                assert(rest[i] == list[i]);
                assert(list[i].0 != list[list.len() - 1].0);
                field_is_given(before, some, name, v, list[i].0);
                let w = entry(before, some, rest[i].0).unwrap();
                meanings_stay(before, a, w, list[i].1);
            }
        }
        assert forall|other: Seq<u8>|
            (forall|i: int|
                0 <= i < list.len() ==> (#[trigger] list[i]).0 != other
                    || list[i].1 is Compound) implies #[trigger] entry(
            a,
            fields,
            other,
        ) is None by {
            assert(list[list.len() - 1] == list.last());
            assert forall|i: int| 0 <= i < rest.len() implies (#[trigger] rest[i]).0 != other
                || rest[i].1 is Compound by {
                assert(rest[i] == list[i]);
            }
            field_is_given(before, some, name, v, other);
            assert(entry(before, some, other) is None);
        }
    }
}

/// What a list of fields leaves of the machine, and of the field at a place of the list
/// where it has that place.
proof fn fields_count(m: Machine, list: Seq<(Seq<u8>, JsonView)>, i: int)
    requires
        m.valid(),
        with_fields(m, list).0.strings.len() <= usize::MAX,
        0 <= i < list.len() ==> !(list[i].1 is Compound),
        forall|j: int|
            i < j < list.len() ==> (#[trigger] list[j]).0 != list[i].0 || list[j].1 is Compound,
    ensures
        ({
            let (a, fields) = with_fields(m, list);
            &&& a.valid()
            &&& begins(m.strings, a.strings)
            &&& a.table_ok(fields)
            &&& 0 <= i < list.len() ==> (entry(a, fields, list[i].0) matches Some(w) && means(
                a,
                w,
                list[i].1,
            ))
        }),
    decreases list.len(),
{
    if list.len() > 0 {
        let rest = list.drop_last();
        let (before, some) = with_fields(m, rest);
        let (name, v) = list.last();
        fields_only_add(m, list);
        if 0 <= i < rest.len() {
            assert(rest[i] == list[i]);
            assert forall|j: int| i < j < rest.len() implies (#[trigger] rest[j]).0 != rest[i].0
                || rest[j].1 is Compound by {
                assert(rest[j] == list[j]);
            }
            fields_count(m, rest, i);
            assert(list[list.len() - 1].0 != list[i].0 || list[list.len() - 1].1 is Compound);
            field_is_given(before, some, name, v, list[i].0);
            let w = entry(before, some, rest[i].0).unwrap();
            meanings_stay(before, with_fields(m, list).0, w, list[i].1);
        } else {
            fields_count(m, rest, rest.len() as int);
            field_is_given(before, some, name, v, name);
        }
    }
}

/// Of the fields with one name that the host gives an object, the last one counts that is
/// no array or object.
pub proof fn last_fields_count(m: Machine, list: Seq<(Seq<u8>, JsonView)>, i: int)
    requires
        m.valid(),
        with_fields(m, list).0.strings.len() <= usize::MAX,
        0 <= i < list.len(),
        !(list[i].1 is Compound),
        forall|j: int|
            i < j < list.len() ==> (#[trigger] list[j]).0 != list[i].0 || list[j].1 is Compound,
    ensures
        entry(with_fields(m, list).0, with_fields(m, list).1, list[i].0) matches Some(w)
            && means(with_fields(m, list).0, w, list[i].1),
{
    fields_count(m, list, i);
}

/// Programs find an object that they are given under its name: a new instance of a
/// new class of that name, with the given fields and no others. Other variables and
/// other instances are as they were.
pub proof fn object_is_given(m: Machine, name: Seq<u8>, list: Seq<(Seq<u8>, JsonView)>)
    requires
        m.valid(),
        distinct_names(list),
        with_object(m, name, list).strings.len() <= usize::MAX,
        m.classes.len() <= usize::MAX,
        m.instances.len() <= usize::MAX,
    ensures
        ({
            let a = with_object(m, name, list);
            let i = m.instances.len() as int;
            let fields = a.instances[i].fields;
            &&& a.valid()
            &&& variable(a, name) == Some(Value::Instance(i as usize))
            &&& a.instances.len() == i + 1
            &&& a.instances[i].class == m.classes.len()
            &&& a.strings[a.classes[a.instances[i].class as int].name as int] == name
            &&& a.classes[a.instances[i].class as int].methods == Map::<usize, Value>::empty()
            &&& a.classes.len() == m.classes.len() + 1
            &&& begins(m.strings, a.strings)
            &&& begins(m.classes, a.classes)
            &&& begins(m.instances, a.instances)
            &&& forall|other: Seq<u8>|
                other != name ==> #[trigger] variable(a, other) == variable(m, other)
            &&& forall|k: int|
                0 <= k < list.len() && !(list[k].1 is Compound) ==> (entry(
                    a,
                    fields,
                    (#[trigger] list[k]).0,
                ) matches Some(w) && means(a, w, list[k].1))
            &&& forall|other: Seq<u8>|
                (forall|k: int|
                    0 <= k < list.len() ==> (#[trigger] list[k]).0 != other
                        || list[k].1 is Compound) ==> #[trigger] entry(a, fields, other) is None
        }),
{
    let place = m.place_of(name);
    let class = ClassView { name: place, methods: Map::empty() };
    let named = m.interning(name).with_class(class);
    interning_is_valid(m, name);
    interning(m.strings, name);
    let (after, fields) = with_fields(named, list);
    let instance = InstanceView { class: m.classes.len() as usize, fields };
    let a = with_object(m, name, list);
    assert(place < named.strings.len());
    assert(named.valid());
    fields_are_given(named, list);
    let kept = after.with_instance(instance);
    assert(kept.valid());
    places_stay(named.strings, after.strings, name);
    interning(named.strings, name);
    assert(named.strings[interned_at(m.strings, name)] == name);
    assert(after.place_of(name) == place);
    entry_is_put(kept, kept.globals, name, Value::Instance(m.instances.len() as usize), name);
    assert(a.instances[m.instances.len() as int] == instance);
    assert forall|other: Seq<u8>| other != name implies #[trigger] variable(a, other) == variable(
        m,
        other,
    ) by {
        entries_outlast(m, kept, m.globals, other);
        entry_is_put(kept, kept.globals, name, Value::Instance(m.instances.len() as usize), other);
        assert(variable(kept, other) == variable(m, other));
    }
    assert forall|k: int| 0 <= k < list.len() && !(list[k].1 is Compound) implies (entry(
        a,
        fields,
        (#[trigger] list[k]).0,
    ) matches Some(w) && means(a, w, list[k].1)) by {
        assert(entry(after, fields, list[k].0) == entry(a, fields, list[k].0));
        meanings_stay(after, a, entry(after, fields, list[k].0).unwrap(), list[k].1);
    }
    assert forall|other: Seq<u8>|
        (forall|k: int|
            0 <= k < list.len() ==> (#[trigger] list[k]).0 != other
                || list[k].1 is Compound) implies #[trigger] entry(a, fields, other) is None by {
        assert(entry(after, fields, other) == entry(a, fields, other));
    }
}

/// A second object under one name takes the place of the first: its fields come from
/// the second list alone, and the first instance is as it was.
pub proof fn objects_are_replaced(
    m: Machine,
    name: Seq<u8>,
    first: Seq<(Seq<u8>, JsonView)>,
    second: Seq<(Seq<u8>, JsonView)>,
)
    requires
        m.valid(),
        distinct_names(first),
        distinct_names(second),
        with_object(with_object(m, name, first), name, second).strings.len() <= usize::MAX,
        m.classes.len() <= usize::MAX,
        m.instances.len() <= usize::MAX,
        with_object(m, name, first).classes.len() <= usize::MAX,
        with_object(m, name, first).instances.len() <= usize::MAX,
    ensures
        ({
            let a = with_object(m, name, first);
            let b = with_object(a, name, second);
            let old = m.instances.len() as int;
            let fields = b.instances[old + 1].fields;
            &&& variable(a, name) == Some(Value::Instance(old as usize))
            &&& variable(b, name) == Some(Value::Instance((old + 1) as usize))
            &&& b.instances[old] == a.instances[old]
            &&& forall|k: int|
                0 <= k < second.len() && !(second[k].1 is Compound) ==> (entry(
                    b,
                    fields,
                    (#[trigger] second[k]).0,
                ) matches Some(w) && means(b, w, second[k].1))
            &&& forall|other: Seq<u8>|
                (forall|k: int|
                    0 <= k < second.len() ==> (#[trigger] second[k]).0 != other
                        || second[k].1 is Compound) ==> #[trigger] entry(b, fields, other) is None
        }),
{
    objects_only_add(with_object(m, name, first), name, second);
    object_is_given(m, name, first);
    object_is_given(with_object(m, name, first), name, second);
}

/// Each field makes strings no fewer, and so do all of them.
proof fn all_fields_only_add(m: Machine, list: Seq<(Seq<u8>, JsonView)>)
    ensures
        m.strings.len() <= with_fields(m, list).0.strings.len(),
    decreases list.len(),
{
    if list.len() > 0 {
        all_fields_only_add(m, list.drop_last());
        fields_only_add(m, list);
    }
}

/// An object makes strings no fewer.
proof fn objects_only_add(m: Machine, name: Seq<u8>, list: Seq<(Seq<u8>, JsonView)>)
    ensures
        m.strings.len() <= with_object(m, name, list).strings.len(),
{
    let class = ClassView { name: m.place_of(name), methods: Map::empty() };
    all_fields_only_add(m.interning(name).with_class(class), list);
}

/// Whatever the order in which a map of variables is walked, programs find each of
/// its variables under its key, with the value that it has there.
pub proof fn maps_of_variables_are_given(
    m: Machine,
    map: Map<String, SerdeValue>,
    list: Seq<(String, SerdeValue)>,
    key: String,
)
    requires
        m.valid(),
        enumerates(list, map),
        distinct_names(json_scalars(list)),
        map.contains_key(key),
        !(json_scalar(map[key]) is Compound),
        with_variables(m, json_scalars(list)).strings.len() <= usize::MAX,
    ensures
        variable(with_variables(m, json_scalars(list)), encode_utf8(key@)) matches Some(w)
            && means(with_variables(m, json_scalars(list)), w, json_scalar(map[key])),
{
    let i = choose|i: int| 0 <= i < list.len() && (#[trigger] list[i]).0 == key;
    assert(map[list[i].0] == list[i].1);
    assert(json_scalars(list)[i] == (encode_utf8(key@), json_scalar(map[key])));
    variables_are_given(m, json_scalars(list), i);
}

/// Whatever the order in which a map of fields is walked, programs find each of its
/// fields in the object under its key, with the value that it has there.
pub proof fn maps_of_fields_are_given(
    m: Machine,
    name: Seq<u8>,
    map: Map<&'static str, SerdeValue>,
    list: Seq<(&'static str, SerdeValue)>,
    key: &'static str,
)
    requires
        m.valid(),
        enumerates(list, map),
        distinct_names(static_json_scalars(list)),
        map.contains_key(key),
        !(json_scalar(map[key]) is Compound),
        with_object(m, name, static_json_scalars(list)).strings.len() <= usize::MAX,
        m.classes.len() <= usize::MAX,
        m.instances.len() <= usize::MAX,
    ensures
        ({
            let a = with_object(m, name, static_json_scalars(list));
            variable(a, name) matches Some(Value::Instance(i)) && (entry(
                a,
                a.instances[i as int].fields,
                encode_utf8(key@),
            ) matches Some(w) && means(a, w, json_scalar(map[key])))
        }),
{
    let k = choose|k: int| 0 <= k < list.len() && (#[trigger] list[k]).0 == key;
    assert(map[list[k].0] == list[k].1);
    let scalars = static_json_scalars(list);
    assert(scalars[k] == (encode_utf8(key@), json_scalar(map[key])));
    object_is_given(m, name, scalars);
}

/// The functions of the host take no variable's place but that of their own name.
pub proof fn builtins_keep_variables(m: Machine, name: Seq<u8>)
    requires
        m.valid(),
        name != "clock".spec_bytes(),
        with_builtins(m).strings.len() <= usize::MAX,
        m.strings.contains(name),
    ensures
        variable(with_builtins(m), name) == variable(m, name),
        with_builtins(m).place_of(name) == m.place_of(name),
        begins(m.strings, with_builtins(m).strings),
{
    let clock = "clock".spec_bytes();
    let named = m.interning(clock);
    interning_is_valid(m, clock);
    entries_stay(m, m.globals, clock, name);
    interning(m.strings, clock);
    interning(named.strings, clock);
    assert(named.strings[interned_at(m.strings, clock)] == clock);
    assert(named.strings[interned_at(named.strings, clock)] == clock);
    entry_is_put(named, named.globals, clock, Value::NativeFunction(NativeFn::Clock), name);
    places_stay(m.strings, named.strings, name);
}

} // verus!
