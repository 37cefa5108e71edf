//! Variables, fields and methods.

use vstd::prelude::*;

use crate::machine::Machine;
use crate::semantics::{
    call_method, define_method, invoke_from_class, op_define_global, op_get_global, op_get_property,
    op_inherit, op_set_global, op_set_property, push, Flow,
};
use crate::value::Value;

verus! {

/// A variable that was defined can be read, and has the value that was on top of
/// the stack; no other variable changes.
pub proof fn define_then_get(m: Machine, index: u8, name: usize)
    requires
        m.constant(index) == Some(Value::String(name)),
        m.top >= 1,
    ensures
        op_define_global(m, index) matches Flow::Next(a) && {
            &&& op_get_global(a, index) == push(a, m.peek(0))
            &&& a.globals.remove(name) == m.globals.remove(name)
        },
{
}

/// A variable that is there can be set, and has the new value from then on; no other
/// variable changes.
pub proof fn set_then_get(m: Machine, index: u8, name: usize)
    requires
        m.constant(index) == Some(Value::String(name)),
        m.globals.contains_key(name),
        m.top >= 1,
    ensures
        op_set_global(m, index) matches Flow::Next(a) && {
            &&& op_get_global(a, index) == push(a, m.peek(0))
            &&& a.globals.remove(name) == m.globals.remove(name)
        },
{
}

/// A variable that is not there can be neither read nor set, and to try defines nothing.
pub proof fn undefined_stays_undefined(m: Machine, index: u8, name: usize)
    requires
        m.constant(index) == Some(Value::String(name)),
        !m.globals.contains_key(name),
    ensures
        !(op_get_global(m, index) is Next),
        !(op_set_global(m, index) is Next),
        op_get_global(m, index) matches Flow::Fail(a, _) ==> a == m,
        op_set_global(m, index) matches Flow::Fail(a, _) ==> a == m,
{
}

/// A field that was set has that value, whatever methods the class has; no other
/// field and no other instance changes.
pub proof fn set_field_then_get(m: Machine, index: u8, name: usize, i: usize)
    requires
        m.valid(),
        m.constant(index) == Some(Value::String(name)),
        m.top >= 2,
        m.peek(1) == Value::Instance(i),
    ensures
        op_set_property(m, index) matches Flow::Next(a) && {
            &&& a.peek(0) == m.peek(0)
            &&& a.top == m.top - 1
            &&& op_get_property(a.dropped(1).pushed(Value::Instance(i)), index) == Flow::Next(
                a.dropped(1).pushed(m.peek(0)),
            )
            &&& a.instances[i as int].fields.remove(name) == m.instances[i as int].fields.remove(
                name,
            )
            &&& forall|j: int|
                0 <= j < m.instances.len() && j != i ==> #[trigger] a.instances[j]
                    == m.instances[j]
        },
{
    assert(m.value_ok(m.peek(1)));
    let v = m.peek(0);
    let a = m.with_fields(i as int, m.instances[i as int].fields.insert(name, v)).dropped(2).pushed(
        v,
    );
    let asked = a.dropped(1).pushed(Value::Instance(i));
    assert(asked.dropped(1).pushed(v) =~= a.dropped(1).pushed(v));
}

/// A method that was defined is the one that is called under its name; no other
/// method and no other class changes.
pub proof fn define_method_then_invoke(m: Machine, name: usize, c: usize, arg_count: u8)
    requires
        m.valid(),
        m.top >= 2,
        m.peek(1) == Value::Class(c),
    ensures
        define_method(m, name) matches Flow::Next(a) && {
            &&& invoke_from_class(a, c, name, arg_count) == call_method(a, m.peek(0), arg_count)
            &&& a.classes[c as int].methods.remove(name) == m.classes[c as int].methods.remove(name)
            &&& forall|j: int|
                0 <= j < m.classes.len() && j != c ==> #[trigger] a.classes[j] == m.classes[j]
        },
{
    assert(m.value_ok(m.peek(1)));
}

/// A class that inherits has all methods of its superclass, and besides them those
/// of its own that the superclass lacks; no other class changes.
pub proof fn subclass_has_methods(m: Machine, superclass: usize, subclass: usize)
    requires
        m.valid(),
        m.top >= 2,
        m.peek(1) == Value::Class(superclass),
        m.peek(0) == Value::Class(subclass),
        superclass != subclass,
    ensures
        op_inherit(m) matches Flow::Next(a) && {
            let methods = a.classes[subclass as int].methods;
            let own = m.classes[subclass as int].methods;
            let inherited = m.classes[superclass as int].methods;
            &&& forall|k: usize| #[trigger]
                inherited.contains_key(k) ==> methods.contains_key(k) && methods[k] == inherited[k]
            &&& forall|k: usize| #[trigger]
                own.contains_key(k) && !inherited.contains_key(k) ==> methods.contains_key(k)
                    && methods[k] == own[k]
            &&& forall|k: usize| #[trigger]
                methods.contains_key(k) ==> own.contains_key(k) || inherited.contains_key(k)
            &&& forall|j: int|
                0 <= j < m.classes.len() && j != subclass ==> #[trigger] a.classes[j]
                    == m.classes[j]
        },
{
    assert(m.value_ok(m.peek(0)));
    assert(m.value_ok(m.peek(1)));
}

} // verus!
