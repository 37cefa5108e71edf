//! What calls, invocations and returns do, told slot by slot.

use vstd::prelude::*;
use vstd::string::*;

use crate::chunk::OpCode;
use crate::laws::instructions::{
    about_to, asks, code_of, computes, errors_are_reported, fails, goes_to, has_constant, inner,
    instructions_are_executed, nth, past, replaced, report, report_is_trace, same_heap, tellable,
    tellable_frame,
};
use crate::machine::Machine;
use crate::object::InstanceView;
use crate::semantics::{close, close_head, dispatch, execute, Flow, Inquiry};
use crate::string::interning;
use crate::text::{decimal, shown};
use crate::value::{NativeFn, Value};

verus! {

// ---- Beginning a call ----

/// The arguments that a closure expects.
pub open spec fn expects(m: Machine, closure: usize) -> u8 {
    m.functions[m.closures[closure as int].function as int].arity
}

/// The slot of a call, counted from its first one.
pub open spec fn slot_of(m: Machine, i: int) -> Value {
    m.stack[inner(m).slot_start + i]
}

/// Whether a call of the closure has begun, at its first instruction, with the given
/// first slot; the calls that were under way still are, the innermost of them at its
/// next instruction.
pub open spec fn begun(m: Machine, after: Machine, closure: usize, first: int) -> bool {
    &&& after.frames.len() == m.frames.len() + 1
    &&& goes_to(m, Machine { frames: after.frames.drop_last(), ..after }, inner(m).ip + 1)
    &&& inner(after).closure == closure
    &&& inner(after).ip == 0
    &&& inner(after).slot_start == first
}

/// The message for a wrong number of arguments.
pub open spec fn count_message(expected: u8, given: u8) -> Seq<char> {
    "Expected "@ + decimal(expected as nat) + " arguments but got "@ + decimal(given as nat) + "."@
}

/// A closure that is called with the arguments it expects begins with itself in its slot
/// 0 and the arguments, in order, in the slots after it. Nothing else changes.
pub proof fn closures_are_called(m: Machine, stop: int, n: u8, closure: usize)
    requires
        about_to(m, OpCode::Call(n)),
        n + 1 <= m.top <= 4096,
        nth(m, n as int) == Value::Closure(closure),
        expects(m, closure) == n,
        m.frames.len() < 64,
    ensures
        dispatch(m, stop) matches Flow::Next(a) && {
            &&& begun(m, a, closure, m.top - n - 1)
            &&& slot_of(a, 0) == Value::Closure(closure)
            &&& forall|j: int| 1 <= j <= n ==> #[trigger] slot_of(a, j) == nth(m, n - j)
            &&& replaced(m, a, 0, Seq::empty())
            &&& same_heap(m, a)
        },
{
    instructions_are_executed(m, OpCode::Call(n), stop);
    let a = dispatch(m, stop)->Next_0;
    assert(a.frames.drop_last() =~= past(m).frames);
}

/// A closure that is called with another number of arguments, or while as many calls are
/// under way as can be, fails.
pub proof fn closures_are_guarded(m: Machine, stop: int, n: u8, closure: usize)
    requires
        about_to(m, OpCode::Call(n)),
        tellable(m),
        n + 1 <= m.top <= 4096,
        nth(m, n as int) == Value::Closure(closure),
    ensures
        expects(m, closure) != n ==> fails(
            m,
            dispatch(m, stop),
            0,
            count_message(expects(m, closure), n),
        ),
        expects(m, closure) == n && m.frames.len() == 64 ==> fails(
            m,
            dispatch(m, stop),
            0,
            "Stack overflow."@,
        ),
{
    let op = OpCode::Call(n);
    instructions_are_executed(m, op, stop);
    errors_are_reported(m, op, stop, count_message(expects(m, closure), n), m.top);
    errors_are_reported(m, op, stop, "Stack overflow."@, m.top);
    assert(past(m) == Machine { top: m.top, ..past(m) });
}

/// A bound method that is called begins a call of its method with its receiver in slot 0,
/// in the place of the called value. No other slot changes.
pub proof fn bound_methods_are_called(m: Machine, stop: int, n: u8, b: usize)
    requires
        about_to(m, OpCode::Call(n)),
        n + 1 <= m.top <= 4096,
        m.stack.len() == 4096,
        nth(m, n as int) == Value::BoundMethod(b),
        expects(m, m.bound_methods[b as int].method) == n,
        m.frames.len() < 64,
    ensures
        dispatch(m, stop) matches Flow::Next(a) && {
            &&& begun(m, a, m.bound_methods[b as int].method, m.top - n - 1)
            &&& slot_of(a, 0) == m.bound_methods[b as int].receiver
            &&& forall|j: int| 1 <= j <= n ==> #[trigger] slot_of(a, j) == nth(m, n - j)
            &&& forall|i: int|
                0 <= i < m.stack.len() && i != m.top - n - 1 ==> #[trigger] a.stack[i]
                    == m.stack[i]
            &&& a.top == m.top
            &&& same_heap(m, a)
        },
{
    instructions_are_executed(m, OpCode::Call(n), stop);
    let a = dispatch(m, stop)->Next_0;
    assert(a.frames.drop_last() =~= past(m).frames);
}

/// A function of the host is called with the arguments, the first one lowest, and it and
/// its arguments are taken off.
pub proof fn host_functions_are_called(m: Machine, stop: int, n: u8, f: NativeFn)
    requires
        about_to(m, OpCode::Call(n)),
        n + 1 <= m.top <= m.stack.len(),
        nth(m, n as int) == Value::NativeFunction(f),
    ensures
        dispatch(m, stop) matches Flow::Ask(a, q) && {
            &&& q matches Inquiry::CallNative { function, arguments } && {
                &&& function == f
                &&& arguments.len() == n
                &&& forall|i: int| 0 <= i < n ==> #[trigger] arguments[i] == nth(m, n - 1 - i)
            }
            &&& asks(m, dispatch(m, stop), n + 1, q)
        },
{
    instructions_are_executed(m, OpCode::Call(n), stop);
}

/// An agent that is called is pushed again.
pub proof fn agents_are_pushed(m: Machine, stop: int, n: u8, agent: usize)
    requires
        about_to(m, OpCode::Call(n)),
        n + 1 <= m.top < 4096,
        m.stack.len() == 4096,
        nth(m, n as int) == Value::Agent(agent),
    ensures
        computes(m, dispatch(m, stop), 0, seq![Value::Agent(agent)]),
{
    instructions_are_executed(m, OpCode::Call(n), stop);
}

/// Whether a value can be called.
pub open spec fn callable(v: Value) -> bool {
    match v {
        Value::Nil => false,
        Value::Boolean(_) => false,
        Value::Number(_) => false,
        Value::String(_) => false,
        Value::Instance(_) => false,
        _ => true,
    }
}

/// Other values cannot be called.
pub proof fn other_values_are_not_called(m: Machine, stop: int, n: u8)
    requires
        about_to(m, OpCode::Call(n)),
        tellable(m),
        n + 1 <= m.top <= m.stack.len(),
        !callable(nth(m, n as int)),
    ensures
        fails(m, dispatch(m, stop), 0, "Can only call functions and classes."@),
{
    let op = OpCode::Call(n);
    instructions_are_executed(m, op, stop);
    errors_are_reported(m, op, stop, "Can only call functions and classes."@, m.top);
    assert(past(m) == Machine { top: m.top, ..past(m) });
}

// ---- Instances ----

/// Whether a class has the value as its initializer.
pub open spec fn initialized_by(m: Machine, class: usize, v: Value) -> bool {
    exists|k: usize| #[trigger]
        m.classes[class as int].methods.contains_key(k) && k < m.strings.len()
            && m.strings[k as int] == "init".spec_bytes() && m.classes[class as int].methods[k]
            == v
}

/// Whether a class has an initializer.
pub open spec fn has_initializer(m: Machine, class: usize) -> bool {
    exists|v: Value| initialized_by(m, class, v)
}

/// Whether a new instance of the class, without fields, stands in the slot, and neither
/// another slot nor another object has changed, but that the name of initializers is now
/// among the strings.
pub open spec fn made(m: Machine, after: Machine, class: usize, slot: int) -> bool {
    &&& after.instances == m.instances.push(InstanceView { class, fields: Map::empty() })
    &&& after.stack.len() == m.stack.len()
    &&& after.stack[slot] == Value::Instance(m.instances.len() as usize)
    &&& forall|i: int|
        0 <= i < m.stack.len() && i != slot ==> #[trigger] after.stack[i] == m.stack[i]
    &&& after.top == m.top
    &&& m.strings.is_prefix_of(after.strings)
    &&& after.strings.len() <= m.strings.len() + 1
    &&& after.strings.contains("init".spec_bytes())
    &&& same_heap(m, Machine { instances: m.instances, strings: m.strings, ..after })
}

/// Where the initializer of a class is found.
proof fn initializers_are_found(m: Machine, class: usize)
    requires
        m.valid(),
        class < m.classes.len(),
        m.strings.len() < usize::MAX,
    ensures
        forall|v: Value|
            initialized_by(m, class, v) <==> m.classes[class as int].methods.contains_key(
                m.place_of("init".spec_bytes()),
            ) && m.classes[class as int].methods[m.place_of("init".spec_bytes())] == v,
{
    let name = "init".spec_bytes();
    let methods = m.classes[class as int].methods;
    interning(m.strings, name);
    let p = m.place_of(name);
    assert(m.table_ok(methods));
    assert forall|v: Value|
        initialized_by(m, class, v) <==> methods.contains_key(p) && methods[p] == v by {
        if initialized_by(m, class, v) {
            let k = choose|k: usize| #[trigger]
                methods.contains_key(k) && k < m.strings.len() && m.strings[k as int] == name
                    && methods[k] == v;
            assert(m.strings.contains(m.strings[k as int]));
            assert(m.strings[p as int] == name);
            assert(k == p);
        }
        if methods.contains_key(p) && methods[p] == v {
            assert(p < m.strings.len());
            assert(m.strings[p as int] == name);
        }
    }
}

/// The places of calls can also be told once there are more strings and objects.
proof fn later_machines_tell_places(m: Machine, op: OpCode, stop: int, a: Machine)
    requires
        m.valid(),
        about_to(m, op),
        tellable(m),
        a.frames == past(m).frames,
        a.functions == m.functions,
        a.closures == m.closures,
        m.strings.is_prefix_of(a.strings),
    ensures
        a.traceable(),
{
    instructions_are_executed(m, op, stop);
    assert forall|i: int| 0 <= i < a.frames.len() implies a.frame_traceable(
        #[trigger] a.frames[i],
    ) by {
        assert(tellable_frame(
            m,
            m.frames[i],
            if i == m.frames.len() - 1 {
                1
            } else {
                0
            },
        ));
        assert(m.frame_ok(m.frames[i]));
        assert(m.closure_ok(m.closures[m.frames[i].closure as int]));
        assert(m.function_ok(code_of(m, m.frames[i])));
        assert(code_of(m, m.frames[i]) == a.function_of(a.frames[i]));
    }
}

/// A class without an initializer that is called makes an instance in its place.
pub proof fn classes_are_called(m: Machine, stop: int, class: usize)
    requires
        m.valid(),
        about_to(m, OpCode::Call(0)),
        1 <= m.top,
        nth(m, 0) == Value::Class(class),
        !has_initializer(m, class),
        m.strings.len() < usize::MAX,
    ensures
        dispatch(m, stop) matches Flow::Next(a) && goes_to(m, a, inner(m).ip + 1) && made(
            m,
            a,
            class,
            m.top - 1,
        ),
{
    let op = OpCode::Call(0);
    instructions_are_executed(m, op, stop);
    assert(m.value_ok(m.stack[m.top - 1]));
    initializers_are_found(m, class);
    interning(m.strings, "init".spec_bytes());
    let p = m.place_of("init".spec_bytes());
    let methods = m.classes[class as int].methods;
    if methods.contains_key(p) {
        assert(initialized_by(m, class, methods[p]));
    }
}

/// Such a class takes no arguments.
pub proof fn classes_take_no_arguments(m: Machine, stop: int, n: u8, class: usize)
    requires
        m.valid(),
        about_to(m, OpCode::Call(n)),
        tellable(m),
        n > 0,
        n + 1 <= m.top,
        nth(m, n as int) == Value::Class(class),
        !has_initializer(m, class),
        m.strings.len() < usize::MAX,
    ensures
        dispatch(m, stop) matches Flow::Fail(a, text) && text == count_message(0, n) + report(
            a,
            a.frames.len() as int,
        ) && goes_to(m, a, inner(m).ip + 1) && made(m, a, class, m.top - n - 1),
{
    let op = OpCode::Call(n);
    instructions_are_executed(m, op, stop);
    assert(m.value_ok(m.stack[m.top - n - 1]));
    initializers_are_found(m, class);
    interning(m.strings, "init".spec_bytes());
    let p = m.place_of("init".spec_bytes());
    let methods = m.classes[class as int].methods;
    if methods.contains_key(p) {
        assert(initialized_by(m, class, methods[p]));
    }
    let a = past(m).with_instance(InstanceView { class, fields: Map::empty() }).with_slot(
        m.top - n - 1,
        Value::Instance(m.instances.len() as usize),
    ).interning("init".spec_bytes());
    later_machines_tell_places(m, op, stop, a);
    report_is_trace(a, count_message(0, n), a.frames.len() as int);
}

/// A class with an initializer that is called makes an instance in its place and begins
/// a call of the initializer, with the instance in slot 0 and the arguments, in order, in
/// the slots after it.
pub proof fn initializers_are_called(m: Machine, stop: int, n: u8, class: usize, init: usize)
    requires
        m.valid(),
        about_to(m, OpCode::Call(n)),
        n + 1 <= m.top,
        nth(m, n as int) == Value::Class(class),
        initialized_by(m, class, Value::Closure(init)),
        expects(m, init) == n,
        m.frames.len() < 64,
        m.strings.len() < usize::MAX,
    ensures
        dispatch(m, stop) matches Flow::Next(a) && {
            &&& begun(m, a, init, m.top - n - 1)
            &&& made(m, a, class, m.top - n - 1)
            &&& slot_of(a, 0) == Value::Instance(m.instances.len() as usize)
            &&& forall|j: int| 1 <= j <= n ==> #[trigger] slot_of(a, j) == nth(m, n - j)
        },
{
    let op = OpCode::Call(n);
    instructions_are_executed(m, op, stop);
    assert(m.value_ok(m.stack[m.top - n - 1]));
    initializers_are_found(m, class);
    interning(m.strings, "init".spec_bytes());
    let a = dispatch(m, stop)->Next_0;
    assert(a.frames.drop_last() =~= past(m).frames);
}

/// An initializer that is called with another number of arguments, or while as many calls
/// are under way as can be, fails, and so does what is no closure; the instance is made.
pub proof fn initializers_are_guarded(m: Machine, stop: int, n: u8, class: usize, v: Value)
    requires
        m.valid(),
        about_to(m, OpCode::Call(n)),
        tellable(m),
        n + 1 <= m.top,
        nth(m, n as int) == Value::Class(class),
        initialized_by(m, class, v),
        v matches Value::Closure(init) ==> expects(m, init) != n || m.frames.len() == 64,
        m.strings.len() < usize::MAX,
    ensures
        dispatch(m, stop) matches Flow::Fail(a, text) && {
            &&& goes_to(m, a, inner(m).ip + 1)
            &&& made(m, a, class, m.top - n - 1)
            &&& match v {
                Value::Closure(init) => text == (if expects(m, init) != n {
                    count_message(expects(m, init), n)
                } else {
                    "Stack overflow."@
                }) + report(a, a.frames.len() as int),
                _ => text == "cannot convert to closure"@,
            }
        },
{
    let op = OpCode::Call(n);
    instructions_are_executed(m, op, stop);
    assert(m.value_ok(m.stack[m.top - n - 1]));
    initializers_are_found(m, class);
    interning(m.strings, "init".spec_bytes());
    let a = past(m).with_instance(InstanceView { class, fields: Map::empty() }).with_slot(
        m.top - n - 1,
        Value::Instance(m.instances.len() as usize),
    ).interning("init".spec_bytes());
    later_machines_tell_places(m, op, stop, a);
    if let Value::Closure(init) = v {
        report_is_trace(a, count_message(expects(m, init), n), a.frames.len() as int);
        report_is_trace(a, "Stack overflow."@, a.frames.len() as int);
    }
}

/// A bound method that is called with another number of arguments, or while as many calls
/// are under way as can be, fails, its receiver in its place.
pub proof fn bound_methods_are_guarded(m: Machine, stop: int, n: u8, b: usize)
    requires
        m.valid(),
        about_to(m, OpCode::Call(n)),
        tellable(m),
        n + 1 <= m.top,
        nth(m, n as int) == Value::BoundMethod(b),
        expects(m, m.bound_methods[b as int].method) != n || m.frames.len() == 64,
    ensures
        dispatch(m, stop) matches Flow::Fail(a, text) && {
            let expected = expects(m, m.bound_methods[b as int].method);
            &&& text == (if expected != n {
                count_message(expected, n)
            } else {
                "Stack overflow."@
            }) + report(a, a.frames.len() as int)
            &&& goes_to(m, a, inner(m).ip + 1)
            &&& same_heap(m, a)
            &&& a.top == m.top
            &&& a.stack == m.stack.update(m.top - n - 1, m.bound_methods[b as int].receiver)
        },
{
    let op = OpCode::Call(n);
    instructions_are_executed(m, op, stop);
    let bound = m.bound_methods[b as int];
    let a = past(m).with_slot(m.top - n - 1, bound.receiver);
    later_machines_tell_places(m, op, stop, a);
    report_is_trace(a, count_message(expects(m, bound.method), n), a.frames.len() as int);
    report_is_trace(a, "Stack overflow."@, a.frames.len() as int);
}

// ---- Invocations ----

/// Whether a class has the closure as a method of the name.
pub open spec fn has_method(m: Machine, class: usize, name: usize, closure: usize) -> bool {
    m.classes[class as int].methods.contains_key(name) && m.classes[class as int].methods[name]
        == Value::Closure(closure)
}

/// `Invoke` on an instance without a field of the name begins a call of the method that
/// its class has under the name, with the instance in slot 0 and the arguments, in
/// order, in the slots after it. Nothing else changes.
pub proof fn methods_are_invoked(
    m: Machine,
    stop: int,
    index: u8,
    n: u8,
    name: usize,
    i: usize,
    closure: usize,
)
    requires
        about_to(m, OpCode::Invoke(index, n)),
        has_constant(m, index, Value::String(name)),
        n + 1 <= m.top <= 4096,
        nth(m, n as int) == Value::Instance(i),
        !m.instances[i as int].fields.contains_key(name),
        has_method(m, m.instances[i as int].class, name, closure),
        expects(m, closure) == n,
        m.frames.len() < 64,
    ensures
        dispatch(m, stop) matches Flow::Next(a) && {
            &&& begun(m, a, closure, m.top - n - 1)
            &&& slot_of(a, 0) == Value::Instance(i)
            &&& forall|j: int| 1 <= j <= n ==> #[trigger] slot_of(a, j) == nth(m, n - j)
            &&& replaced(m, a, 0, Seq::empty())
            &&& same_heap(m, a)
        },
{
    instructions_are_executed(m, OpCode::Invoke(index, n), stop);
    let a = dispatch(m, stop)->Next_0;
    assert(a.frames.drop_last() =~= past(m).frames);
}

/// `Invoke` of a method with another number of arguments, while as many calls are under
/// way as can be, or of a method that is not there, fails.
pub proof fn invocations_are_guarded(
    m: Machine,
    stop: int,
    index: u8,
    n: u8,
    name: usize,
    i: usize,
    closure: usize,
)
    requires
        about_to(m, OpCode::Invoke(index, n)),
        tellable(m),
        has_constant(m, index, Value::String(name)),
        n + 1 <= m.top <= 4096,
        nth(m, n as int) == Value::Instance(i),
        !m.instances[i as int].fields.contains_key(name),
    ensures
        !m.classes[m.instances[i as int].class as int].methods.contains_key(name) ==> fails(
            m,
            dispatch(m, stop),
            0,
            "Undefined property '"@ + shown(m.strings[name as int]) + "'."@,
        ),
        has_method(m, m.instances[i as int].class, name, closure) && expects(m, closure) != n
            ==> fails(m, dispatch(m, stop), 0, count_message(expects(m, closure), n)),
        has_method(m, m.instances[i as int].class, name, closure) && expects(m, closure) == n
            && m.frames.len() == 64 ==> fails(
            m,
            dispatch(m, stop),
            0,
            "Stack overflow."@,
        ),
{
    let op = OpCode::Invoke(index, n);
    let missing = "Undefined property '"@ + shown(m.strings[name as int]) + "'."@;
    instructions_are_executed(m, op, stop);
    errors_are_reported(m, op, stop, missing, m.top);
    errors_are_reported(m, op, stop, count_message(expects(m, closure), n), m.top);
    errors_are_reported(m, op, stop, "Stack overflow."@, m.top);
    assert(past(m) == Machine { top: m.top, ..past(m) });
}

/// `Invoke` on an instance with a field of the name is a call of the value of that field,
/// which takes the place of the instance; methods of the class do not count.
pub proof fn fields_are_invoked(m: Machine, stop: int, index: u8, n: u8, name: usize, i: usize)
    requires
        about_to(m, OpCode::Invoke(index, n)),
        has_constant(m, index, Value::String(name)),
        n + 1 <= m.top <= 4096,
        m.stack.len() == 4096,
        nth(m, n as int) == Value::Instance(i),
        m.instances[i as int].fields.contains_key(name),
    ensures
        dispatch(m, stop) == execute(
            Machine {
                stack: m.stack.update(m.top - n - 1, m.instances[i as int].fields[name]),
                ..past(m)
            },
            OpCode::Call(n),
            stop,
        ),
{
    instructions_are_executed(m, OpCode::Invoke(index, n), stop);
}

/// A closure in a field that is invoked begins with itself, not the instance, in slot 0.
pub proof fn closures_in_fields_are_invoked(
    m: Machine,
    stop: int,
    index: u8,
    n: u8,
    name: usize,
    i: usize,
    closure: usize,
)
    requires
        about_to(m, OpCode::Invoke(index, n)),
        has_constant(m, index, Value::String(name)),
        n + 1 <= m.top <= 4096,
        m.stack.len() == 4096,
        nth(m, n as int) == Value::Instance(i),
        m.instances[i as int].fields.contains_key(name),
        m.instances[i as int].fields[name] == Value::Closure(closure),
        expects(m, closure) == n,
        m.frames.len() < 64,
    ensures
        dispatch(m, stop) matches Flow::Next(a) && {
            &&& begun(m, a, closure, m.top - n - 1)
            &&& slot_of(a, 0) == Value::Closure(closure)
            &&& forall|j: int| 1 <= j <= n ==> #[trigger] slot_of(a, j) == nth(m, n - j)
            &&& a.top == m.top
            &&& same_heap(m, a)
        },
{
    instructions_are_executed(m, OpCode::Invoke(index, n), stop);
    let a = dispatch(m, stop)->Next_0;
    assert(a.frames.drop_last() =~= past(m).frames);
}

/// `Invoke` of "run" on an agent asks the agent about the topmost value, a string, which
/// is taken off.
pub proof fn agents_are_run(
    m: Machine,
    stop: int,
    index: u8,
    n: u8,
    name: usize,
    agent: usize,
    s: usize,
)
    requires
        about_to(m, OpCode::Invoke(index, n)),
        has_constant(m, index, Value::String(name)),
        m.strings[name as int] == "run".spec_bytes(),
        n + 1 <= m.top <= m.stack.len(),
        nth(m, n as int) == Value::Agent(agent),
        nth(m, 0) == Value::String(s),
    ensures
        asks(
            m,
            dispatch(m, stop),
            1,
            Inquiry::RunAgent { agent, message: m.strings[s as int] },
        ),
{
    instructions_are_executed(m, OpCode::Invoke(index, n), stop);
}

/// Agents have no other methods, and values other than instances and agents have none.
pub proof fn receivers_are_demanded(m: Machine, stop: int, index: u8, n: u8, name: usize)
    requires
        about_to(m, OpCode::Invoke(index, n)),
        tellable(m),
        has_constant(m, index, Value::String(name)),
        n + 1 <= m.top <= m.stack.len(),
    ensures
        nth(m, n as int) is Agent && m.strings[name as int] != "run".spec_bytes() ==> fails(
            m,
            dispatch(m, stop),
            0,
            "Agent have no methods called '"@ + shown(m.strings[name as int]) + "'."@,
        ),
        !(nth(m, n as int) is Agent) && !(nth(m, n as int) is Instance) ==> fails(
            m,
            dispatch(m, stop),
            0,
            "Only instances have methods."@,
        ),
{
    let op = OpCode::Invoke(index, n);
    let missing = "Agent have no methods called '"@ + shown(m.strings[name as int]) + "'."@;
    instructions_are_executed(m, op, stop);
    errors_are_reported(m, op, stop, missing, m.top);
    errors_are_reported(m, op, stop, "Only instances have methods."@, m.top);
    assert(past(m) == Machine { top: m.top, ..past(m) });
}

/// `SuperInvoke` takes the class off and begins a call of the method that it has under
/// the name, with the receiver below the arguments in slot 0 and the arguments, in order,
/// in the slots after it. Nothing else changes.
pub proof fn super_methods_are_invoked(
    m: Machine,
    stop: int,
    index: u8,
    n: u8,
    name: usize,
    class: usize,
    closure: usize,
)
    requires
        about_to(m, OpCode::SuperInvoke(index, n)),
        has_constant(m, index, Value::String(name)),
        n + 2 <= m.top <= 4096,
        nth(m, 0) == Value::Class(class),
        has_method(m, class, name, closure),
        expects(m, closure) == n,
        m.frames.len() < 64,
    ensures
        dispatch(m, stop) matches Flow::Next(a) && {
            &&& begun(m, a, closure, m.top - n - 2)
            &&& slot_of(a, 0) == nth(m, n + 1)
            &&& forall|j: int| 1 <= j <= n ==> #[trigger] slot_of(a, j) == nth(m, n + 1 - j)
            &&& a.top == m.top - 1
            &&& replaced(m, a, 1, Seq::empty())
            &&& same_heap(m, a)
        },
{
    instructions_are_executed(m, OpCode::SuperInvoke(index, n), stop);
    let a = dispatch(m, stop)->Next_0;
    assert(a.frames.drop_last() =~= past(m).frames);
}

/// `SuperInvoke` of a method with another number of arguments, while as many calls are
/// under way as can be, or of a method that the class lacks, fails, the class taken off.
pub proof fn super_invocations_are_guarded(
    m: Machine,
    stop: int,
    index: u8,
    n: u8,
    name: usize,
    class: usize,
    closure: usize,
)
    requires
        about_to(m, OpCode::SuperInvoke(index, n)),
        tellable(m),
        has_constant(m, index, Value::String(name)),
        1 <= m.top <= 4096,
        nth(m, 0) == Value::Class(class),
    ensures
        !m.classes[class as int].methods.contains_key(name) ==> fails(
            m,
            dispatch(m, stop),
            1,
            "Undefined property '"@ + shown(m.strings[name as int]) + "'."@,
        ),
        has_method(m, class, name, closure) && expects(m, closure) != n ==> fails(
            m,
            dispatch(m, stop),
            1,
            count_message(expects(m, closure), n),
        ),
        has_method(m, class, name, closure) && expects(m, closure) == n && m.frames.len()
            == 64 ==> fails(m, dispatch(m, stop), 1, "Stack overflow."@),
{
    let op = OpCode::SuperInvoke(index, n);
    let missing = "Undefined property '"@ + shown(m.strings[name as int]) + "'."@;
    instructions_are_executed(m, op, stop);
    errors_are_reported(m, op, stop, missing, m.top - 1);
    errors_are_reported(m, op, stop, count_message(expects(m, closure), n), m.top - 1);
    errors_are_reported(m, op, stop, "Stack overflow."@, m.top - 1);
    assert(past(m).dropped(1) == Machine { top: m.top - 1, ..past(m) });
}

/// Whether the instruction binds or calls a method of the class on top of the stack.
pub open spec fn wants_superclass(op: OpCode, index: u8) -> bool {
    match op {
        OpCode::GetSuper(i) => i == index,
        OpCode::SuperInvoke(i, _) => i == index,
        _ => false,
    }
}

/// Only a class has methods for a subclass. Here no places are told.
pub proof fn superclass_is_demanded(m: Machine, op: OpCode, stop: int, index: u8, name: usize)
    requires
        wants_superclass(op, index),
        about_to(m, op),
        has_constant(m, index, Value::String(name)),
        1 <= m.top <= m.stack.len(),
        !(nth(m, 0) is Class),
    ensures
        dispatch(m, stop) matches Flow::Fail(a, text) && text == "cannot convert to class"@
            && goes_to(m, a, inner(m).ip + 1) && same_heap(m, a) && replaced(
            m,
            a,
            1,
            Seq::empty(),
        ),
{
    instructions_are_executed(m, op, stop);
}

/// The name of the method that an instruction is to find, and the class that it looks in.
pub open spec fn looks_up(m: Machine, op: OpCode) -> Option<(u8, usize)> {
    match op {
        OpCode::Invoke(index, n) => match nth(m, n as int) {
            Value::Instance(i) => Some((index, m.instances[i as int].class)),
            _ => None,
        },
        OpCode::GetProperty(index) => match nth(m, 0) {
            Value::Instance(i) => Some((index, m.instances[i as int].class)),
            _ => None,
        },
        OpCode::SuperInvoke(index, _) => match nth(m, 0) {
            Value::Class(class) => Some((index, class)),
            _ => None,
        },
        OpCode::GetSuper(index) => match nth(m, 0) {
            Value::Class(class) => Some((index, class)),
            _ => None,
        },
        _ => None,
    }
}

/// Whether the instruction finds a field of the name and no method is looked for.
pub open spec fn finds_field(m: Machine, op: OpCode, name: usize) -> bool {
    match op {
        OpCode::Invoke(_, n) => nth(m, n as int) matches Value::Instance(i)
            && m.instances[i as int].fields.contains_key(name),
        OpCode::GetProperty(_) => nth(m, 0) matches Value::Instance(i)
            && m.instances[i as int].fields.contains_key(name),
        _ => false,
    }
}

/// How many values lie on the stack at least where an instruction looks for a method.
pub open spec fn needs(op: OpCode) -> int {
    match op {
        OpCode::Invoke(_, n) => n + 1,
        OpCode::GetSuper(_) => 2,
        _ => 1,
    }
}

/// Only a closure can be called or bound as a method. Here no places are told.
pub proof fn method_is_demanded(
    m: Machine,
    op: OpCode,
    stop: int,
    index: u8,
    name: usize,
    class: usize,
)
    requires
        looks_up(m, op) == Some((index, class)),
        about_to(m, op),
        has_constant(m, index, Value::String(name)),
        needs(op) <= m.top <= m.stack.len(),
        !finds_field(m, op, name),
        m.classes[class as int].methods.contains_key(name),
        !(m.classes[class as int].methods[name] is Closure),
    ensures
        dispatch(m, stop) matches Flow::Fail(a, text) && text == "cannot convert to closure"@
            && goes_to(m, a, inner(m).ip + 1) && same_heap(m, a) && replaced(
            m,
            a,
            if op is GetSuper || op is SuperInvoke {
                1
            } else {
                0
            },
            Seq::empty(),
        ),
{
    instructions_are_executed(m, op, stop);
}

// ---- Closing captured variables ----

/// Whether the first `k` captured variables of the list have taken the values of their
/// slots and left the list, where these are all up to the first one whose slot lies
/// below `last`; and no other captured variable has changed.
pub open spec fn closes(m: Machine, after: Machine, last: int, k: int) -> bool {
    &&& 0 <= k <= m.open.len()
    &&& after.open == m.open.skip(k)
    &&& forall|i: int|
        0 <= i < k ==> m.upvalues[(#[trigger] m.open[i]) as int].location >= last
    &&& k < m.open.len() ==> m.upvalues[m.open[k] as int].location < last
    &&& after.upvalues.len() == m.upvalues.len()
    &&& forall|u: int|
        0 <= u < m.upvalues.len() ==> (#[trigger] after.upvalues[u]).location
            == m.upvalues[u].location
    &&& forall|u: int|
        0 <= u < m.upvalues.len() ==> (#[trigger] after.upvalues[u]).closed == (if exists|i: int|
            0 <= i < k && #[trigger] m.open[i] == u {
            Some(m.stack[m.upvalues[u].location as int])
        } else {
            m.upvalues[u].closed
        })
}

/// Whether captured variables were closed from the head of the list, up to the first one
/// whose slot lies below `last`.
pub open spec fn closed_down_to(m: Machine, after: Machine, last: int) -> bool {
    exists|k: int| closes(m, after, last, k)
}

/// Whether the slots of all captured variables of the list are on the stack.
pub open spec fn open_on_stack(m: Machine) -> bool {
    forall|i: int|
        0 <= i < m.open.len() ==> (#[trigger] m.open[i]) < m.upvalues.len()
            && m.upvalues[m.open[i] as int].location < 4096
}

/// Closing closes the variables up to the first one whose slot lies below the given one,
/// and changes nothing else.
pub proof fn closing_takes_from_head(m: Machine, last: int)
    requires
        open_on_stack(m),
    ensures
        close(m, last) matches Some(a) && closed_down_to(m, a, last) && a == (Machine {
            upvalues: a.upvalues,
            open: a.open,
            ..m
        }),
    decreases m.open.len(),
{
    if m.open.len() == 0 || m.upvalues[m.open[0] as int].location < last {
        assert(m.open.skip(0) =~= m.open);
        assert(closes(m, m, last, 0));
    } else {
        let next = close_head(m);
        assert forall|i: int| 0 <= i < next.open.len() implies (#[trigger] next.open[i])
            < next.upvalues.len() && next.upvalues[next.open[i] as int].location
            < 4096 by {
            assert(next.open[i] == m.open[i + 1]);
        }
        closing_takes_from_head(next, last);
        let a = close(next, last).unwrap();
        let k = choose|k: int| closes(next, a, last, k);
        assert(next.open.skip(k) =~= m.open.skip(k + 1));
        assert forall|i: int| 0 <= i < k + 1 implies m.upvalues[(
        #[trigger] m.open[i]) as int].location >= last by {
            if i > 0 {
                assert(next.open[i - 1] == m.open[i]);
            }
        }
        if k + 1 < m.open.len() {
            assert(next.open[k] == m.open[k + 1]);
        }
        assert forall|u: int| 0 <= u < m.upvalues.len() implies (
        #[trigger] a.upvalues[u]).closed == (if exists|i: int|
            0 <= i < k + 1 && #[trigger] m.open[i] == u {
            Some(m.stack[m.upvalues[u].location as int])
        } else {
            m.upvalues[u].closed
        }) by {
            if exists|i: int| 0 <= i < k && #[trigger] next.open[i] == u {
                let i = choose|i: int| 0 <= i < k && #[trigger] next.open[i] == u;
                assert(m.open[i + 1] == u);
            } else if exists|i: int| 0 <= i < k + 1 && #[trigger] m.open[i] == u {
                let i = choose|i: int| 0 <= i < k + 1 && #[trigger] m.open[i] == u;
                if i > 0 {
                    assert(next.open[i - 1] == u);
                }
            }
        }
        assert(closes(m, a, last, k + 1));
    }
}

/// `CloseUpvalue` closes the captured variables of the topmost slot and of slots above
/// it, and takes the topmost value off.
pub proof fn top_is_closed(m: Machine, stop: int)
    requires
        about_to(m, OpCode::CloseUpvalue),
        1 <= m.top <= m.stack.len(),
        open_on_stack(m),
    ensures
        dispatch(m, stop) matches Flow::Next(a) && {
            &&& goes_to(m, a, inner(m).ip + 1)
            &&& replaced(m, a, 1, Seq::empty())
            &&& closed_down_to(m, a, m.top - 1)
            &&& same_heap(m, Machine { upvalues: m.upvalues, open: m.open, ..a })
        },
{
    instructions_are_executed(m, OpCode::CloseUpvalue, stop);
    let first = m.top - 1;
    closing_takes_from_head(past(m), first);
    let c = close(past(m), first).unwrap();
    let k = choose|k: int| closes(past(m), c, first, k);
    assert(closes(m, c.dropped(1), first, k));
}

// ---- Returns ----

/// `Return` ends the innermost call: its captured variables are closed, and its value
/// takes the place of its first slot and of all above it. No other slot changes, and the
/// calls around it are as they were.
pub proof fn returns_give_values(m: Machine, stop: int)
    requires
        about_to(m, OpCode::Return),
        1 <= m.top <= m.stack.len(),
        m.stack.len() == 4096,
        inner(m).slot_start < 4096,
        open_on_stack(m),
        m.frames.len() - 1 != stop,
    ensures
        dispatch(m, stop) matches Flow::Next(a) && {
            &&& a.frames == m.frames.drop_last()
            &&& a.top == inner(m).slot_start + 1
            &&& nth(a, 0) == nth(m, 0)
            &&& a.stack.len() == m.stack.len()
            &&& forall|i: int|
                0 <= i < m.stack.len() && i != inner(m).slot_start ==> #[trigger] a.stack[i]
                    == m.stack[i]
            &&& closed_down_to(m, a, inner(m).slot_start as int)
            &&& same_heap(m, Machine { upvalues: m.upvalues, open: m.open, ..a })
        },
{
    instructions_are_executed(m, OpCode::Return, stop);
    let first = inner(m).slot_start as int;
    let before = past(m).dropped(1);
    closing_takes_from_head(before, first);
    let c = close(before, first).unwrap();
    let k = choose|k: int| closes(before, c, first, k);
    let a = dispatch(m, stop)->Next_0;
    assert(past(m).frames.drop_last() =~= m.frames.drop_last());
    assert(closes(m, a, first, k));
}

/// The `Return` that leaves `stop` calls under way ends the run with its value, and takes
/// the value below it, the called closure, off as well.
pub proof fn last_returns_give_values(m: Machine, stop: int)
    requires
        about_to(m, OpCode::Return),
        2 <= m.top <= m.stack.len(),
        open_on_stack(m),
        m.frames.len() - 1 == stop,
    ensures
        dispatch(m, stop) matches Flow::Done(a, v) && {
            &&& v == nth(m, 0)
            &&& a.frames == m.frames.drop_last()
            &&& replaced(m, a, 2, Seq::empty())
            &&& closed_down_to(m, a, inner(m).slot_start as int)
            &&& same_heap(m, Machine { upvalues: m.upvalues, open: m.open, ..a })
        },
{
    instructions_are_executed(m, OpCode::Return, stop);
    let first = inner(m).slot_start as int;
    let before = past(m).dropped(1);
    closing_takes_from_head(before, first);
    let c = close(before, first).unwrap();
    let k = choose|k: int| closes(before, c, first, k);
    let a = dispatch(m, stop)->Done_0;
    assert(past(m).frames.drop_last() =~= m.frames.drop_last());
    assert(closes(m, a, first, k));
}

/// Once a method that `SuperInvoke` called returns, one value stands in the place of
/// receiver, arguments and class.
pub proof fn super_invocations_leave_one_value(
    m: Machine,
    stop: int,
    index: u8,
    n: u8,
    name: usize,
    class: usize,
    closure: usize,
    called: Machine,
    ending: Machine,
)
    requires
        about_to(m, OpCode::SuperInvoke(index, n)),
        has_constant(m, index, Value::String(name)),
        n + 2 <= m.top <= 4096,
        nth(m, 0) == Value::Class(class),
        has_method(m, class, name, closure),
        expects(m, closure) == n,
        m.frames.len() < 64,
        m.frames.len() != stop,
        dispatch(m, stop) == Flow::Next(called),
        about_to(ending, OpCode::Return),
        ending.frames.len() == called.frames.len(),
        inner(ending).slot_start == inner(called).slot_start,
        ending.stack.len() == 4096,
        1 <= ending.top <= 4096,
        open_on_stack(ending),
    ensures
        dispatch(ending, stop) matches Flow::Next(a) && {
            &&& a.frames.len() == m.frames.len()
            &&& a.top == m.top - (n + 2) + 1
            &&& nth(a, 0) == nth(ending, 0)
            &&& forall|i: int| 0 <= i < m.top - (n + 2) ==> #[trigger] a.stack[i] == ending.stack[i]
        },
{
    super_methods_are_invoked(m, stop, index, n, name, class, closure);
    returns_give_values(ending, stop);
}

/// Once a method that `Invoke` called, or a closure that `Call` called, returns, one value
/// stands in the place of receiver or closure and arguments.
pub proof fn calls_leave_one_value(
    m: Machine,
    stop: int,
    n: u8,
    closure: usize,
    called: Machine,
    ending: Machine,
)
    requires
        m.frames.len() != stop,
        dispatch(m, stop) == Flow::Next(called),
        begun(m, called, closure, m.top - n - 1),
        about_to(ending, OpCode::Return),
        ending.frames.len() == called.frames.len(),
        inner(ending).slot_start == inner(called).slot_start,
        ending.stack.len() == 4096,
        inner(ending).slot_start < 4096,
        1 <= ending.top <= 4096,
        open_on_stack(ending),
    ensures
        dispatch(ending, stop) matches Flow::Next(a) && {
            &&& a.frames.len() == m.frames.len()
            &&& a.top == m.top - (n + 1) + 1
            &&& nth(a, 0) == nth(ending, 0)
            &&& forall|i: int| 0 <= i < m.top - (n + 1) ==> #[trigger] a.stack[i] == ending.stack[i]
        },
{
    returns_give_values(ending, stop);
}

} // verus!
